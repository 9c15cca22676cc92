//! The ASIC chain protocol: command frames, response parsing, chip
//! detection and the bookkeeping of a chain controller.

use vstd::prelude::*;
use crate::device::traits::ChainStatus;
use crate::error::DeviceError;

verus! {

/// The two bytes that open every frame.
pub const SYNC_0: u8 = 0x55;
/// The second byte that opens every frame.
pub const SYNC_1: u8 = 0xAA;
/// Asks whether a chip answers.
pub const CMD_DETECT: u8 = 0x51;
/// Sets a chip's PLL frequency.
pub const CMD_SET_PLL: u8 = 0x52;
/// Sets a chip's voltage.
pub const CMD_SET_VOLTAGE: u8 = 0x53;
/// Hands a chip 32 bytes of work.
pub const CMD_WORK: u8 = 0x54;
/// Reads a chip's result.
pub const CMD_READ_RESULT: u8 = 0x55;
/// Resets a chip.
pub const CMD_RESET: u8 = 0x56;
/// Reads a chip's temperature.
pub const CMD_READ_TEMPERATURE: u8 = 0x57;
/// The most chips a chain is probed for.
pub const MAX_CHIPS: u8 = 128;

/// A frame: sync bytes, command, chip and four payload bytes.
pub open spec fn frame(cmd: u8, chip_id: u8, payload: Seq<u8>) -> Seq<u8> {
    seq![SYNC_0, SYNC_1, cmd, chip_id] + payload
}

/// Builds the frame of command `cmd` to chip `chip_id` with four payload
/// bytes.
pub fn command_frame(cmd: u8, chip_id: u8, p0: u8, p1: u8, p2: u8, p3: u8) -> (r: Vec<u8>)
    ensures
        r@ == frame(cmd, chip_id, seq![p0, p1, p2, p3]),
{
    let r = vec![SYNC_0, SYNC_1, cmd, chip_id, p0, p1, p2, p3];
    assert(r@ =~= frame(cmd, chip_id, seq![p0, p1, p2, p3]));
    r
}

/// The detection frame of a chip.
pub fn detect_command(chip_id: u8) -> (r: Vec<u8>)
    ensures
        r@ == frame(CMD_DETECT, chip_id, seq![0u8, 0u8, 0u8, 0u8]),
{
    command_frame(CMD_DETECT, chip_id, 0, 0, 0, 0)
}

/// The frame that sets a chip's PLL to `frequency` MHz: the low sixteen
/// bits of the frequency, high byte first, then two reserved bytes.
pub fn pll_command(chip_id: u8, frequency: u32) -> (r: Vec<u8>)
    ensures
        r@ == frame(CMD_SET_PLL, chip_id, seq![((frequency / 256) % 256) as u8, (frequency % 256) as u8, 0u8, 0u8]),
{
    command_frame(CMD_SET_PLL, chip_id, ((frequency / 256) % 256) as u8, (frequency % 256) as u8, 0, 0)
}

/// The frame that sets a chip's voltage to `voltage` mV: the low sixteen
/// bits of the voltage, high byte first, then two reserved bytes.
pub fn voltage_command(chip_id: u8, voltage: u32) -> (r: Vec<u8>)
    ensures
        r@ == frame(CMD_SET_VOLTAGE, chip_id, seq![((voltage / 256) % 256) as u8, (voltage % 256) as u8, 0u8, 0u8]),
{
    command_frame(CMD_SET_VOLTAGE, chip_id, ((voltage / 256) % 256) as u8, (voltage % 256) as u8, 0, 0)
}

/// The frame that reads a chip's result.
pub fn read_result_command(chip_id: u8) -> (r: Vec<u8>)
    ensures
        r@ == frame(CMD_READ_RESULT, chip_id, seq![0u8, 0u8, 0u8, 0u8]),
{
    command_frame(CMD_READ_RESULT, chip_id, 0, 0, 0, 0)
}

/// The frame that resets a chip.
pub fn reset_command(chip_id: u8) -> (r: Vec<u8>)
    ensures
        r@ == frame(CMD_RESET, chip_id, seq![0u8, 0u8, 0u8, 0u8]),
{
    command_frame(CMD_RESET, chip_id, 0, 0, 0, 0)
}

/// The frame that reads a chip's temperature.
pub fn temperature_command(chip_id: u8) -> (r: Vec<u8>)
    ensures
        r@ == frame(CMD_READ_TEMPERATURE, chip_id, seq![0u8, 0u8, 0u8, 0u8]),
{
    command_frame(CMD_READ_TEMPERATURE, chip_id, 0, 0, 0, 0)
}

/// The frame that hands a chip its work; the work must be 32 bytes.
pub fn work_command(chip_id: u8, work_data: &[u8]) -> (r: Result<Vec<u8>, DeviceError>)
    ensures
        work_data@.len() == 32 ==> (r matches Ok(f) && f@ == frame(CMD_WORK, chip_id, work_data@)),
        work_data@.len() != 32 ==> (r matches Err(e) && (e matches DeviceError::InvalidConfig { reason }
            && reason@ == "Work data must be 32 bytes"@)),
{
    if work_data.len() != 32 {
        return Err(DeviceError::InvalidConfig { reason: String::from_str("Work data must be 32 bytes") });
    }
    let mut f = vec![SYNC_0, SYNC_1, CMD_WORK, chip_id];
    let mut i: usize = 0;
    while i < 32
        invariant
            work_data@.len() == 32,
            i <= 32,
            f@ == seq![SYNC_0, SYNC_1, CMD_WORK, chip_id] + work_data@.subrange(0, i as int),
        decreases 32 - i,
    {
        f.push(work_data[i]);
        assert(work_data@.subrange(0, i + 1) =~= work_data@.subrange(0, i as int).push(work_data@[i as int]));
        i = i + 1;
    }
    assert(work_data@.subrange(0, 32) =~= work_data@);
    Ok(f)
}

/// `response` opens with the sync bytes and has at least `n` bytes.
pub open spec fn framed(response: Seq<u8>, n: nat) -> bool {
    response.len() >= n && response[0] == SYNC_0 && response[1] == SYNC_1
}

/// Whether a detection response shows a chip: at least four bytes that
/// open with the sync bytes.
pub fn chip_answered(response: &[u8]) -> (r: bool)
    ensures
        r == framed(response@, 4),
{
    response.len() >= 4 && response[0] == SYNC_0 && response[1] == SYNC_1
}

/// The big-endian number of four bytes.
pub open spec fn be_u32(b0: u8, b1: u8, b2: u8, b3: u8) -> nat {
    ((b0 as nat) * 256 + (b1 as nat)) * 65536 + (b2 as nat) * 256 + (b3 as nat)
}

/// The result a read-result response carries: a nonce, bytes four to seven
/// big-endian, and the work identifier, byte three; a response that is
/// short, unframed or whose nonce is zero carries none.
pub open spec fn result_of(response: Seq<u8>) -> Option<(u32, u8)> {
    if framed(response, 8) && be_u32(response[4], response[5], response[6], response[7]) != 0 {
        Some((be_u32(response[4], response[5], response[6], response[7]) as u32, response[3]))
    } else {
        None
    }
}

/// The result a read-result response carries.
pub fn parse_result(response: &[u8]) -> (r: Option<(u32, u8)>)
    ensures
        r == result_of(response@),
{
    if response.len() >= 8 && response[0] == SYNC_0 && response[1] == SYNC_1 {
        let b0 = response[4] as u32;
        let b1 = response[5] as u32;
        let b2 = response[6] as u32;
        let b3 = response[7] as u32;
        let nonce = ((b0 * 256 + b1) * 65536) + b2 * 256 + b3;
        if nonce != 0 {
            return Some((nonce, response[3]));
        }
    }
    None
}

/// The raw temperature a temperature response carries, in tenths of a
/// degree: bytes four and five big-endian.
pub open spec fn raw_temperature_of(response: Seq<u8>) -> Option<u16> {
    if framed(response, 6) {
        Some(((response[4] as nat) * 256 + (response[5] as nat)) as u16)
    } else {
        None
    }
}

/// The raw temperature, in tenths of a degree, that a temperature response
/// from chain `chain_id` carries.
pub fn parse_temperature(chain_id: u8, response: &[u8]) -> (r: Result<u16, DeviceError>)
    ensures
        match raw_temperature_of(response@) {
            Some(t) => r == Ok::<u16, DeviceError>(t),
            None => r matches Err(e) && (e matches DeviceError::CommunicationError { device_id, error }
                && device_id == chain_id && error@ == "Invalid temperature response"@),
        },
{
    if response.len() >= 6 && response[0] == SYNC_0 && response[1] == SYNC_1 {
        Ok((response[4] as u16) * 256 + (response[5] as u16))
    } else {
        Err(DeviceError::CommunicationError {
            device_id: chain_id as u32,
            error: String::from_str("Invalid temperature response"),
        })
    }
}

/// The chip that the `queued`-th queued job goes to.
pub fn job_chip(queued: usize, chip_count: u32) -> (chip: u8)
    requires
        chip_count > 0,
    ensures
        chip == ((queued as nat) % (chip_count as nat)) % 256,
{
    ((queued % (chip_count as usize)) % 256) as u8
}

/// Whether probing stops after chip `chip_id` stayed silent with `found`
/// chips found so far: after the fourth chip when none was found, or once
/// the probe is more than three chips past the count found.
pub open spec fn stops_after_silence(chip_id: nat, found: nat) -> bool {
    (chip_id >= 3 && found == 0) || chip_id > found + 3
}

/// The chip count and the number of chips probed after the answers
/// `answers` of chips 0, 1, ... in turn; probing stops at the silent chip
/// that `stops_after_silence` names, or after `MAX_CHIPS` chips.
pub open spec fn scan(answers: Seq<bool>) -> (nat, nat, bool)
    decreases answers.len(),
{
    if answers.len() == 0 {
        (0, 0, false)
    } else {
        let (found, probed, stopped) = scan(answers.drop_last());
        if stopped || probed >= MAX_CHIPS {
            (found, probed, stopped)
        } else if answers.last() {
            (found + 1, probed + 1, false)
        } else {
            (found, probed + 1, stops_after_silence(probed, found))
        }
    }
}

/// The detection of the chips of a chain, chip by chip.
pub struct ChipScan {
    found: u32,
    probed: u32,
    stopped: bool,
    answers: Ghost<Seq<bool>>,
}

impl ChipScan {
    /// The answers recorded so far.
    pub closed spec fn answers(&self) -> Seq<bool> {
        self.answers@
    }

    /// The scan state is that of the recorded answers.
    pub closed spec fn well_formed(&self) -> bool {
        scan(self.answers@) == (self.found as nat, self.probed as nat, self.stopped)
    }

    /// A scan that has probed nothing.
    pub fn new() -> (r: Self)
        ensures
            r.well_formed(),
            r.answers() == Seq::<bool>::empty(),
    {
        ChipScan { found: 0, probed: 0, stopped: false, answers: Ghost(Seq::empty()) }
    }

    /// The chip to probe next, or nothing when the scan is over.
    pub fn next_chip(&self) -> (r: Option<u8>)
        requires
            self.well_formed(),
        ensures
            r == (if scan(self.answers()).2 || scan(self.answers()).1 >= MAX_CHIPS {
                None
            } else {
                Some(scan(self.answers()).1 as u8)
            }),
    {
        if self.stopped || self.probed >= MAX_CHIPS as u32 {
            None
        } else {
            Some(self.probed as u8)
        }
    }

    /// Records whether the chip probed last answered.
    pub fn record(&mut self, answered: bool)
        requires
            old(self).well_formed(),
        ensures
            final(self).well_formed(),
            final(self).answers() == old(self).answers().push(answered),
    {
        proof {
            lemma_scan_bounds(self.answers@);
        }
        let ghost before = self.answers@;
        self.answers = Ghost(self.answers@.push(answered));
        assert(self.answers@.drop_last() =~= before);
        if self.stopped || self.probed >= MAX_CHIPS as u32 {
        } else if answered {
            self.found = self.found + 1;
            self.probed = self.probed + 1;
        } else {
            let stop = (self.probed >= 3 && self.found == 0) || self.probed > self.found + 3;
            self.probed = self.probed + 1;
            self.stopped = stop;
        }
    }

    /// The number of chips found.
    pub fn chip_count(&self) -> (r: u32)
        requires
            self.well_formed(),
        ensures
            r == scan(self.answers()).0,
    {
        self.found
    }
}

/// Detection finds no more chips than it probes, and probes no more than
/// `MAX_CHIPS`.
pub proof fn lemma_scan_bounds(answers: Seq<bool>)
    ensures
        scan(answers).0 <= scan(answers).1 <= MAX_CHIPS,
    decreases answers.len(),
{
    if answers.len() > 0 {
        lemma_scan_bounds(answers.drop_last());
    }
}

/// The controller of one chain, without its hardware: status, settings,
/// counters and the queues of jobs and results.
pub struct ChainState {
    pub chain_id: u8,
    pub status: ChainStatus,
    pub chip_count: u32,
    pub pll_frequency: u32,
    pub voltage: u32,
    pub enabled: bool,
    pub work_queue: Vec<Vec<u8>>,
    pub result_queue: Vec<(u32, u8)>,
    pub error_count: u32,
    pub reset_count: u32,
}

impl ChainState {
    /// A chain not yet initialized: enabled, at 500 MHz and 850 mV, with no
    /// chips, jobs, results or errors.
    pub fn new(chain_id: u8) -> (r: Self)
        ensures
            r.chain_id == chain_id,
            r.status == ChainStatus::Uninitialized,
            r.chip_count == 0,
            r.pll_frequency == 500,
            r.voltage == 850,
            r.enabled,
            r.work_queue@.len() == 0,
            r.result_queue@.len() == 0,
            r.error_count == 0,
            r.reset_count == 0,
    {
        ChainState {
            chain_id,
            status: ChainStatus::Uninitialized,
            chip_count: 0,
            pll_frequency: 500,
            voltage: 850,
            enabled: true,
            work_queue: Vec::new(),
            result_queue: Vec::new(),
            error_count: 0,
            reset_count: 0,
        }
    }

    /// Whether the chain is idle or working.
    pub fn is_healthy(&self) -> (r: bool)
        ensures
            r == (self.status is Idle || self.status is Working),
    {
        match self.status {
            ChainStatus::Idle | ChainStatus::Working => true,
            _ => false,
        }
    }

    /// Counts a failed or timed-out transfer.
    pub fn note_error(&mut self)
        requires
            old(self).error_count < u32::MAX,
        ensures
            final(self).error_count == old(self).error_count + 1,
            final(self).status == old(self).status,
            final(self).work_queue == old(self).work_queue,
            final(self).result_queue == old(self).result_queue,
            final(self).reset_count == old(self).reset_count,
    {
        self.error_count = self.error_count + 1;
    }

    /// Clears the error count.
    pub fn clear_error_count(&mut self)
        ensures
            final(self).error_count == 0,
            final(self).status == old(self).status,
            final(self).reset_count == old(self).reset_count,
    {
        self.error_count = 0;
    }

    /// Starts a reset: the chain is initializing, the reset is counted and
    /// both queues are emptied.
    pub fn begin_reset(&mut self)
        requires
            old(self).reset_count < u32::MAX,
        ensures
            final(self).status == ChainStatus::Initializing,
            final(self).reset_count == old(self).reset_count + 1,
            final(self).work_queue@.len() == 0,
            final(self).result_queue@.len() == 0,
            final(self).chip_count == old(self).chip_count,
            final(self).enabled == old(self).enabled,
            final(self).error_count == old(self).error_count,
    {
        self.status = ChainStatus::Initializing;
        self.reset_count = self.reset_count + 1;
        self.work_queue.clear();
        self.result_queue.clear();
    }

    /// Ends a reset: the chain is idle.
    pub fn finish_reset(&mut self)
        ensures
            final(self).status == ChainStatus::Idle,
            final(self).reset_count == old(self).reset_count,
            final(self).chip_count == old(self).chip_count,
    {
        self.status = ChainStatus::Idle;
    }

    /// Takes the detected chip count: with no chip the chain is in error and
    /// initialization fails; otherwise it is idle.
    pub fn finish_initialization(&mut self, chip_count: u32) -> (r: Result<(), DeviceError>)
        ensures
            final(self).chip_count == chip_count,
            chip_count == 0 ==> (r matches Err(e) && (e matches DeviceError::ChainError { chain_id, error }
                && chain_id == old(self).chain_id && error@ == "No chips detected"@))
                && (final(self).status matches ChainStatus::Error(m) && m@ == "No chips detected"@),
            chip_count > 0 ==> r is Ok && final(self).status == ChainStatus::Idle,
            final(self).chain_id == old(self).chain_id,
    {
        self.chip_count = chip_count;
        if chip_count == 0 {
            self.status = ChainStatus::Error(String::from_str("No chips detected"));
            return Err(DeviceError::ChainError {
                chain_id: self.chain_id,
                error: String::from_str("No chips detected"),
            });
        }
        self.status = ChainStatus::Idle;
        Ok(())
    }

    /// Enables or disables the chain; an enabled chain is idle, a disabled
    /// one disabled.
    pub fn set_enabled(&mut self, enabled: bool)
        ensures
            final(self).enabled == enabled,
            final(self).status == (if enabled { ChainStatus::Idle } else { ChainStatus::Disabled }),
            final(self).chip_count == old(self).chip_count,
            final(self).work_queue == old(self).work_queue,
    {
        self.enabled = enabled;
        self.status = if enabled { ChainStatus::Idle } else { ChainStatus::Disabled };
    }

    /// Queues a job. A disabled chain refuses it. Otherwise the job is
    /// queued and, when the chain has chips, the chip that gets it is named:
    /// the queue length modulo the chip count.
    pub fn queue_job(&mut self, job: &[u8]) -> (r: Result<Option<u8>, DeviceError>)
        ensures
            !old(self).enabled ==> (r matches Err(e) && (e matches DeviceError::ChainError { chain_id, error }
                && chain_id == old(self).chain_id && error@ == "Chain is disabled"@))
                && final(self).work_queue@ == old(self).work_queue@,
            old(self).enabled ==> final(self).work_queue@.len() == old(self).work_queue@.len() + 1
                && final(self).work_queue@.last()@ == job@
                && final(self).work_queue@.drop_last() == old(self).work_queue@
                && r == Ok::<Option<u8>, DeviceError>(if old(self).chip_count > 0 {
                    Some(((final(self).work_queue@.len() % (old(self).chip_count as nat)) % 256) as u8)
                } else {
                    None
                }),
            final(self).chip_count == old(self).chip_count,
            final(self).enabled == old(self).enabled,
            final(self).chain_id == old(self).chain_id,
            final(self).status == old(self).status,
    {
        if !self.enabled {
            return Err(DeviceError::ChainError { chain_id: self.chain_id, error: String::from_str("Chain is disabled") });
        }
        let copy = job_copy(job);
        self.work_queue.push(copy);
        if self.chip_count > 0 {
            Ok(Some(job_chip(self.work_queue.len(), self.chip_count)))
        } else {
            Ok(None)
        }
    }

    /// Marks the chain as working, once a job reached a chip.
    pub fn mark_working(&mut self)
        ensures
            final(self).status == ChainStatus::Working,
            final(self).chip_count == old(self).chip_count,
            final(self).work_queue == old(self).work_queue,
    {
        self.status = ChainStatus::Working;
    }

    /// Takes the result queued last, when the chain is enabled.
    pub fn take_queued_result(&mut self) -> (r: Option<(u32, u8)>)
        ensures
            !old(self).enabled ==> r is None && final(self).result_queue == old(self).result_queue,
            old(self).enabled && old(self).result_queue@.len() == 0 ==> r is None
                && final(self).result_queue@ == old(self).result_queue@,
            old(self).enabled && old(self).result_queue@.len() > 0 ==> r == Some(old(self).result_queue@.last())
                && final(self).result_queue@ == old(self).result_queue@.drop_last(),
            final(self).work_queue == old(self).work_queue,
            final(self).enabled == old(self).enabled,
    {
        if !self.enabled {
            return None;
        }
        self.result_queue.pop()
    }
}

/// A copy of a job's bytes.
fn job_copy(job: &[u8]) -> (r: Vec<u8>)
    ensures
        r@ == job@,
{
    let mut r: Vec<u8> = Vec::new();
    let mut i: usize = 0;
    while i < job.len()
        invariant
            i <= job@.len(),
            r@ == job@.subrange(0, i as int),
        decreases job@.len() - i,
    {
        r.push(job[i]);
        i = i + 1;
    }
    assert(job@.subrange(0, job@.len() as int) =~= job@);
    r
}


/// The four bytes of `n`, most significant first.
pub open spec fn be_bytes(n: u32) -> Seq<u8> {
    seq![(n / 0x100_0000) as u8, ((n / 0x1_0000) % 256) as u8, ((n / 256) % 256) as u8, (n % 256) as u8]
}

/// A read-result response that carries a nonce, big-endian, after the
/// work identifier gives back exactly that nonce and identifier.
pub proof fn law_result_round_trip(cmd: u8, work_id: u8, nonce: u32)
    requires
        nonce != 0,
    ensures
        result_of(frame(cmd, work_id, be_bytes(nonce))) == Some((nonce, work_id)),
{
    let f = frame(cmd, work_id, be_bytes(nonce));
    assert(f.len() == 8);
    assert(f[4] == (nonce / 0x100_0000) as u8);
    assert(f[5] == ((nonce / 0x1_0000) % 256) as u8);
    assert(f[6] == ((nonce / 256) % 256) as u8);
    assert(f[7] == (nonce % 256) as u8);
    assert((((nonce / 0x100_0000) as u8) as nat * 256 + (((nonce / 0x1_0000) % 256) as u8) as nat) * 65536
        + (((nonce / 256) % 256) as u8) as nat * 256 + ((nonce % 256) as u8) as nat == nonce) by (bit_vector);
}

/// The frequency a PLL frame carries, read back big-endian, is the
/// requested frequency modulo 2^16.
pub proof fn law_pll_round_trip(chip_id: u8, frequency: u32)
    ensures
        ({
            let f = frame(CMD_SET_PLL, chip_id, seq![((frequency / 256) % 256) as u8, (frequency % 256) as u8, 0u8, 0u8]);
            (f[4] as nat) * 256 + (f[5] as nat) == frequency % 0x1_0000
        }),
{
    assert((((frequency / 256) % 256) as u8) as nat * 256 + ((frequency % 256) as u8) as nat == frequency % 0x1_0000) by (bit_vector);
}

/// A chip that answers never ends the scan: while the scan goes on and fewer
/// than `MAX_CHIPS` chips were probed, one more answering chip is counted as
/// found and as probed, and probing goes on.
pub proof fn law_answering_chip_is_counted(answers: Seq<bool>)
    requires
        !scan(answers).2,
        scan(answers).1 < MAX_CHIPS,
    ensures
        scan(answers.push(true)) == (scan(answers).0 + 1, scan(answers).1 + 1, false),
{
    assert(answers.push(true).drop_last() =~= answers);
}

/// A chain whose first `n` chips all answer, `n` at most `MAX_CHIPS`, is
/// found to have `n` chips, all probed, with the scan still going.
pub proof fn law_all_answering_chips_found(n: nat)
    requires
        n <= MAX_CHIPS,
    ensures
        scan(Seq::new(n, |i: int| true)) == (n, n, false),
    decreases n,
{
    if n > 0 {
        let s = Seq::new(n, |i: int| true);
        let t = Seq::new((n - 1) as nat, |i: int| true);
        law_all_answering_chips_found((n - 1) as nat);
        assert(s.drop_last() =~= t);
    }
}


/// A scan counts only chips it probed, probes no more chips than there are
/// answers and never more than `MAX_CHIPS`, and once stopped stays stopped.
pub proof fn law_scan_counts_within_probed(answers: Seq<bool>)
    ensures
        scan(answers).0 <= scan(answers).1,
        scan(answers).1 <= answers.len(),
        scan(answers).1 <= MAX_CHIPS,
        scan(answers).2 ==> scan(answers.push(false)) == scan(answers) && scan(answers.push(true)) == scan(answers),
    decreases answers.len(),
{
    if answers.len() > 0 {
        law_scan_counts_within_probed(answers.drop_last());
    }
    assert(answers.push(false).drop_last() =~= answers);
    assert(answers.push(true).drop_last() =~= answers);
}

} // verus!
