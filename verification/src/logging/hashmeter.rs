//! The hash rate meter's record keeping: the latest readings, kept to a
//! bounded number, and the readings a statistic over a time window is taken
//! from. Hash rates are bit patterns of double-precision values; times are
//! milliseconds since the Unix epoch.

use vstd::prelude::*;
use crate::monitoring::history::bounded_push;

verus! {

/// The most readings the meter keeps.
pub const HASHRATE_HISTORY_LIMIT: usize = 1000;

/// One hash rate reading.
#[derive(Debug, Clone, Copy, PartialEq, Eq)]
pub struct HashRateRecord {
    pub timestamp: u64,
    pub hashrate_bits: u64,
    pub device_id: Option<u32>,
    pub pool_id: Option<u32>,
}

/// The earliest time a statistic over the last `window_ms` milliseconds
/// covers at time `now`: the epoch for all time, or when the window reaches
/// back past it.
pub fn cutoff_for(now: u64, window_ms: Option<u64>) -> (r: u64)
    ensures
        r == match window_ms {
            None => 0,
            Some(d) => if d <= now { (now - d) as u64 } else { 0 },
        },
{
    match window_ms {
        None => 0,
        Some(d) => if d <= now { now - d } else { 0 },
    }
}

/// Whether reading `r` counts for a statistic from `cutoff` on, over the
/// device `device` or over all readings.
pub open spec fn counts_for(r: HashRateRecord, cutoff: u64, device: Option<u32>) -> bool {
    r.timestamp >= cutoff && match device {
        None => true,
        Some(d) => r.device_id == Some(d),
    }
}

/// The readings of `rs` that count from `cutoff` on, in order.
pub open spec fn selected(rs: Seq<HashRateRecord>, cutoff: u64, device: Option<u32>) -> Seq<HashRateRecord>
    decreases rs.len(),
{
    if rs.len() == 0 {
        rs
    } else if counts_for(rs.last(), cutoff, device) {
        selected(rs.drop_last(), cutoff, device).push(rs.last())
    } else {
        selected(rs.drop_last(), cutoff, device)
    }
}

/// Milliseconds from the first to the last of `rs`; zero when there are
/// fewer than two or the last comes first.
pub fn span_ms(rs: &Vec<HashRateRecord>) -> (r: u64)
    ensures
        r == (if rs@.len() == 0 || rs@.last().timestamp < rs@[0].timestamp {
            0
        } else {
            (rs@.last().timestamp - rs@[0].timestamp) as u64
        }),
{
    let n = rs.len();
    if n == 0 {
        return 0;
    }
    let first = rs[0].timestamp;
    let last = rs[n - 1].timestamp;
    if last < first { 0 } else { last - first }
}

/// The meter's readings, oldest first.
pub struct HashRateLog {
    records: Vec<HashRateRecord>,
}

impl HashRateLog {
    /// The readings kept, oldest first.
    pub closed spec fn records(&self) -> Seq<HashRateRecord> {
        self.records@
    }

    /// No more than `HASHRATE_HISTORY_LIMIT` readings.
    pub open spec fn well_formed(&self) -> bool {
        self.records().len() <= HASHRATE_HISTORY_LIMIT
    }

    /// No readings.
    pub fn new() -> (r: Self)
        ensures
            r.well_formed(),
            r.records() == Seq::<HashRateRecord>::empty(),
    {
        HashRateLog { records: Vec::new() }
    }

    /// Records a reading of `hashrate_bits` taken at `now`; past the limit the
    /// oldest reading is dropped.
    pub fn record_hashrate_at(&mut self, hashrate_bits: u64, device_id: Option<u32>, pool_id: Option<u32>, now: u64)
        requires
            old(self).well_formed(),
        ensures
            final(self).well_formed(),
            final(self).records() == bounded_push(
                old(self).records(),
                HashRateRecord { timestamp: now, hashrate_bits, device_id, pool_id },
                HASHRATE_HISTORY_LIMIT as nat,
            ),
    {
        let ghost before = self.records();
        let record = HashRateRecord { timestamp: now, hashrate_bits, device_id, pool_id };
        self.records.push(record);
        if self.records.len() > HASHRATE_HISTORY_LIMIT {
            self.records.remove(0);
        }
        assert(self.records() =~= bounded_push(before, record, HASHRATE_HISTORY_LIMIT as nat));
    }

    /// The latest reading, if any.
    pub fn latest(&self) -> (r: Option<HashRateRecord>)
        ensures
            self.records().len() == 0 ==> r is None,
            self.records().len() > 0 ==> r == Some(self.records().last()),
    {
        let n = self.records.len();
        if n == 0 { None } else { Some(self.records[n - 1]) }
    }

    /// The readings from `cutoff` on, of device `device` or of all devices,
    /// oldest first.
    pub fn readings_since(&self, cutoff: u64, device: Option<u32>) -> (r: Vec<HashRateRecord>)
        ensures
            r@ == selected(self.records(), cutoff, device),
    {
        let mut r: Vec<HashRateRecord> = Vec::new();
        let mut i: usize = 0;
        while i < self.records.len()
            invariant
                i <= self.records@.len(),
                r@ == selected(self.records@.subrange(0, i as int), cutoff, device),
            decreases self.records@.len() - i,
        {
            let x = self.records[i];
            proof {
                assert(self.records@.subrange(0, i + 1).drop_last() =~= self.records@.subrange(0, i as int));
                assert(self.records@.subrange(0, i + 1).last() == x);
            }
            let counts = x.timestamp >= cutoff && match device {
                None => true,
                Some(d) => match x.device_id {
                    Some(e) => e == d,
                    None => false,
                },
            };
            if counts {
                r.push(x);
            }
            i = i + 1;
        }
        assert(self.records@.subrange(0, i as int) =~= self.records@);
        r
    }

    /// Drops every reading.
    pub fn clear_history(&mut self)
        ensures
            final(self).well_formed(),
            final(self).records() == Seq::<HashRateRecord>::empty(),
    {
        self.records.clear();
    }
}

/// The readings a statistic is taken from are readings the meter keeps, each
/// taken no earlier than the cutoff, and never more than the meter keeps.
pub proof fn law_selected_readings_are_kept(rs: Seq<HashRateRecord>, cutoff: u64, device: Option<u32>)
    ensures
        selected(rs, cutoff, device).len() <= rs.len(),
        forall|i: int| 0 <= i < selected(rs, cutoff, device).len()
            ==> #[trigger] selected(rs, cutoff, device)[i].timestamp >= cutoff
            && rs.contains(selected(rs, cutoff, device)[i]),
    decreases rs.len(),
{
    if rs.len() > 0 {
        let init = rs.drop_last();
        law_selected_readings_are_kept(init, cutoff, device);
        let s = selected(rs, cutoff, device);
        let si = selected(init, cutoff, device);
        assert forall|i: int| 0 <= i < s.len() implies #[trigger] s[i].timestamp >= cutoff && rs.contains(s[i]) by {
            if counts_for(rs.last(), cutoff, device) && i == s.len() - 1 {
                assert(s[i] == rs.last());
                assert(rs[rs.len() - 1] == rs.last());
            } else {
                assert(s[i] == si[i]);
                assert(si[i].timestamp >= cutoff);
                assert(init.contains(si[i]));
                let k = choose|k: int| 0 <= k < init.len() && init[k] == si[i];
                assert(rs[k] == init[k]);
            }
        }
    }
}

} // verus!
