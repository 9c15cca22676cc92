//! Rendering of numbers, durations, latencies, separators and table rows.

use vstd::prelude::*;
use vstd::string::StringSliceAdditionalSpecFns;
use vstd::string::StrSliceExecFns;
use crate::logging::LogLevel;
use crate::text::str_equal;

verus! {

/// The character of a hexadecimal digit, lower case.
pub open spec fn hex_char(d: nat) -> char {
    if d < 10 {
        (('0' as nat) + d) as char
    } else {
        (('a' as nat) + (d - 10)) as char
    }
}

/// The decimal notation of `n`, without leading zeros ("0" for zero).
pub open spec fn decimal(n: nat) -> Seq<char>
    decreases n,
{
    if n < 10 {
        seq![hex_char(n)]
    } else {
        decimal(n / 10).push(hex_char(n % 10))
    }
}

/// The last `width` hexadecimal digits of `n`, most significant first,
/// padded with zeros.
pub open spec fn hex_fixed(n: nat, width: nat) -> Seq<char>
    decreases width,
{
    if width == 0 {
        Seq::empty()
    } else {
        hex_fixed(n / 16, (width - 1) as nat).push(hex_char(n % 16))
    }
}

/// The one-character string of a hexadecimal digit.
pub fn digit_str(d: u8) -> (s: &'static str)
    requires
        d < 16,
    ensures
        s@ == seq![hex_char(d as nat)],
{
    proof {
        reveal_strlit("0"); reveal_strlit("1"); reveal_strlit("2"); reveal_strlit("3");
        reveal_strlit("4"); reveal_strlit("5"); reveal_strlit("6"); reveal_strlit("7");
        reveal_strlit("8"); reveal_strlit("9"); reveal_strlit("a"); reveal_strlit("b");
        reveal_strlit("c"); reveal_strlit("d"); reveal_strlit("e"); reveal_strlit("f");
    }
    match d {
        0 => "0", 1 => "1", 2 => "2", 3 => "3", 4 => "4", 5 => "5", 6 => "6", 7 => "7",
        8 => "8", 9 => "9", 10 => "a", 11 => "b", 12 => "c", 13 => "d", 14 => "e", _ => "f",
    }
}

/// Appends the decimal notation of `n` to `out`.
pub fn push_decimal(out: &mut String, n: u64)
    ensures
        final(out)@ == old(out)@ + decimal(n as nat),
    decreases n,
{
    if n < 10 {
        out.append(digit_str(n as u8));
    } else {
        push_decimal(out, n / 10);
        out.append(digit_str((n % 10) as u8));
        proof {
            assert(decimal(n as nat) == decimal((n / 10) as nat).push(hex_char((n % 10) as nat)));
        }
    }
}

/// The decimal notation of `n`.
pub fn decimal_string(n: u64) -> (s: String)
    ensures
        s@ == decimal(n as nat),
{
    let mut s = String::new();
    push_decimal(&mut s, n);
    s
}


/// `s` repeated `n` times.
pub open spec fn repeat_seq(s: Seq<char>, n: nat) -> Seq<char>
    decreases n,
{
    if n == 0 {
        Seq::empty()
    } else {
        repeat_seq(s, (n - 1) as nat) + s
    }
}

/// Appends `piece` to `out` `n` times.
pub fn push_repeat(out: &mut String, piece: &str, n: usize)
    ensures
        final(out)@ == old(out)@ + repeat_seq(piece@, n as nat),
{
    let mut i: usize = 0;
    while i < n
        invariant
            i <= n,
            out@ == old(out)@ + repeat_seq(piece@, i as nat),
        decreases n - i,
    {
        out.append(piece);
        proof {
            assert(repeat_seq(piece@, (i + 1) as nat) == repeat_seq(piece@, i as nat) + piece@);
        }
        i = i + 1;
    }
}

/// The text of a duration of `total_seconds` seconds: days, hours, minutes
/// and seconds, leaving out the leading units that are zero.
pub open spec fn duration_text(total_seconds: nat) -> Seq<char> {
    let days = total_seconds / 86400;
    let hours = (total_seconds % 86400) / 3600;
    let minutes = (total_seconds % 3600) / 60;
    let seconds = total_seconds % 60;
    if days > 0 {
        "⏱️ "@ + decimal(days) + "d "@ + decimal(hours) + "h "@ + decimal(minutes) + "m "@
            + decimal(seconds) + "s"@
    } else if hours > 0 {
        "⏱️ "@ + decimal(hours) + "h "@ + decimal(minutes) + "m "@ + decimal(seconds) + "s"@
    } else if minutes > 0 {
        "⏱️ "@ + decimal(minutes) + "m "@ + decimal(seconds) + "s"@
    } else {
        "⏱️ "@ + decimal(seconds) + "s"@
    }
}

/// Formats a duration given in whole seconds.
pub fn format_duration_secs(total_seconds: u64) -> (s: String)
    ensures
        s@ == duration_text(total_seconds as nat),
{
    let days = total_seconds / 86400;
    let hours = (total_seconds % 86400) / 3600;
    let minutes = (total_seconds % 3600) / 60;
    let seconds = total_seconds % 60;
    let mut s = String::from_str("⏱️ ");
    if days > 0 {
        push_decimal(&mut s, days);
        s.append("d ");
        push_decimal(&mut s, hours);
        s.append("h ");
        push_decimal(&mut s, minutes);
        s.append("m ");
    } else if hours > 0 {
        push_decimal(&mut s, hours);
        s.append("h ");
        push_decimal(&mut s, minutes);
        s.append("m ");
    } else if minutes > 0 {
        push_decimal(&mut s, minutes);
        s.append("m ");
    }
    push_decimal(&mut s, seconds);
    s.append("s");
    proof {
        assert(s@ == duration_text(total_seconds as nat));
    }
    s
}

/// The colour escape of a latency: red above one second, yellow above half a
/// second, green otherwise.
pub open spec fn latency_color(ms: nat) -> Seq<char> {
    if ms > 1000 {
        "\x1b[31m"@
    } else if ms > 500 {
        "\x1b[33m"@
    } else {
        "\x1b[32m"@
    }
}

/// Formats a latency in milliseconds, coloured by its size.
pub fn format_latency(ms: u32) -> (s: String)
    ensures
        s@ == latency_color(ms as nat) + "🕐 "@ + decimal(ms as nat) + " ms\x1b[0m"@,
{
    let color = if ms > 1000 {
        "\x1b[31m"
    } else if ms > 500 {
        "\x1b[33m"
    } else {
        "\x1b[32m"
    };
    let mut s = String::from_str(color);
    s.append("🕐 ");
    push_decimal(&mut s, ms as u64);
    s.append(" ms\x1b[0m");
    s
}

/// Formats an online flag.
pub fn format_status(online: bool) -> (s: String)
    ensures
        s@ == (if online { "🟢 在线"@ } else { "🔴 离线"@ }),
{
    if online {
        String::from_str("🟢 在线")
    } else {
        String::from_str("🔴 离线")
    }
}


/// The number of bytes in the UTF-8 encoding of `s`.
pub open spec fn byte_len(s: &str) -> nat {
    s.spec_bytes().len()
}

/// The left padding of a separator line of `width` around a title of
/// `title_len` bytes: half of what is left after the title and its frame.
pub open spec fn separator_padding(title_len: nat, width: nat) -> nat {
    if width > title_len + 4 {
        ((width - title_len - 4) / 2) as nat
    } else {
        0
    }
}

/// A separator line `╔═…═╡ title ╞═…═╗` whose `═` runs fill `width`
/// columns counted in bytes of the title.
pub open spec fn separator_text(title: Seq<char>, title_len: nat, width: nat) -> Seq<char> {
    let left = separator_padding(title_len, width);
    let right = (width - title_len - 4 - left) as nat;
    "╔"@ + repeat_seq("═"@, left) + "╡ "@ + title + " ╞"@ + repeat_seq("═"@, right) + "╗"@
}

/// Creates a separator line around `title`.
///
/// The width must leave room for the title and its four framing characters.
pub fn create_separator(title: &str, width: usize) -> (s: String)
    requires
        width >= byte_len(title) + 4,
    ensures
        s@ == separator_text(title@, byte_len(title), width as nat),
{
    let title_len = title.len();
    let padding = if width > title_len + 4 {
        (width - title_len - 4) / 2
    } else {
        0
    };
    let mut s = String::from_str("╔");
    push_repeat(&mut s, "═", padding);
    s.append("╡ ");
    s.append(title);
    s.append(" ╞");
    push_repeat(&mut s, "═", width - title_len - 4 - padding);
    s.append("╗");
    s
}

/// `column` left aligned in a field of `width` characters.
pub open spec fn pad_right(column: Seq<char>, width: nat) -> Seq<char> {
    if column.len() < width {
        column + repeat_seq(" "@, (width - column.len()) as nat)
    } else {
        column
    }
}

/// The cells of a table row from its first `n` columns: each column padded to
/// its width less two and framed by spaces, cells divided by `│`.
pub open spec fn table_cells(columns: Seq<Seq<char>>, widths: Seq<usize>, n: nat) -> Seq<char>
    decreases n,
{
    if n == 0 {
        Seq::empty()
    } else {
        let i = (n - 1) as int;
        table_cells(columns, widths, (n - 1) as nat) + (if i > 0 { "│"@ } else { Seq::empty() })
            + " "@ + pad_right(columns[i], (widths[i] - 2) as nat) + " "@
    }
}

/// The number of cells of a row: columns and widths are paired up to the
/// shorter of the two lists.
pub open spec fn row_len(columns: Seq<&str>, widths: Seq<usize>) -> nat {
    if columns.len() < widths.len() {
        columns.len()
    } else {
        widths.len()
    }
}

/// The views of a list of string slices.
pub open spec fn str_views(columns: Seq<&str>) -> Seq<Seq<char>> {
    columns.map_values(|c: &str| c@)
}

/// Creates a table row `║ a │ b ║`.
///
/// Every width used must be at least two, the room of the framing spaces.
pub fn create_table_row(columns: &[&str], widths: &[usize]) -> (s: String)
    requires
        forall|i: int| 0 <= i < row_len(columns@, widths@) ==> widths@[i] >= 2,
    ensures
        s@ == "║"@ + table_cells(str_views(columns@), widths@, row_len(columns@, widths@)) + "║"@,
{
    let n = if columns.len() < widths.len() { columns.len() } else { widths.len() };
    let mut row = String::from_str("║");
    let mut i: usize = 0;
    while i < n
        invariant
            i <= n,
            n == row_len(columns@, widths@),
            n <= columns@.len(),
            n <= widths@.len(),
            forall|j: int| 0 <= j < row_len(columns@, widths@) ==> widths@[j] >= 2,
            row@ == "║"@ + table_cells(str_views(columns@), widths@, i as nat),
        decreases n - i,
    {
        let ghost before = row@;
        if i > 0 {
            row.append("│");
        }
        row.append(" ");
        let column = columns[i];
        let field = widths[i] - 2;
        row.append(column);
        let chars = column.unicode_len();
        if chars < field {
            push_repeat(&mut row, " ", field - chars);
        }
        row.append(" ");
        proof {
            assert(str_views(columns@)[i as int] == column@);
            let cell = (if i > 0 { "│"@ } else { Seq::<char>::empty() }) + " "@
                + pad_right(column@, field as nat) + " "@;
            assert(row@ == before + cell);
            assert(table_cells(str_views(columns@), widths@, (i + 1) as nat)
                == table_cells(str_views(columns@), widths@, i as nat) + cell);
        }
        i = i + 1;
    }
    row.append("║");
    row
}

} // verus!

verus! {

/// The whole seconds of a duration, as `Duration::as_secs` gives them.
pub uninterp spec fn duration_whole_secs(d: std::time::Duration) -> u64;

/// `Duration::as_secs` of std: the whole seconds of `d`.
#[verifier::external_body]
fn whole_secs(d: std::time::Duration) -> (s: u64)
    ensures
        s == duration_whole_secs(d),
{
    d.as_secs()
}

/// Formats a duration by its whole seconds.
pub fn format_duration(duration: std::time::Duration) -> (s: String)
    ensures
        s@ == duration_text(duration_whole_secs(duration) as nat),
{
    format_duration_secs(whole_secs(duration))
}

/// `s` in upper case, as `str::to_uppercase` gives it.
pub uninterp spec fn upper_case(s: Seq<char>) -> Seq<char>;

/// `str::to_uppercase` of std: `s` in upper case.
#[verifier::external_body]
fn to_upper(s: &str) -> (r: String)
    ensures
        r@ == upper_case(s@),
{
    s.to_uppercase()
}

/// The formatter of the detailed console lines.
pub struct MiningFormatter {
    colored: bool,
}

impl MiningFormatter {
    /// Whether lines are coloured.
    pub closed spec fn is_colored(&self) -> bool {
        self.colored
    }

    /// A formatter, coloured or not.
    pub fn new(colored: bool) -> (r: Self)
        ensures
            r.is_colored() == colored,
    {
        MiningFormatter { colored }
    }

    /// The text before the message of a line: grey time stamp, level in
    /// brackets, icon and upper-case target.
    pub fn line_prefix(&self, timestamp: &str, level: LogLevel, target: &str) -> (r: String)
        ensures
            r@ == mining_prefix_text(timestamp@, level, target@, self.is_colored()),
    {
        let colored = self.colored;
        let gray = if colored { "\x1b[90m" } else { "" };
        let mut s = String::from_str(gray);
        s.append(timestamp);
        s.append(reset_code(colored));
        s.append(" ");
        s.append(level_color_code(level, colored));
        s.append("[");
        s.append(padded_level_name(level));
        s.append("]");
        s.append(reset_code(colored));
        s.append(" ");
        let (icon, color) = target_style(target, colored);
        s.append(color);
        s.append(icon);
        s.append(" ");
        let upper = to_upper(target);
        s.append(upper.as_str());
        s.append(reset_code(colored));
        s.append(" ");
        s
    }
}

/// The formatter of the short, cgminer-like console lines.
pub struct CgminerFormatter {
    colored: bool,
}

impl CgminerFormatter {
    /// Whether lines are coloured.
    pub closed spec fn is_colored(&self) -> bool {
        self.colored
    }

    /// A formatter, coloured or not.
    pub fn new(colored: bool) -> (r: Self)
        ensures
            r.is_colored() == colored,
    {
        CgminerFormatter { colored }
    }

    /// The text before the message of a line: `[time] level `.
    pub fn line_prefix(&self, timestamp: &str, level: LogLevel) -> (r: String)
        ensures
            r@ == "["@ + timestamp@ + "] "@ + level_color_text(level, self.is_colored())
                + short_level_text(level) + reset_text(self.is_colored()) + " "@,
    {
        let colored = self.colored;
        let mut s = String::from_str("[");
        s.append(timestamp);
        s.append("] ");
        s.append(level_color_code(level, colored));
        s.append(short_level_name(level));
        s.append(reset_code(colored));
        s.append(" ");
        s
    }
}

/// The escape that ends colouring, when lines are coloured.
pub open spec fn reset_text(colored: bool) -> Seq<char> {
    if colored { "\x1b[0m"@ } else { ""@ }
}

fn reset_code(colored: bool) -> (r: &'static str)
    ensures
        r@ == reset_text(colored),
{
    if colored { "\x1b[0m" } else { "" }
}

/// The colour escape of a level, when lines are coloured.
pub open spec fn level_color_text(level: LogLevel, colored: bool) -> Seq<char> {
    if !colored {
        ""@
    } else {
        match level {
            LogLevel::Error => "\x1b[31m"@,
            LogLevel::Warn => "\x1b[33m"@,
            LogLevel::Info => "\x1b[32m"@,
            LogLevel::Debug => "\x1b[36m"@,
            LogLevel::Trace => "\x1b[37m"@,
        }
    }
}

fn level_color_code(level: LogLevel, colored: bool) -> (r: &'static str)
    ensures
        r@ == level_color_text(level, colored),
{
    if !colored {
        ""
    } else {
        match level {
            LogLevel::Error => "\x1b[31m",
            LogLevel::Warn => "\x1b[33m",
            LogLevel::Info => "\x1b[32m",
            LogLevel::Debug => "\x1b[36m",
            LogLevel::Trace => "\x1b[37m",
        }
    }
}

/// The three-letter tag of a level; info lines carry blanks.
pub open spec fn short_level_text(level: LogLevel) -> Seq<char> {
    match level {
        LogLevel::Error => "ERR"@,
        LogLevel::Warn => "WRN"@,
        LogLevel::Info => "   "@,
        LogLevel::Debug => "DBG"@,
        LogLevel::Trace => "TRC"@,
    }
}

fn short_level_name(level: LogLevel) -> (r: &'static str)
    ensures
        r@ == short_level_text(level),
{
    match level {
        LogLevel::Error => "ERR",
        LogLevel::Warn => "WRN",
        LogLevel::Info => "   ",
        LogLevel::Debug => "DBG",
        LogLevel::Trace => "TRC",
    }
}

/// The name of a level, right aligned in five columns.
pub open spec fn padded_level_text(level: LogLevel) -> Seq<char> {
    match level {
        LogLevel::Error => "ERROR"@,
        LogLevel::Warn => " WARN"@,
        LogLevel::Info => " INFO"@,
        LogLevel::Debug => "DEBUG"@,
        LogLevel::Trace => "TRACE"@,
    }
}

fn padded_level_name(level: LogLevel) -> (r: &'static str)
    ensures
        r@ == padded_level_text(level),
{
    match level {
        LogLevel::Error => "ERROR",
        LogLevel::Warn => " WARN",
        LogLevel::Info => " INFO",
        LogLevel::Debug => "DEBUG",
        LogLevel::Trace => "TRACE",
    }
}

/// The icon of a log target.
pub open spec fn target_icon(target: Seq<char>) -> Seq<char> {
    if target == "mining"@ {
        "⛏️"@
    } else if target == "device"@ {
        "🔧"@
    } else if target == "pool"@ {
        "🌊"@
    } else if target == "system"@ {
        "🖥️"@
    } else if target == "monitoring"@ {
        "📊"@
    } else {
        "📝"@
    }
}

/// The colour escape of a log target, when lines are coloured.
pub open spec fn target_color(target: Seq<char>, colored: bool) -> Seq<char> {
    if !colored {
        ""@
    } else if target == "mining"@ {
        "\x1b[32m"@
    } else if target == "device"@ {
        "\x1b[34m"@
    } else if target == "pool"@ {
        "\x1b[36m"@
    } else if target == "system"@ {
        "\x1b[35m"@
    } else if target == "monitoring"@ {
        "\x1b[33m"@
    } else {
        "\x1b[37m"@
    }
}

/// The icon and colour escape of a log target.
pub fn target_style(target: &str, colored: bool) -> (r: (&'static str, &'static str))
    ensures
        r.0@ == target_icon(target@),
        r.1@ == target_color(target@, colored),
{
    let (icon, color) = if str_equal(target, "mining") {
        ("⛏️", "\x1b[32m")
    } else if str_equal(target, "device") {
        ("🔧", "\x1b[34m")
    } else if str_equal(target, "pool") {
        ("🌊", "\x1b[36m")
    } else if str_equal(target, "system") {
        ("🖥️", "\x1b[35m")
    } else if str_equal(target, "monitoring") {
        ("📊", "\x1b[33m")
    } else {
        ("📝", "\x1b[37m")
    };
    if colored { (icon, color) } else { (icon, "") }
}

/// The text before the message of a detailed console line.
pub open spec fn mining_prefix_text(timestamp: Seq<char>, level: LogLevel, target: Seq<char>, colored: bool) -> Seq<char> {
    (if colored { "\x1b[90m"@ } else { ""@ }) + timestamp + reset_text(colored) + " "@
        + level_color_text(level, colored) + "["@ + padded_level_text(level) + "]"@
        + reset_text(colored) + " "@ + target_color(target, colored) + target_icon(target) + " "@
        + upper_case(target) + reset_text(colored) + " "@
}

} // verus!

verus! {

/// Appends the decimal notation of `n` to `out`.
pub fn push_decimal_wide(out: &mut String, n: u128)
    ensures
        final(out)@ == old(out)@ + decimal(n as nat),
    decreases n,
{
    if n < 10 {
        out.append(digit_str(n as u8));
    } else {
        push_decimal_wide(out, n / 10);
        out.append(digit_str((n % 10) as u8));
        proof {
            assert(decimal(n as nat) == decimal((n / 10) as nat).push(hex_char((n % 10) as nat)));
        }
    }
}

/// Two to the power `n`.
pub open spec fn two_pow(n: nat) -> nat
    decreases n,
{
    if n == 0 { 1 } else { 2 * two_pow((n - 1) as nat) }
}

/// 1024 to the power `n`.
pub open spec fn kib_pow(n: nat) -> nat
    decreases n,
{
    if n == 0 { 1 } else { 1024 * kib_pow((n - 1) as nat) }
}

/// The number of low bits a double-precision value drops from `b`: none
/// below 2^53, one more for each halving needed to get there.
pub open spec fn dropped_bits(b: nat) -> nat
    decreases b,
{
    if b < 0x20_0000_0000_0000 { 0 } else { 1 + dropped_bits(b / 2) }
}

/// The value of `b` converted to a double: exact below 2^53, otherwise
/// rounded to the nearest multiple of the dropped power of two, ties to the
/// even multiple.
pub open spec fn as_double(b: nat) -> nat {
    let p = two_pow(dropped_bits(b));
    let q = b / p;
    let r = b % p;
    if p > 1 && (r > p / 2 || (r == p / 2 && q % 2 == 1)) { (q + 1) * p } else { q * p }
}

/// The unit a size is shown in: divided by 1024 while it is at least 1024,
/// at most `max` times.
pub open spec fn unit_from(v: nat, k: nat, max: nat) -> nat
    decreases max - k,
{
    if k < max && v >= kib_pow(k + 1) { unit_from(v, k + 1, max) } else { k }
}

/// `v / d` in hundredths, rounded to the nearest, ties to even.
pub open spec fn hundredths(v: nat, d: nat) -> nat {
    let q = (v * 100) / d;
    let r = (v * 100) % d;
    if 2 * r > d || (2 * r == d && q % 2 == 1) { q + 1 } else { q }
}

/// A count of hundredths written with two decimals.
pub open spec fn two_decimals(h: nat) -> Seq<char> {
    decimal(h / 100) + "."@ + seq![hex_char((h % 100) / 10), hex_char(h % 10)]
}

/// The name of the `k`-th memory unit.
pub open spec fn memory_unit(k: nat) -> Seq<char> {
    if k == 0 { "B"@ } else if k == 1 { "KB"@ } else if k == 2 { "MB"@ } else if k == 3 { "GB"@ } else { "TB"@ }
}

/// The name of the `k`-th traffic unit.
pub open spec fn traffic_unit(k: nat) -> Seq<char> {
    if k == 0 { "B/s"@ } else if k == 1 { "KB/s"@ } else if k == 2 { "MB/s"@ } else { "GB/s"@ }
}

/// The size shown for `bytes`, in hundredths of its unit, and the unit.
pub open spec fn scaled(bytes: nat, max: nat) -> (nat, nat) {
    let v = as_double(bytes);
    let k = unit_from(v, 0, max);
    (hundredths(v, kib_pow(k)), k)
}

/// The text of a memory size.
pub open spec fn memory_text(bytes: nat) -> Seq<char> {
    "💾 "@ + two_decimals(scaled(bytes, 4).0) + " "@ + memory_unit(scaled(bytes, 4).1)
}

/// The text of a traffic rate.
pub open spec fn traffic_text(bytes: nat) -> Seq<char> {
    "🌐 "@ + two_decimals(scaled(bytes, 3).0) + " "@ + traffic_unit(scaled(bytes, 3).1)
}

/// `b` converted to a double, as an integer.
fn double_value(b: u64) -> (v: u128)
    ensures
        v == as_double(b as nat),
        v <= 0x1_0000_0000_0000_0000u128 + 0x1000,
{
    let mut t: u64 = b;
    let mut p: u128 = 1;
    let ghost mut s: nat = 0;
    while t >= 0x20_0000_0000_0000
        invariant
            dropped_bits(b as nat) == s + dropped_bits(t as nat),
            p == two_pow(s),
            p * (t as nat) <= b,
            1 <= p <= 0x1000,
        decreases t,
    {
        assert(p * (t as nat) >= p * 0x20_0000_0000_0000) by (nonlinear_arith)
            requires t >= 0x20_0000_0000_0000, p >= 1;
        assert(p < 0x800);
        assert((p * 2) * ((t / 2) as nat) <= p * (t as nat)) by (nonlinear_arith)
            requires p >= 1;
        t = t / 2;
        p = p * 2;
        proof {
            s = s + 1;
        }
    }
    let q: u128 = (b as u128) / p;
    let r: u128 = (b as u128) % p;
    proof {
        vstd::arithmetic::div_mod::lemma_fundamental_div_mod(b as int, p as int);
        assert(q * p <= b) by (nonlinear_arith) requires b == p * q + r, r >= 0;
        assert((q + 1) * p == q * p + p) by (nonlinear_arith);
    }
    if p > 1 && (r > p / 2 || (r == p / 2 && q % 2 == 1)) {
        (q + 1) * p
    } else {
        q * p
    }
}

/// A size in hundredths of its unit, and the unit: divided by 1024 while at
/// least 1024, at most `max` times.
fn scale_bytes(bytes: u64, max: u32) -> (r: (u128, u32))
    requires
        max <= 4,
    ensures
        r.0 == scaled(bytes as nat, max as nat).0,
        r.1 == scaled(bytes as nat, max as nat).1,
{
    let v = double_value(bytes);
    let mut k: u32 = 0;
    let mut d: u128 = 1;
    while k < max && v >= d * 1024
        invariant
            k <= max,
            max <= 4,
            d == kib_pow(k as nat),
            d <= 0x100_0000_0000,
            unit_from(v as nat, 0, max as nat) == unit_from(v as nat, k as nat, max as nat),
        decreases max - k,
    {
        assert(d * 1024 <= 0x100_0000_0000) by {
            assert(kib_pow((k + 1) as nat) == 1024 * kib_pow(k as nat));
            lemma_kib_pow_bound((k + 1) as nat);
        }
        d = d * 1024;
        k = k + 1;
    }
    assert(d >= 1) by {
        lemma_kib_pow_positive(k as nat);
    }
    let n = v * 100;
    let q = n / d;
    let rem = n % d;
    let h = if 2 * rem > d || (2 * rem == d && q % 2 == 1) { q + 1 } else { q };
    (h, k)
}

/// Powers of 1024 up to the fourth stay within 2^40.
proof fn lemma_kib_pow_bound(n: nat)
    requires
        n <= 4,
    ensures
        kib_pow(n) <= 0x100_0000_0000,
{
    reveal_with_fuel(kib_pow, 5);
}

/// Powers of 1024 are positive.
proof fn lemma_kib_pow_positive(n: nat)
    ensures
        kib_pow(n) >= 1,
    decreases n,
{
    if n > 0 {
        lemma_kib_pow_positive((n - 1) as nat);
    }
}

/// Appends a count of hundredths with two decimals.
fn push_two_decimals(out: &mut String, h: u128)
    ensures
        final(out)@ == old(out)@ + two_decimals(h as nat),
{
    push_decimal_wide(out, h / 100);
    out.append(".");
    out.append(digit_str(((h % 100) / 10) as u8));
    out.append(digit_str((h % 10) as u8));
    assert(final(out)@ =~= old(out)@ + two_decimals(h as nat)) by {
        reveal_strlit(".");
    }
}

/// Formats a memory size, in the largest unit up to TB that keeps the value
/// at least one, with two decimals.
pub fn format_memory(bytes: u64) -> (s: String)
    ensures
        s@ == memory_text(bytes as nat),
{
    let (h, k) = scale_bytes(bytes, 4);
    let mut s = String::from_str("💾 ");
    push_two_decimals(&mut s, h);
    s.append(" ");
    let unit = if k == 0 { "B" } else if k == 1 { "KB" } else if k == 2 { "MB" } else if k == 3 { "GB" } else { "TB" };
    s.append(unit);
    s
}

/// Formats a traffic rate, in the largest unit up to GB/s that keeps the
/// value at least one, with two decimals.
pub fn format_network_traffic(bytes: u64) -> (s: String)
    ensures
        s@ == traffic_text(bytes as nat),
{
    let (h, k) = scale_bytes(bytes, 3);
    let mut s = String::from_str("🌐 ");
    push_two_decimals(&mut s, h);
    s.append(" ");
    let unit = if k == 0 { "B/s" } else if k == 1 { "KB/s" } else if k == 2 { "MB/s" } else { "GB/s" };
    s.append(unit);
    s
}


/// The unit search stops at the largest unit that the value reaches.
proof fn lemma_unit_from(v: nat, k: nat, max: nat)
    requires
        k <= max,
        k == 0 || v >= kib_pow(k),
    ensures
        k <= unit_from(v, k, max) <= max,
        unit_from(v, k, max) == 0 || v >= kib_pow(unit_from(v, k, max)),
        unit_from(v, k, max) == max || v < kib_pow(unit_from(v, k, max) + 1),
    decreases max - k,
{
    if k < max && v >= kib_pow(k + 1) {
        lemma_unit_from(v, k + 1, max);
    }
}

/// A memory size is shown in the largest unit up to TB that the value
/// reaches: at least one of that unit, and below 1024 of it unless the unit
/// is TB.
pub proof fn law_memory_unit_fits(bytes: u64)
    ensures
        ({
            let v = as_double(bytes as nat);
            let k = scaled(bytes as nat, 4).1;
            &&& k <= 4
            &&& (k == 0 || v >= kib_pow(k))
            &&& (k == 4 || v < kib_pow(k + 1))
        }),
{
    lemma_unit_from(as_double(bytes as nat), 0, 4);
}
} // verus!
