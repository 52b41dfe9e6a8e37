//! The log-line format a pool's default logger writes: a prefix, an optional
//! date and time, and the message, ended by exactly one newline.

use std::sync::Arc;
use vstd::prelude::*;
use vstd::string::StringExecFns;
use vstd::string::StrSliceExecFns;

use chrono::{Datelike, Timelike};

use crate::deps::gotime::{now_unix_nano, NANOS_PER_SEC};

verus! {

/// Prefix each line with the date, `2009/01/23`.
pub const LDATE: u32 = 1;

/// Prefix each line with the time, `01:23:23`.
pub const LTIME: u32 = 2;

/// Give the time microsecond resolution, `01:23:23.123123`. Assumes [`LTIME`].
pub const LMICROSECONDS: u32 = 4;

/// Report the time in UTC rather than in the local time zone.
pub const LUTC: u32 = 32;

/// Move the prefix from the start of the line to just before the message.
pub const LMSGPREFIX: u32 = 64;

/// The initial values for the standard logger: [`LDATE`] and [`LTIME`].
pub const LSTD_FLAGS: u32 = 3;

/// Used for logging formatted messages: the caller formats, and the logger
/// renders the header and writes the line.
pub trait Logger: Send + Sync {
    /// Writes one already-formatted message.
    fn printf(&self, message: &str);
}

/// A shared handle to a logger, as a pool keeps it.
pub struct SharedLogger {
    /// The logger.
    pub inner: Arc<dyn Logger>,
}

impl SharedLogger {
    /// Writes one already-formatted message through the logger.
    pub fn printf(&self, message: &str) {
        self.inner.printf(message);
    }
}

/// Returns another handle to the same logger, through `Arc::clone`.
#[verifier::external_body]
fn share_logger(l: &SharedLogger) -> (r: SharedLogger)
    ensures
        r == *l,
{
    SharedLogger { inner: Arc::clone(&l.inner) }
}

impl Clone for SharedLogger {
    fn clone(&self) -> (r: SharedLogger)
        ensures
            r == *self,
    {
        share_logger(self)
    }
}

/// Where a [`StdLogger`] writes.
#[derive(Clone, Copy, PartialEq, Eq, Structural, Debug)]
pub enum Target {
    /// The process's standard output.
    Stdout,
    /// The process's standard error.
    Stderr,
}

/// The broken-down reading of a clock that a log header shows.
pub struct ClockFields {
    /// The year, possibly negative.
    pub year: i32,
    /// The month, from 1.
    pub month: u32,
    /// The day of the month, from 1.
    pub day: u32,
    /// The hour, from 0.
    pub hour: u32,
    /// The minute, from 0.
    pub minute: u32,
    /// The second, from 0.
    pub second: u32,
    /// The microseconds into the second (a leap second shows as a
    /// second million).
    pub micros: u32,
}

/// The character that shows decimal digit `d`.
pub open spec fn digit_char(d: nat) -> char {
    if d == 0 { '0' }
    else if d == 1 { '1' }
    else if d == 2 { '2' }
    else if d == 3 { '3' }
    else if d == 4 { '4' }
    else if d == 5 { '5' }
    else if d == 6 { '6' }
    else if d == 7 { '7' }
    else if d == 8 { '8' }
    else { '9' }
}

/// The decimal digits of `n`, most significant first, without leading zeros
/// (zero is the single digit `0`).
pub open spec fn decimal(n: nat) -> Seq<char>
    decreases n,
{
    if n < 10 {
        seq![digit_char(n)]
    } else {
        decimal(n / 10).push(digit_char(n % 10))
    }
}

/// `count` copies of `c`.
pub open spec fn repeat_char(c: char, count: int) -> Seq<char>
    decreases count,
{
    if count <= 0 {
        Seq::empty()
    } else {
        repeat_char(c, count - 1).push(c)
    }
}

/// The decimal digits of `n`, left-padded with zeros to at least `width`
/// characters.
pub open spec fn zero_padded(n: nat, width: int) -> Seq<char> {
    repeat_char('0', width - decimal(n).len()) + decimal(n)
}

/// A signed number zero-padded to `width` characters counting its sign, as
/// `{:0width}` renders it.
pub open spec fn signed_zero_padded(n: int, width: int) -> Seq<char> {
    if n < 0 {
        seq!['-'] + zero_padded((-n) as nat, width - 1)
    } else {
        zero_padded(n as nat, width)
    }
}

/// The date part of a header: `yyyy/mm/dd `.
pub open spec fn date_text(c: ClockFields) -> Seq<char> {
    signed_zero_padded(c.year as int, 4) + seq!['/'] + zero_padded(c.month as nat, 2) + seq!['/']
        + zero_padded(c.day as nat, 2) + seq![' ']
}

/// The time part of a header: `hh:mm:ss`, then `.uuuuuu` with microsecond
/// resolution, then a space.
pub open spec fn time_text(c: ClockFields, micros: bool) -> Seq<char> {
    zero_padded(c.hour as nat, 2) + seq![':'] + zero_padded(c.minute as nat, 2) + seq![':']
        + zero_padded(c.second as nat, 2) + (if micros {
        seq!['.'] + zero_padded(c.micros as nat, 6)
    } else {
        Seq::empty()
    }) + seq![' ']
}

/// Whether `flags` has any of the bits of `bits`.
pub open spec fn has_flag(flags: u32, bits: u32) -> bool {
    flags & bits != 0
}

/// The timestamp a header shows for the clock reading `c`.
pub open spec fn timestamp_text(flags: u32, c: ClockFields) -> Seq<char> {
    (if has_flag(flags, LDATE) { date_text(c) } else { Seq::empty() }) + (if has_flag(
        flags,
        LTIME | LMICROSECONDS,
    ) {
        time_text(c, has_flag(flags, LMICROSECONDS))
    } else {
        Seq::empty()
    })
}

/// A log line for `message` under `flags` and `prefix`, with the timestamp
/// text `stamp`: the prefix leads unless [`LMSGPREFIX`] moves it in front of
/// the message, and a newline ends the line unless the message already ends
/// in one.
pub open spec fn line_text(flags: u32, prefix: Seq<char>, stamp: Seq<char>, message: Seq<char>) -> Seq<char> {
    let body = (if has_flag(flags, LMSGPREFIX) { Seq::empty() } else { prefix }) + (if has_flag(
        flags,
        LDATE | LTIME | LMICROSECONDS,
    ) {
        stamp
    } else {
        Seq::empty()
    }) + (if has_flag(flags, LMSGPREFIX) { prefix } else { Seq::empty() }) + message;
    if body.len() > 0 && body.last() == '\n' {
        body
    } else {
        body.push('\n')
    }
}

/// A logger that renders each line in the layout described on
/// [`line_text`].
#[derive(Debug)]
pub struct StdLogger {
    target: Target,
    prefix: String,
    flags: u32,
}

/// Appends the one-character string for digit `d`.
fn push_digit(line: &mut String, d: u64)
    requires
        d < 10,
    ensures
        final(line)@ == old(line)@.push(digit_char(d as nat)),
{
    proof {
        reveal_strlit("0");
        reveal_strlit("1");
        reveal_strlit("2");
        reveal_strlit("3");
        reveal_strlit("4");
        reveal_strlit("5");
        reveal_strlit("6");
        reveal_strlit("7");
        reveal_strlit("8");
        reveal_strlit("9");
    }
    let s = if d == 0 { "0" }
        else if d == 1 { "1" }
        else if d == 2 { "2" }
        else if d == 3 { "3" }
        else if d == 4 { "4" }
        else if d == 5 { "5" }
        else if d == 6 { "6" }
        else if d == 7 { "7" }
        else if d == 8 { "8" }
        else { "9" };
    line.append(s);
    assert(final(line)@ =~= old(line)@.push(digit_char(d as nat)));
}

/// Appends the decimal digits of `n`.
pub(crate) fn push_decimal(line: &mut String, n: u64)
    ensures
        final(line)@ == old(line)@ + decimal(n as nat),
    decreases n,
{
    if n >= 10 {
        push_decimal(line, n / 10);
        push_digit(line, n % 10);
        assert(final(line)@ =~= old(line)@ + decimal(n as nat));
    } else {
        push_digit(line, n);
        assert(final(line)@ =~= old(line)@ + decimal(n as nat));
    }
}

/// Ten to the power `k`.
pub open spec fn pow10(k: nat) -> nat
    decreases k,
{
    if k == 0 {
        1
    } else {
        10 * pow10((k - 1) as nat)
    }
}

/// A number below `10^k` has at most `k` digits (for `k >= 1`).
proof fn lemma_decimal_len_bound(n: nat, k: nat)
    requires
        k >= 1,
        n < pow10(k),
    ensures
        decimal(n).len() <= k,
    decreases k,
{
    if n >= 10 {
        assert(k >= 2) by {
            if k == 1 {
                assert(pow10(1) == 10) by {
                    reveal_with_fuel(pow10, 2);
                }
            }
        }
        assert(n / 10 < pow10((k - 1) as nat));
        lemma_decimal_len_bound(n / 10, (k - 1) as nat);
    }
}

/// How many decimal digits `n` has.
fn decimal_len(n: u64) -> (len: usize)
    ensures
        len == decimal(n as nat).len(),
        1 <= len <= 20,
    decreases n,
{
    proof {
        assert(pow10(20) == 100000000000000000000nat) by {
            reveal_with_fuel(pow10, 21);
        }
        lemma_decimal_len_bound(n as nat, 20);
    }
    if n >= 10 {
        decimal_len(n / 10) + 1
    } else {
        1
    }
}

/// Appends `count` zeros.
fn push_zeros(line: &mut String, count: usize)
    ensures
        final(line)@ == old(line)@ + repeat_char('0', count as int),
{
    let mut i: usize = 0;
    while i < count
        invariant
            i <= count,
            line@ == old(line)@ + repeat_char('0', i as int),
        decreases count - i,
    {
        push_digit(line, 0);
        i = i + 1;
        assert(line@ =~= old(line)@ + repeat_char('0', i as int));
    }
}

/// Appends `n` zero-padded to `width` characters.
fn push_padded(line: &mut String, n: u64, width: usize)
    ensures
        final(line)@ == old(line)@ + zero_padded(n as nat, width as int),
{
    let len = decimal_len(n);
    let zeros: usize = if width > len { width - len } else { 0 };
    push_zeros(line, zeros);
    push_decimal(line, n);
    assert(repeat_char('0', zeros as int) =~= repeat_char('0', width - decimal(n as nat).len()));
    assert(final(line)@ =~= old(line)@ + zero_padded(n as nat, width as int));
}

/// Appends the signed `n` zero-padded to `width` characters, sign included.
fn push_signed_padded(line: &mut String, n: i32, width: usize)
    requires
        width >= 1,
    ensures
        final(line)@ == old(line)@ + signed_zero_padded(n as int, width as int),
{
    if n < 0 {
        proof {
            reveal_strlit("-");
        }
        line.append("-");
        let magnitude: u64 = (-(n as i64)) as u64;
        push_padded(line, magnitude, width - 1);
        assert(final(line)@ =~= old(line)@ + signed_zero_padded(n as int, width as int));
    } else {
        push_padded(line, n as u64, width);
    }
}

/// Appends one of the separator characters a header uses.
fn push_sep(line: &mut String, c: char)
    requires
        c == '/' || c == ' ' || c == ':' || c == '.',
    ensures
        final(line)@ == old(line)@.push(c),
{
    if c == '/' {
        proof {
            reveal_strlit("/");
        }
        line.append("/");
    } else if c == ' ' {
        proof {
            reveal_strlit(" ");
        }
        line.append(" ");
    } else if c == ':' {
        proof {
            reveal_strlit(":");
        }
        line.append(":");
    } else {
        proof {
            reveal_strlit(".");
        }
        line.append(".");
    }
    assert(final(line)@ =~= old(line)@.push(c));
}

/// Appends the date part of a header.
fn push_date(line: &mut String, c: &ClockFields)
    ensures
        final(line)@ == old(line)@ + date_text(*c),
{
    let ghost s0 = line@;
    push_signed_padded(line, c.year, 4);
    let ghost s1 = line@;
    push_sep(line, '/');
    push_padded(line, c.month as u64, 2);
    let ghost s2 = line@;
    push_sep(line, '/');
    push_padded(line, c.day as u64, 2);
    let ghost s3 = line@;
    push_sep(line, ' ');
    assert(s1 =~= s0 + signed_zero_padded(c.year as int, 4));
    assert(s2 =~= s1 + seq!['/'] + zero_padded(c.month as nat, 2));
    assert(s3 =~= s2 + seq!['/'] + zero_padded(c.day as nat, 2));
    assert(final(line)@ =~= old(line)@ + date_text(*c));
}

/// Appends the time part of a header, with microseconds when `micros`.
fn push_time(line: &mut String, c: &ClockFields, micros: bool)
    ensures
        final(line)@ == old(line)@ + time_text(*c, micros),
{
    let ghost s0 = line@;
    push_padded(line, c.hour as u64, 2);
    push_sep(line, ':');
    let ghost s1 = line@;
    push_padded(line, c.minute as u64, 2);
    push_sep(line, ':');
    let ghost s2 = line@;
    push_padded(line, c.second as u64, 2);
    let ghost s3 = line@;
    if micros {
        push_sep(line, '.');
        push_padded(line, c.micros as u64, 6);
    }
    let ghost s4 = line@;
    push_sep(line, ' ');
    assert(s1 =~= s0 + zero_padded(c.hour as nat, 2) + seq![':']);
    assert(s2 =~= s1 + zero_padded(c.minute as nat, 2) + seq![':']);
    assert(s3 =~= s2 + zero_padded(c.second as nat, 2));
    assert(s4 =~= s3 + (if micros { seq!['.'] + zero_padded(c.micros as nat, 6) } else { Seq::empty() }));
    assert(final(line)@ =~= old(line)@ + time_text(*c, micros));
}

/// Appends the timestamp that `flags` selects for the clock reading `c`.
fn push_timestamp(line: &mut String, flags: u32, c: &ClockFields)
    ensures
        final(line)@ == old(line)@ + timestamp_text(flags, *c),
{
    let ghost start = line@;
    if flags & LDATE != 0 {
        push_date(line, c);
    }
    let ghost mid = line@;
    assert(mid =~= start + (if has_flag(flags, LDATE) { date_text(*c) } else { Seq::empty() }));
    if flags & (LTIME | LMICROSECONDS) != 0 {
        push_time(line, c, flags & LMICROSECONDS != 0);
    }
    assert(line@ =~= mid + (if has_flag(flags, LTIME | LMICROSECONDS) {
        time_text(*c, has_flag(flags, LMICROSECONDS))
    } else {
        Seq::empty()
    }));
    assert(final(line)@ =~= old(line)@ + timestamp_text(flags, *c));
}

/// Whether `s` ends in a newline.
fn ends_with_newline(s: &str) -> (b: bool)
    ensures
        b <==> (s@.len() > 0 && s@.last() == '\n'),
{
    let n = s.unicode_len();
    if n == 0 {
        false
    } else {
        s.get_char(n - 1) == '\n'
    }
}

impl StdLogger {
    /// The tag written with every line.
    pub closed spec fn prefix_text(&self) -> Seq<char> {
        self.prefix@
    }

    /// The header flags.
    pub closed spec fn flag_bits(&self) -> u32 {
        self.flags
    }

    /// Where lines go.
    pub closed spec fn destination(&self) -> Target {
        self.target
    }

    /// Creates a logger writing to `target`, tagging each line with `prefix`
    /// and rendering the header selected by `flags`.
    pub fn new(target: Target, prefix: &str, flags: u32) -> (l: StdLogger)
        ensures
            l.destination() == target,
            l.prefix_text() == prefix@,
            l.flag_bits() == flags,
    {
        StdLogger { target, prefix: prefix.to_owned(), flags }
    }

    /// Renders `message` into a complete log line with the timestamp of the
    /// clock reading `clock`.
    pub fn format_at(&self, message: &str, clock: &ClockFields) -> (line: String)
        ensures
            line@ == line_text(self.flag_bits(), self.prefix_text(), timestamp_text(self.flag_bits(), *clock), message@),
    {
        let mut line = String::new();
        let ghost start = line@;
        if self.flags & LMSGPREFIX == 0 {
            line.append(self.prefix.as_str());
        }
        if self.flags & (LDATE | LTIME | LMICROSECONDS) != 0 {
            push_timestamp(&mut line, self.flags, clock);
        }
        if self.flags & LMSGPREFIX != 0 {
            line.append(self.prefix.as_str());
        }
        line.append(message);
        let ghost body = line@;
        let ends = ends_with_newline(line.as_str());
        if !ends {
            proof {
                reveal_strlit("\n");
            }
            line.append("\n");
        }
        proof {
            let stamp = timestamp_text(self.flags, *clock);
            let expected_body = (if has_flag(self.flags, LMSGPREFIX) { Seq::empty() } else { self.prefix@ })
                + (if has_flag(self.flags, LDATE | LTIME | LMICROSECONDS) { stamp } else { Seq::empty() })
                + (if has_flag(self.flags, LMSGPREFIX) { self.prefix@ } else { Seq::empty() }) + message@;
            assert(body =~= expected_body);
            assert(line@ =~= line_text(self.flags, self.prefix@, stamp, message@));
        }
        line
    }

    /// Renders `message` into a complete log line, header and newline
    /// included, reading the clock for the timestamp.
    pub fn format(&self, message: &str) -> (line: String)
        ensures
            exists|c: ClockFields| {
                &&& clock_in_range(c)
                &&& exists|n: i64| #[trigger] call_ensures(now_unix_nano, (), n)
                    && shows_reading(has_flag(self.flag_bits(), LUTC), n, c)
                &&& line@ == line_text(self.flag_bits(), self.prefix_text(), timestamp_text(self.flag_bits(), c), message@)
            },
    {
        let clock = read_clock(self.flags & LUTC != 0);
        self.format_at(message, &clock)
    }
}

impl Logger for StdLogger {
    fn printf(&self, message: &str) {
        let line = self.format(message);
        match self.target {
            Target::Stdout => {
                let mut out = stdout_handle();
                write_stdout(&mut out, line.as_str());
            },
            Target::Stderr => {
                let mut err = stderr_handle();
                write_stderr(&mut err, line.as_str());
            },
        }
    }
}

/// The logger a pool uses when no other one was configured: it writes to
/// standard error with the prefix `[ants]: `, the date, and the local time
/// to the microsecond, the prefix standing just before the message.
pub fn default_logger() -> (l: SharedLogger)
    ensures
        exists|s: StdLogger| {
            &&& s.destination() == Target::Stderr
            &&& s.prefix_text() == "[ants]: "@
            &&& s.flag_bits() == LSTD_FLAGS | LMSGPREFIX | LMICROSECONDS
            &&& #[trigger] shares(s, l)
        },
{
    let share = into_shared_logger;
    let s = StdLogger::new(Target::Stderr, "[ants]: ", LSTD_FLAGS | LMSGPREFIX | LMICROSECONDS);
    let ghost g = s;
    let l = share(s);
    assert(shares(g, l));
    l
}

/// Whether `l` is `logger` put behind a shared handle.
pub closed spec fn shares(logger: StdLogger, l: SharedLogger) -> bool {
    call_ensures(into_shared_logger, (logger,), l)
}

/// Puts `logger` behind a shared handle through `Arc::new`.
#[verifier::external_body]
fn into_shared_logger(logger: StdLogger) -> (l: SharedLogger) {
    SharedLogger { inner: Arc::new(logger) }
}

/// The process's standard output, of std.
#[verifier::external_type_specification]
#[verifier::external_body]
pub struct ExStdout(std::io::Stdout);

/// The process's standard error, of std.
#[verifier::external_type_specification]
#[verifier::external_body]
pub struct ExStderr(std::io::Stderr);

/// Calls `std::io::stdout`: a handle to the process's standard output.
#[verifier::external_body]
fn stdout_handle() -> (h: std::io::Stdout) {
    std::io::stdout()
}

/// Calls `std::io::stderr`: a handle to the process's standard error.
#[verifier::external_body]
fn stderr_handle() -> (h: std::io::Stderr) {
    std::io::stderr()
}

/// Writes the bytes of `line` to `out` with `std::io::Write::write_all`; a
/// failed write is ignored.
#[verifier::external_body]
fn write_stdout(out: &mut std::io::Stdout, line: &str) {
    let _ = std::io::Write::write_all(out, line.as_bytes());
}

/// Writes the bytes of `line` to `err` with `std::io::Write::write_all`; a
/// failed write is ignored.
#[verifier::external_body]
fn write_stderr(err: &mut std::io::Stderr, line: &str) {
    let _ = std::io::Write::write_all(err, line.as_bytes());
}

/// The date and time in UTC `secs` seconds and `nsecs` nanoseconds after
/// the Unix epoch, as chrono breaks it down: year, month, day, hour,
/// minute, second and nanosecond, or `None` out of chrono's range.
pub uninterp spec fn chrono_utc_fields(secs: i64, nsecs: u32) -> Option<(i32, u32, u32, u32, u32, u32, u32)>;

/// Calls `chrono::DateTime::from_timestamp` and reads the fields of its
/// `naive_utc` through `Datelike` and `Timelike`: the breakdown named
/// [`chrono_utc_fields`].
///
/// What is claimed beyond the name is what chrono's source and the
/// proleptic Gregorian calendar it documents give: `Some` for any second
/// count within a million million seconds of the epoch (the day number
/// then fits an `i32` and the year lies far inside chrono's ±262,142) with
/// fewer than a billion nanoseconds; each field within its documented
/// range; the nanosecond field is `nsecs` itself when that is below a
/// billion (`NaiveTime::from_num_seconds_from_midnight_opt` keeps it as
/// the fraction); and the year has four digits from 1000-01-01 (second
/// -30,610,224,000) up to 10000-01-01 (second 253,402,300,800).
#[verifier::external_body]
fn utc_fields(secs: i64, nsecs: u32) -> (r: Option<(i32, u32, u32, u32, u32, u32, u32)>)
    ensures
        r == chrono_utc_fields(secs, nsecs),
        -1_000_000_000_000 <= secs <= 1_000_000_000_000 && nsecs < 1_000_000_000 ==> r is Some,
        r matches Some(f) ==> {
            &&& 1 <= f.1 <= 12
            &&& 1 <= f.2 <= 31
            &&& f.3 <= 23
            &&& f.4 <= 59
            &&& f.5 <= 59
            &&& f.6 < 2_000_000_000
            &&& nsecs < 1_000_000_000 ==> f.6 == nsecs
            &&& -30_610_224_000 <= secs < 253_402_300_800 ==> 1000 <= f.0 <= 9999
        },
{
    chrono::DateTime::from_timestamp(secs, nsecs).map(|d| {
        let t = d.naive_utc();
        (t.year(), t.month(), t.day(), t.hour(), t.minute(), t.second(), t.nanosecond())
    })
}

/// Calls `TimeZone::offset_from_local_datetime` on `chrono::Local` for the
/// wall-clock time that reads `wall_secs` seconds after the epoch (built
/// with `DateTime::from_timestamp` and `naive_utc`), and
/// `FixedOffset::local_minus_utc` on each offset found: the offsets, in
/// seconds east of UTC, that the local time zone gives that wall-clock
/// time. None for a time skipped by a transition or whose zone data gives
/// an offset of a day or more, two for a time repeated by one. Each is
/// under a day, as a `FixedOffset` is. The answer depends on the system's
/// time-zone data, so nothing more is claimed. Within the admitted range
/// chrono's lookup stays inside its own arithmetic range and does not
/// panic.
#[verifier::external_body]
fn local_offsets_at(wall_secs: i64) -> (r: Vec<i32>)
    requires
        -1_000_000_000_000 <= wall_secs <= 1_000_000_000_000,
    ensures
        r@.len() <= 2,
        forall|i: int| 0 <= i < r@.len() ==> -86_400 < #[trigger] r@[i] < 86_400,
{
    match chrono::DateTime::from_timestamp(wall_secs, 0) {
        Some(d) => match chrono::TimeZone::offset_from_local_datetime(&chrono::Local, &d.naive_utc()) {
            chrono::MappedLocalTime::Single(o) => vec![o.local_minus_utc()],
            chrono::MappedLocalTime::Ambiguous(a, b) => vec![a.local_minus_utc(), b.local_minus_utc()],
            chrono::MappedLocalTime::None => Vec::new(),
        },
        None => Vec::new(),
    }
}

/// Whether `o` is among the offsets of `v`.
fn lists(v: &Vec<i32>, o: i32) -> (b: bool)
    ensures
        b == v@.contains(o),
{
    let mut k: usize = 0;
    while k < v.len()
        invariant
            k <= v@.len(),
            forall|j: int| 0 <= j < k ==> v@[j] != o,
        decreases v@.len() - k,
    {
        if v[k] == o {
            return true;
        }
        k = k + 1;
    }
    false
}

/// Whether `o` is an offset of the local time zone at `secs` seconds after
/// the epoch: the wall-clock time `secs + o` lists `o` among its offsets.
pub closed spec fn local_offset_holds(secs: i64, o: i32) -> bool {
    exists|v: Vec<i32>| #[trigger] call_ensures(local_offsets_at, ((secs + o) as i64,), v) && v@.contains(o)
}

/// The local time zone's offset, in seconds east of UTC, at `secs` seconds
/// after the epoch. The instant's own offset is one that the wall-clock
/// time it makes lists: it is sought among the offsets of the wall-clock
/// time that reads `secs`, then among those of the wall-clock times they
/// make; when none fits (zone data with offsets of a day or more), the
/// offset is zero and the time shows as UTC.
fn local_offset(secs: i64) -> (o: i32)
    requires
        -10_000_000_000 <= secs <= 10_000_000_000,
    ensures
        -86_400 < o < 86_400,
        o == 0 || local_offset_holds(secs, o),
{
    let look = local_offsets_at;
    let first = look(secs);
    let mut i: usize = 0;
    while i < first.len()
        invariant
            look == local_offsets_at,
            i <= first@.len(),
            -10_000_000_000 <= secs <= 10_000_000_000,
            first@.len() <= 2,
            forall|j: int| 0 <= j < first@.len() ==> -86_400 < #[trigger] first@[j] < 86_400,
        decreases first@.len() - i,
    {
        let o = first[i];
        let check = look(secs + o as i64);
        if lists(&check, o) {
            assert(call_ensures(local_offsets_at, ((secs + o) as i64,), check));
            return o;
        }
        i = i + 1;
    }
    i = 0;
    while i < first.len()
        invariant
            look == local_offsets_at,
            i <= first@.len(),
            -10_000_000_000 <= secs <= 10_000_000_000,
            forall|j: int| 0 <= j < first@.len() ==> -86_400 < #[trigger] first@[j] < 86_400,
        decreases first@.len() - i,
    {
        let around = look(secs + first[i] as i64);
        let mut j: usize = 0;
        while j < around.len()
            invariant
                look == local_offsets_at,
                j <= around@.len(),
                -10_000_000_000 <= secs <= 10_000_000_000,
                forall|m: int| 0 <= m < around@.len() ==> -86_400 < #[trigger] around@[m] < 86_400,
            decreases around@.len() - j,
        {
            let p = around[j];
            let check = look(secs + p as i64);
            if lists(&check, p) {
                assert(call_ensures(local_offsets_at, ((secs + p) as i64,), check));
                return p;
            }
            j = j + 1;
        }
        i = i + 1;
    }
    0
}

/// Whether `c` holds fields a reading of the clock shows: a four-digit
/// year, a month, a day of the month, an hour, a minute, a second and the
/// microseconds into it.
pub open spec fn clock_in_range(c: ClockFields) -> bool {
    &&& 1000 <= c.year <= 9999
    &&& 1 <= c.month <= 12
    &&& 1 <= c.day <= 31
    &&& c.hour <= 23
    &&& c.minute <= 59
    &&& c.second <= 59
    &&& c.micros < 1_000_000
}

/// Whether `c` shows the breakdown `f`, to the microsecond.
pub open spec fn shows_fields(c: ClockFields, f: Option<(i32, u32, u32, u32, u32, u32, u32)>) -> bool {
    f matches Some(t) && c == (ClockFields {
        year: t.0,
        month: t.1,
        day: t.2,
        hour: t.3,
        minute: t.4,
        second: t.5,
        micros: t.6 / 1000,
    })
}

/// Whether `c` shows the clock reading of `n` nanoseconds after the epoch:
/// chrono's UTC breakdown of it, or, in local time, that of the reading
/// moved east by the zone's own offset at that instant (under a day), or by
/// none where the zone data offers no such offset.
pub open spec fn shows_reading(utc: bool, n: i64, c: ClockFields) -> bool {
    let secs = (n as int / 1_000_000_000) as i64;
    let nsecs = (n as int % 1_000_000_000) as u32;
    if utc {
        shows_fields(c, chrono_utc_fields(secs, nsecs))
    } else {
        exists|o: i32| {
            &&& -86_400 < o < 86_400
            &&& o == 0 || local_offset_holds(secs, o)
            &&& #[trigger] shows_fields(c, chrono_utc_fields((secs + o) as i64, nsecs))
        }
    }
}

/// Splits a signed nanosecond count into whole seconds, rounded down, and
/// the nanoseconds left over.
fn split_nanos(n: i64) -> (r: (i64, u32))
    ensures
        r.0 == n as int / 1_000_000_000,
        r.1 == n as int % 1_000_000_000,
        -9_223_372_037 <= r.0 <= 9_223_372_036,
{
    let secs = n / NANOS_PER_SEC;
    let rest = n % NANOS_PER_SEC;
    if rest < 0 {
        ((secs - 1), (rest + NANOS_PER_SEC) as u32)
    } else {
        (secs, rest as u32)
    }
}

/// Builds the header fields of a breakdown.
fn fields_of(t: (i32, u32, u32, u32, u32, u32, u32)) -> (c: ClockFields)
    requires
        t.6 < 2_000_000_000,
    ensures
        shows_fields(c, Some(t)),
{
    ClockFields { year: t.0, month: t.1, day: t.2, hour: t.3, minute: t.4, second: t.5, micros: t.6 / 1000 }
}

/// Reads the clock, in UTC or in the local time zone, broken down into the
/// fields a header shows.
pub fn read_clock(utc: bool) -> (c: ClockFields)
    ensures
        clock_in_range(c),
        exists|n: i64| #[trigger] call_ensures(now_unix_nano, (), n) && shows_reading(utc, n, c),
{
    let clock = now_unix_nano;
    let n = clock();
    let (secs, nsecs) = split_nanos(n);
    let shift: i32 = if utc { 0 } else { local_offset(secs) };
    let at = secs + shift as i64;
    let f = utc_fields(at, nsecs);
    let c = match f {
        Some(t) => fields_of(t),
        None => {
            proof {
                assert(false);
            }
            ClockFields { year: 1970, month: 1, day: 1, hour: 0, minute: 0, second: 0, micros: 0 }
        },
    };
    proof {
        if !utc {
            assert(shows_fields(c, chrono_utc_fields((secs + shift) as i64, nsecs)));
        }
        assert(shows_reading(utc, n, c));
    }
    c
}

/// Every line ends in a newline, and a message that already ends in one
/// does not get a second.
pub proof fn law_line_ends_in_one_newline(flags: u32, prefix: Seq<char>, stamp: Seq<char>, message: Seq<char>)
    ensures
        line_text(flags, prefix, stamp, message).len() > 0,
        line_text(flags, prefix, stamp, message).last() == '\n',
        message.len() > 0 && message.last() == '\n' ==> line_text(flags, prefix, stamp, message).len()
            == (if has_flag(flags, LMSGPREFIX) { 0 } else { prefix.len() }) + (if has_flag(
            flags,
            LDATE | LTIME | LMICROSECONDS,
        ) {
            stamp.len()
        } else {
            0
        }) + (if has_flag(flags, LMSGPREFIX) { prefix.len() } else { 0 }) + message.len(),
{
}

/// Without [`LMSGPREFIX`] the prefix leads the line; with it, the prefix
/// stands right before the message.
pub proof fn law_prefix_position(flags: u32, prefix: Seq<char>, stamp: Seq<char>, message: Seq<char>)
    ensures
        !has_flag(flags, LMSGPREFIX) ==> line_text(flags, prefix, stamp, message).take(prefix.len() as int)
            == prefix,
        has_flag(flags, LMSGPREFIX) && !has_flag(flags, LDATE | LTIME | LMICROSECONDS) ==> line_text(
            flags,
            prefix,
            stamp,
            message,
        ).take((prefix.len() + message.len()) as int) == prefix + message,
{
    let body = (if has_flag(flags, LMSGPREFIX) { Seq::empty() } else { prefix }) + (if has_flag(
        flags,
        LDATE | LTIME | LMICROSECONDS,
    ) {
        stamp
    } else {
        Seq::empty()
    }) + (if has_flag(flags, LMSGPREFIX) { prefix } else { Seq::empty() }) + message;
    let line = line_text(flags, prefix, stamp, message);
    assert(line.take(body.len() as int) =~= body);
    if !has_flag(flags, LMSGPREFIX) {
        assert(body.take(prefix.len() as int) =~= prefix);
        assert(line.take(prefix.len() as int) =~= prefix);
    } else if !has_flag(flags, LDATE | LTIME | LMICROSECONDS) {
        assert(body =~= prefix + message);
        assert(line.take((prefix.len() + message.len()) as int) =~= prefix + message);
    }
}

/// A number below `10^width` padded to `width` takes exactly `width`
/// characters.
pub proof fn lemma_padded_len(n: nat, width: nat)
    requires
        width >= 1,
        n < pow10(width),
    ensures
        zero_padded(n, width as int).len() == width,
{
    lemma_decimal_len_bound(n, width);
    lemma_repeat_len('0', width - decimal(n).len());
}

proof fn lemma_repeat_len(c: char, count: int)
    ensures
        repeat_char(c, count).len() == if count <= 0 { 0 } else { count },
    decreases count,
{
    if count > 0 {
        lemma_repeat_len(c, count - 1);
    }
}

/// A header that shows the date and no time, `yyyy/mm/dd `, takes 11
/// characters for any clock reading.
pub proof fn law_date_header_length(flags: u32, c: ClockFields)
    requires
        has_flag(flags, LDATE),
        !has_flag(flags, LTIME | LMICROSECONDS),
        clock_in_range(c),
    ensures
        timestamp_text(flags, c).len() == 11,
{
    reveal_with_fuel(pow10, 5);
    lemma_padded_len(c.year as nat, 4);
    lemma_padded_len(c.month as nat, 2);
    lemma_padded_len(c.day as nat, 2);
}

/// The header of the default logger, `yyyy/mm/dd hh:mm:ss.uuuuuu `, takes
/// 27 characters for a four-digit year outside a leap second.
pub proof fn law_default_header_length(c: ClockFields)
    requires
        1000 <= c.year <= 9999,
        1 <= c.month <= 12,
        1 <= c.day <= 31,
        c.hour <= 23,
        c.minute <= 59,
        c.second <= 59,
        c.micros < 1_000_000,
    ensures
        timestamp_text(LSTD_FLAGS | LMSGPREFIX | LMICROSECONDS, c).len() == 27,
{
    reveal_with_fuel(pow10, 7);
    lemma_padded_len(c.year as nat, 4);
    lemma_padded_len(c.month as nat, 2);
    lemma_padded_len(c.day as nat, 2);
    lemma_padded_len(c.hour as nat, 2);
    lemma_padded_len(c.minute as nat, 2);
    lemma_padded_len(c.second as nat, 2);
    lemma_padded_len(c.micros as nat, 6);
    assert((LSTD_FLAGS | LMSGPREFIX | LMICROSECONDS) & LDATE != 0) by (bit_vector);
    assert((LSTD_FLAGS | LMSGPREFIX | LMICROSECONDS) & (LTIME | LMICROSECONDS) != 0) by (bit_vector);
    assert((LSTD_FLAGS | LMSGPREFIX | LMICROSECONDS) & LMICROSECONDS != 0) by (bit_vector);
}

/// The date part of a header reads the year's four digits, a slash, the
/// month's two digits, a slash, the day's two digits and a space, in that
/// order, for any year from 0 to 9999.
pub proof fn law_date_reads_year_month_day(c: ClockFields)
    requires
        0 <= c.year <= 9999,
        c.month < 100,
        c.day < 100,
    ensures
        date_text(c) == seq![
            digit_char((c.year / 1000) as nat),
            digit_char((c.year / 100 % 10) as nat),
            digit_char((c.year / 10 % 10) as nat),
            digit_char((c.year % 10) as nat),
            '/',
            digit_char((c.month / 10) as nat),
            digit_char((c.month % 10) as nat),
            '/',
            digit_char((c.day / 10) as nat),
            digit_char((c.day % 10) as nat),
            ' ',
        ],
{
    lemma_four_digits(c.year as nat);
    lemma_two_digits(c.month as nat);
    lemma_two_digits(c.day as nat);
    assert(date_text(c) =~= seq![
        digit_char((c.year / 1000) as nat),
        digit_char((c.year / 100 % 10) as nat),
        digit_char((c.year / 10 % 10) as nat),
        digit_char((c.year % 10) as nat),
        '/',
        digit_char((c.month / 10) as nat),
        digit_char((c.month % 10) as nat),
        '/',
        digit_char((c.day / 10) as nat),
        digit_char((c.day % 10) as nat),
        ' ',
    ]);
}

/// The time part of a header reads the hour's, the minute's and the
/// second's two digits, separated by colons, then, with microsecond
/// resolution, a dot and the microseconds' six digits, and a space.
pub proof fn law_time_reads_hour_minute_second(c: ClockFields, micros: bool)
    requires
        c.hour < 100,
        c.minute < 100,
        c.second < 100,
        c.micros < 1_000_000,
    ensures
        time_text(c, micros) == seq![
            digit_char((c.hour / 10) as nat),
            digit_char((c.hour % 10) as nat),
            ':',
            digit_char((c.minute / 10) as nat),
            digit_char((c.minute % 10) as nat),
            ':',
            digit_char((c.second / 10) as nat),
            digit_char((c.second % 10) as nat),
        ] + (if micros {
            seq![
                '.',
                digit_char((c.micros / 100_000) as nat),
                digit_char((c.micros / 10_000 % 10) as nat),
                digit_char((c.micros / 1000 % 10) as nat),
                digit_char((c.micros / 100 % 10) as nat),
                digit_char((c.micros / 10 % 10) as nat),
                digit_char((c.micros % 10) as nat),
            ]
        } else {
            Seq::empty()
        }) + seq![' '],
{
    lemma_two_digits(c.hour as nat);
    lemma_two_digits(c.minute as nat);
    lemma_two_digits(c.second as nat);
    lemma_six_digits(c.micros as nat);
    let hms = seq![
        digit_char((c.hour / 10) as nat),
        digit_char((c.hour % 10) as nat),
        ':',
        digit_char((c.minute / 10) as nat),
        digit_char((c.minute % 10) as nat),
        ':',
        digit_char((c.second / 10) as nat),
        digit_char((c.second % 10) as nat),
    ];
    assert(zero_padded(c.hour as nat, 2) + seq![':'] + zero_padded(c.minute as nat, 2) + seq![':']
        + zero_padded(c.second as nat, 2) =~= hms);
}

proof fn lemma_six_digits(n: nat)
    requires
        n < 1_000_000,
    ensures
        zero_padded(n, 6) == seq![
            digit_char(n / 100_000),
            digit_char(n / 10_000 % 10),
            digit_char(n / 1000 % 10),
            digit_char(n / 100 % 10),
            digit_char(n / 10 % 10),
            digit_char(n % 10),
        ],
{
    lemma_padded_step(n, 6);
    lemma_padded_step(n / 10, 5);
    lemma_padded_step(n / 10 / 10, 4);
    lemma_padded_step(n / 10 / 10 / 10, 3);
    assert(n / 10 / 10 == n / 100);
    assert(n / 100 / 10 == n / 1000);
    assert(n / 1000 / 10 == n / 10_000);
    assert(n / 10_000 / 10 == n / 100_000);
    lemma_two_digits(n / 10_000);
    assert(zero_padded(n, 6) =~= seq![
        digit_char(n / 100_000),
        digit_char(n / 10_000 % 10),
        digit_char(n / 1000 % 10),
        digit_char(n / 100 % 10),
        digit_char(n / 10 % 10),
        digit_char(n % 10),
    ]);
}

proof fn lemma_padded_step(n: nat, w: int)
    requires
        w >= 2,
    ensures
        zero_padded(n, w) == zero_padded(n / 10, w - 1).push(digit_char(n % 10)),
{
    if n < 10 {
        assert(decimal(n) == seq![digit_char(n)]);
        assert(decimal(0) == seq![digit_char(0)]);
        assert(repeat_char('0', w - 1) == repeat_char('0', w - 2).push('0'));
        assert(zero_padded(n, w) =~= zero_padded(n / 10, w - 1).push(digit_char(n % 10)));
    } else {
        assert(decimal(n) == decimal(n / 10).push(digit_char(n % 10)));
        assert(zero_padded(n, w) =~= zero_padded(n / 10, w - 1).push(digit_char(n % 10)));
    }
}

proof fn lemma_two_digits(n: nat)
    requires
        n < 100,
    ensures
        zero_padded(n, 2) == seq![digit_char(n / 10), digit_char(n % 10)],
{
    reveal_with_fuel(repeat_char, 3);
    reveal_with_fuel(decimal, 3);
    if n < 10 {
        assert(zero_padded(n, 2) =~= seq![digit_char(n / 10), digit_char(n % 10)]);
    } else {
        assert(decimal(n / 10) == seq![digit_char(n / 10)]);
        assert(zero_padded(n, 2) =~= seq![digit_char(n / 10), digit_char(n % 10)]);
    }
}

proof fn lemma_four_digits(n: nat)
    requires
        n < 10000,
    ensures
        zero_padded(n, 4) == seq![digit_char(n / 1000), digit_char(n / 100 % 10), digit_char(n / 10 % 10), digit_char(n % 10)],
{
    reveal_with_fuel(repeat_char, 5);
    reveal_with_fuel(decimal, 5);
    let want = seq![digit_char(n / 1000), digit_char(n / 100 % 10), digit_char(n / 10 % 10), digit_char(n % 10)];
    if n < 10 {
        assert(zero_padded(n, 4) =~= want);
    } else if n < 100 {
        assert(decimal(n) == seq![digit_char(n / 10), digit_char(n % 10)]);
        assert(zero_padded(n, 4) =~= want);
    } else if n < 1000 {
        assert(n / 10 / 10 == n / 100);
        assert(decimal(n / 10) == seq![digit_char(n / 100), digit_char(n / 10 % 10)]);
        assert(decimal(n) == seq![digit_char(n / 100), digit_char(n / 10 % 10), digit_char(n % 10)]);
        assert(zero_padded(n, 4) =~= want);
    } else {
        assert(n / 10 / 10 == n / 100);
        assert(n / 100 / 10 == n / 1000);
        assert(n / 10 / 10 % 10 == n / 100 % 10);
        assert(decimal(n / 100) == seq![digit_char(n / 1000), digit_char(n / 100 % 10)]);
        assert(decimal(n / 10) == seq![digit_char(n / 1000), digit_char(n / 100 % 10), digit_char(n / 10 % 10)]);
        assert(zero_padded(n, 4) =~= want);
    }
}

/// The whole seconds of a reading of `n` nanoseconds after the epoch,
/// rounded down.
pub open spec fn whole_secs(n: i64) -> i64 {
    (n as int / 1_000_000_000) as i64
}

/// The nanoseconds into its second of a reading of `n` nanoseconds after
/// the epoch.
pub open spec fn nanos_into_second(n: i64) -> u32 {
    (n as int % 1_000_000_000) as u32
}

/// The whole seconds of a reading of `n` nanoseconds after the epoch,
/// moved east by `o` seconds.
pub open spec fn shifted_secs(n: i64, o: i32) -> i64 {
    (whole_secs(n) + o) as i64
}

/// A reading of the clock in local time shows chrono's UTC breakdown of the
/// current time moved east by an offset of the local zone at that instant
/// (local time is UTC plus the offset), or by none where the zone data
/// offers no such offset; in UTC it shows the breakdown itself.
pub proof fn law_local_time_is_utc_plus_offset(utc: bool, c: ClockFields)
    requires
        call_ensures(read_clock, (utc,), c),
    ensures
        exists|n: i64, o: i32| #![trigger chrono_utc_fields(shifted_secs(n, o), nanos_into_second(n))] {
            &&& call_ensures(now_unix_nano, (), n)
            &&& (if utc { o == 0 } else { o == 0 || local_offset_holds(whole_secs(n), o) })
            &&& shows_fields(c, chrono_utc_fields(shifted_secs(n, o), nanos_into_second(n)))
        },
{
    let n = choose|n: i64| #[trigger] call_ensures(now_unix_nano, (), n) && shows_reading(utc, n, c);
    let o: i32 = if utc {
        0
    } else {
        choose|o: i32| {
            &&& -86_400 < o < 86_400
            &&& o == 0 || local_offset_holds(whole_secs(n), o)
            &&& #[trigger] shows_fields(c, chrono_utc_fields((whole_secs(n) + o) as i64, nanos_into_second(n)))
        }
    };
    assert(shows_fields(c, chrono_utc_fields(shifted_secs(n, o), nanos_into_second(n))));
}

} // verus!
