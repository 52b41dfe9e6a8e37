//! A signed count of nanoseconds, and the wall clock in that unit.

use core::cmp::Ordering;
use vstd::prelude::*;
use vstd::std_specs::cmp::PartialOrdSpecImpl;

verus! {

/// Nanoseconds per microsecond.
pub const NANOS_PER_MICRO: i64 = 1_000;

/// Nanoseconds per millisecond.
pub const NANOS_PER_MILLI: i64 = 1_000_000;

/// Nanoseconds per second.
pub const NANOS_PER_SEC: i64 = 1_000_000_000;

/// A duration measured in nanoseconds, signed: a negative duration can be
/// expressed, and configuration that must not be negative is checked.
#[derive(Clone, Copy, PartialEq, Eq, Structural, Ord, Hash, Default, Debug)]
pub struct Duration(pub i64);

impl Duration {
    /// The zero duration, in specifications.
    pub open spec fn spec_zero() -> Duration {
        Duration(0)
    }

    /// The zero duration.
    pub fn zero() -> (d: Duration)
        ensures
            d.nanos() == 0,
            d == Duration::spec_zero(),
    {
        Duration(0)
    }

    /// One nanosecond.
    pub fn nanosecond() -> (d: Duration)
        ensures
            d.nanos() == 1,
    {
        Duration(1)
    }

    /// One microsecond, i.e. 1000 nanoseconds.
    pub fn microsecond() -> (d: Duration)
        ensures
            d.nanos() == NANOS_PER_MICRO,
    {
        Duration(NANOS_PER_MICRO)
    }

    /// One millisecond, i.e. 1000 microseconds.
    pub fn millisecond() -> (d: Duration)
        ensures
            d.nanos() == NANOS_PER_MILLI,
    {
        Duration(NANOS_PER_MILLI)
    }

    /// One second, i.e. 1000 milliseconds.
    pub fn second() -> (d: Duration)
        ensures
            d.nanos() == NANOS_PER_SEC,
    {
        Duration(NANOS_PER_SEC)
    }

    /// The nanosecond count as a mathematical integer.
    pub open spec fn nanos(self) -> int {
        self.0 as int
    }

    /// Builds a duration from a raw, possibly negative, nanosecond count.
    pub fn from_nanos(nanos: i64) -> (d: Duration)
        ensures
            d.nanos() == nanos,
    {
        Duration(nanos)
    }

    /// Builds a duration from a whole number of milliseconds.
    pub fn from_millis(millis: i64) -> (d: Duration)
        requires
            i64::MIN <= millis * NANOS_PER_MILLI <= i64::MAX,
        ensures
            d.nanos() == millis * NANOS_PER_MILLI,
    {
        Duration(millis * NANOS_PER_MILLI)
    }

    /// Builds a duration from a whole number of seconds.
    pub fn from_secs(secs: i64) -> (d: Duration)
        requires
            i64::MIN <= secs * NANOS_PER_SEC <= i64::MAX,
        ensures
            d.nanos() == secs * NANOS_PER_SEC,
    {
        Duration(secs * NANOS_PER_SEC)
    }

    /// The duration as a raw nanosecond count.
    pub fn as_nanos(self) -> (n: i64)
        ensures
            n == self.nanos(),
    {
        self.0
    }

    /// The duration as a [`std::time::Duration`], a negative one clamped to
    /// zero: every API that waits treats a negative duration as no wait.
    pub fn to_std(self) -> (d: std::time::Duration)
        ensures
            d == std_duration_of_nanos(if self.nanos() <= 0 { 0 } else { self.nanos() as u64 }),
    {
        if self.0 <= 0 {
            std_duration_from_nanos(0)
        } else {
            std_duration_from_nanos(self.0 as u64)
        }
    }
}

/// The [`std::time::Duration`] that `std::time::Duration::from_nanos` builds
/// from a nanosecond count.
pub uninterp spec fn std_duration_of_nanos(nanos: u64) -> std::time::Duration;

/// Calls `std::time::Duration::from_nanos`; its result is named
/// [`std_duration_of_nanos`] of the argument, and nothing more is claimed.
#[verifier::external_body]
fn std_duration_from_nanos(nanos: u64) -> (d: std::time::Duration)
    ensures
        d == std_duration_of_nanos(nanos),
{
    std::time::Duration::from_nanos(nanos)
}

/// How two durations compare: by their nanosecond counts.
pub open spec fn compare_nanos(a: Duration, b: Duration) -> Option<Ordering> {
    if a.0 < b.0 {
        Some(Ordering::Less)
    } else if a.0 == b.0 {
        Some(Ordering::Equal)
    } else {
        Some(Ordering::Greater)
    }
}

impl PartialOrd for Duration {
    fn partial_cmp(&self, other: &Duration) -> (o: Option<Ordering>) {
        if self.0 < other.0 {
            Some(Ordering::Less)
        } else if self.0 == other.0 {
            Some(Ordering::Equal)
        } else {
            Some(Ordering::Greater)
        }
    }
}

impl PartialOrdSpecImpl for Duration {
    open spec fn obeys_partial_cmp_spec() -> bool {
        true
    }

    open spec fn partial_cmp_spec(&self, other: &Duration) -> Option<Ordering> {
        compare_nanos(*self, *other)
    }
}

impl core::ops::Add for Duration {
    type Output = Duration;

    fn add(self, rhs: Duration) -> (d: Duration) {
        Duration(self.0 + rhs.0)
    }
}

impl vstd::std_specs::ops::AddSpecImpl for Duration {
    open spec fn obeys_add_spec() -> bool {
        true
    }

    open spec fn add_req(self, rhs: Duration) -> bool {
        i64::MIN <= self.0 + rhs.0 <= i64::MAX
    }

    open spec fn add_spec(self, rhs: Duration) -> Duration {
        Duration((self.0 + rhs.0) as i64)
    }
}

impl core::ops::Mul<i64> for Duration {
    type Output = Duration;

    fn mul(self, rhs: i64) -> (d: Duration) {
        Duration(self.0 * rhs)
    }
}

impl vstd::std_specs::ops::MulSpecImpl<i64> for Duration {
    open spec fn obeys_mul_spec() -> bool {
        true
    }

    open spec fn mul_req(self, rhs: i64) -> bool {
        i64::MIN <= self.0 * rhs <= i64::MAX
    }

    open spec fn mul_spec(self, rhs: i64) -> Duration {
        Duration((self.0 * rhs) as i64)
    }
}

/// Integer division rounding toward zero, as `/` on machine integers does.
pub open spec fn truncating_div(a: int, b: int) -> int {
    if a >= 0 {
        a / b
    } else {
        -((-a) / b)
    }
}

impl core::ops::Div<i64> for Duration {
    type Output = Duration;

    fn div(self, rhs: i64) -> (d: Duration) {
        Duration(self.0 / rhs)
    }
}

impl vstd::std_specs::ops::DivSpecImpl<i64> for Duration {
    open spec fn obeys_div_spec() -> bool {
        true
    }

    open spec fn div_req(self, rhs: i64) -> bool {
        rhs != 0 && !(self.0 == i64::MIN && rhs == -1)
    }

    open spec fn div_spec(self, rhs: i64) -> Duration {
        Duration(truncating_div(self.0 as int, rhs as int) as i64)
    }
}

/// A reading of the system clock.
#[verifier::external_type_specification]
#[verifier::external_body]
pub struct ExSystemTime(std::time::SystemTime);

/// The error `SystemTime::duration_since` reports for a time before the
/// reference point.
#[verifier::external_type_specification]
#[verifier::external_body]
pub struct ExSystemTimeError(std::time::SystemTimeError);

/// Calls `std::time::SystemTime::now`. The result is a reading of the clock:
/// nothing is claimed of it.
#[verifier::external_body]
fn system_time_now() -> (t: std::time::SystemTime) {
    std::time::SystemTime::now()
}

/// Calls `SystemTime::duration_since` with the Unix epoch: `Ok` holds how far
/// `t` lies after the epoch, `Err` how far before it. Nothing is claimed of
/// either amount, which comes from the clock.
#[verifier::external_body]
fn duration_since_unix_epoch(t: &std::time::SystemTime) -> (r: Result<std::time::Duration, std::time::SystemTimeError>) {
    t.duration_since(std::time::UNIX_EPOCH)
}

/// Calls `SystemTimeError::duration`: the amount by which the later time
/// precedes the reference point. Nothing is claimed of it.
#[verifier::external_body]
fn time_error_duration(e: &std::time::SystemTimeError) -> (d: std::time::Duration) {
    e.duration()
}

/// Calls `std::time::Duration::as_nanos`. Nothing is claimed of the count,
/// which is only ever applied to a duration read from the clock.
#[verifier::external_body]
fn std_duration_as_nanos(d: &std::time::Duration) -> (n: u128) {
    d.as_nanos()
}

/// The signed nanosecond offset from the Unix epoch for a clock reading that
/// lies `nanos` after it (`after`) or before it (`!after`), with the count
/// truncated to 64 bits as a cast does.
pub open spec fn signed_unix_offset(after: bool, nanos: u128) -> int {
    if after {
        nanos as i64 as int
    } else if nanos as i64 == i64::MIN {
        i64::MIN as int
    } else {
        -(nanos as i64 as int)
    }
}

/// Turns the distance of a clock reading from the Unix epoch into a signed
/// nanosecond count: positive after the epoch, negative before it.
pub fn unix_offset_nanos(after: bool, nanos: u128) -> (n: i64)
    ensures
        n == signed_unix_offset(after, nanos),
{
    let truncated = nanos as i64;
    if after {
        truncated
    } else if truncated == i64::MIN {
        i64::MIN
    } else {
        -truncated
    }
}

/// The current wall-clock time in nanoseconds since the Unix epoch.
///
/// The reading comes from the clock; what is stated is how the reading is
/// turned into a signed count.
pub fn now_unix_nano() -> (n: i64)
    ensures
        exists|after: bool, nanos: u128| #[trigger] reads_unix_offset(after, nanos) && n == signed_unix_offset(after, nanos),
{
    let read = system_time_now;
    let since = duration_since_unix_epoch;
    let before = time_error_duration;
    let count = std_duration_as_nanos;
    let now = read();
    let r = since(&now);
    match r {
        Ok(delta) => {
            let nanos = count(&delta);
            assert(reads_unix_offset(true, nanos));
            unix_offset_nanos(true, nanos)
        },
        Err(err) => {
            let delta = before(&err);
            let nanos = count(&delta);
            assert(reads_unix_offset(false, nanos));
            unix_offset_nanos(false, nanos)
        },
    }
}

/// Whether `nanos` is what measuring a reading of the system clock from the
/// Unix epoch may give: the distance after the epoch when `after`, and the
/// distance before it otherwise.
pub closed spec fn reads_unix_offset(after: bool, nanos: u128) -> bool {
    exists|t: std::time::SystemTime, r: Result<std::time::Duration, std::time::SystemTimeError>, d: std::time::Duration| {
        &&& call_ensures(system_time_now, (), t)
        &&& #[trigger] call_ensures(duration_since_unix_epoch, (&t,), r)
        &&& (match r {
            Ok(delta) => after && d == delta,
            Err(e) => !after && call_ensures(time_error_duration, (&e,), d),
        })
        &&& #[trigger] call_ensures(std_duration_as_nanos, (&d,), nanos)
    }
}

} // verus!
