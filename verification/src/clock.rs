use vstd::prelude::*;

verus! {

/// Microseconds in one second.
pub const MICROS_PER_SECOND: i64 = 1000000;

/// Microseconds in one day.
pub const MICROS_PER_DAY: i64 = 86400000000;

/// `chrono::Utc::now().timestamp_micros()`: the current time in microseconds
/// since the Unix epoch. Nothing is known of the value.
#[verifier::external_body]
fn utc_now_micros() -> (r: i64) {
    chrono::Utc::now().timestamp_micros()
}

/// The text `chrono` writes for an instant, given in microseconds since the
/// Unix epoch and read in UTC, under a strftime pattern; `None` where the
/// instant is outside the range `chrono` represents.
pub uninterp spec fn utc_formatted(micros: i64, pattern: Seq<char>) -> Option<Seq<char>>;

/// The instants, in microseconds since the Unix epoch, that fall well
/// inside the years `chrono` represents (about 253 000 years either side
/// of 1970; `chrono` reaches year 262 142 and back to year -262 143).
pub open spec fn within_chrono_range(micros: i64) -> bool {
    -CHRONO_SAFE_MICROS <= micros <= CHRONO_SAFE_MICROS
}

/// Bound on `within_chrono_range`: 8 * 10^18 microseconds.
pub const CHRONO_SAFE_MICROS: i64 = 8000000000000000000;

/// `DateTime::<Utc>::from_timestamp_micros` and `DateTime::format`,
/// written out with `to_string`. Only the two SigV4 patterns are used, both
/// of which `chrono` accepts, so writing them out cannot fail; the instant
/// is refused only outside the dates `chrono` represents, so every instant
/// within `within_chrono_range` gives a text.
#[verifier::external_body]
pub(crate) fn format_utc(micros: i64, pattern: &str) -> (r: Option<String>)
    requires
        pattern@ == "%Y%m%dT%H%M%SZ"@ || pattern@ == "%Y%m%d"@,
    ensures
        r matches Some(t) ==> utc_formatted(micros, pattern@) == Some(t@),
        r is None ==> utc_formatted(micros, pattern@) is None,
        within_chrono_range(micros) ==> r is Some,
{
    match chrono::DateTime::from_timestamp_micros(micros) {
        Some(instant) => Some(instant.format(pattern).to_string()),
        None => None,
    }
}

/// The wall clock.
#[derive(Debug, Default, Clone, Copy)]
pub struct SystemClock;

impl SystemClock {
    /// The current time in microseconds since the Unix epoch.
    pub fn now(&self) -> (r: i64) {
        utc_now_micros()
    }
}

/// A clock stopped at one instant, for tests.
#[derive(Debug, Clone, Copy)]
pub struct FixedClock {
    now: i64,
}

impl FixedClock {
    pub fn new(now: i64) -> (r: FixedClock)
        ensures
            r.now_view() == now,
    {
        FixedClock { now }
    }

    pub closed spec fn now_view(&self) -> i64 {
        self.now
    }

    /// The instant the clock is stopped at.
    pub fn now(&self) -> (r: i64)
        ensures
            r == self.now_view(),
    {
        self.now
    }
}

} // verus!
