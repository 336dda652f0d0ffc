//! Points in time, held as microseconds since the Unix epoch, within the
//! range that `chrono::DateTime<Utc>` can represent.

use vstd::prelude::*;

verus! {

/// Whether `chrono::DateTime::<Utc>::from_timestamp_micros` accepts this
/// number of microseconds: it lies between `DateTime::<Utc>::MIN_UTC` and
/// `MAX_UTC` (the years -262143 and 262142), written in microseconds.
pub open spec fn micros_in_range(us: int) -> bool {
    -8_334_601_228_800_000_000 <= us <= 8_210_266_876_799_999_999
}

/// Whether `chrono::DateTime::<Utc>::from_timestamp_millis` accepts this
/// number of milliseconds: `MIN_UTC` to `MAX_UTC` in whole milliseconds.
pub open spec fn millis_in_range(ms: int) -> bool {
    -8_334_601_228_800_000 <= ms <= 8_210_266_876_799_999
}

/// Calls `chrono::DateTime::<Utc>::from_timestamp_micros` and reports
/// whether it returned a value. chrono turns the count into whole seconds
/// and a remainder and accepts it exactly when the date falls within its
/// `MIN_UTC` to `MAX_UTC` range.
#[verifier::external_body]
fn chrono_accepts_micros(us: i64) -> (b: bool)
    ensures
        b == micros_in_range(us as int),
{
    chrono::DateTime::from_timestamp_micros(us).is_some()
}

/// Calls `chrono::DateTime::<Utc>::from_timestamp_millis` and reports
/// whether it returned a value: exactly when the count falls within
/// chrono's `MIN_UTC` to `MAX_UTC` range.
#[verifier::external_body]
fn chrono_accepts_millis(ms: i64) -> (b: bool)
    ensures
        b == millis_in_range(ms as int),
{
    chrono::DateTime::from_timestamp_millis(ms).is_some()
}

/// Reads the system clock: `std::time::SystemTime::now()` and its
/// `duration_since(UNIX_EPOCH)`, in whole microseconds; `None` when the
/// clock reads before 1970 (where `chrono::Utc::now` would panic). What the
/// clock reads is not stated.
#[verifier::external_body]
fn clock_micros() -> (r: Option<u128>) {
    std::time::SystemTime::now().duration_since(std::time::UNIX_EPOCH).ok().map(|d| d.as_micros())
}

/// A UTC instant at microsecond precision.
#[derive(Clone, Copy, Debug, PartialEq, Eq, Structural)]
pub struct Timestamp {
    micros: i64,
}

impl Timestamp {
    #[verifier::type_invariant]
    spec fn wf(self) -> bool {
        micros_in_range(self.micros as int)
    }

    /// Microseconds since 1970-01-01T00:00:00Z.
    pub closed spec fn spec_micros(self) -> int {
        self.micros as int
    }

    /// A timestamp is valid when chrono can represent it; every value of
    /// this type is.
    pub open spec fn valid(self) -> bool {
        micros_in_range(self.spec_micros())
    }

    /// The count of microseconds fits in an `i64`.
    pub proof fn lemma_fits_i64(self)
        ensures
            i64::MIN <= self.spec_micros() <= i64::MAX,
    {
    }

    pub fn micros(&self) -> (us: i64)
        ensures
            us == self.spec_micros(),
            self.valid(),
    {
        proof {
            use_type_invariant(self);
        }
        self.micros
    }

    /// The instant `us` microseconds after the epoch, or `None` when chrono
    /// cannot represent it.
    pub fn from_micros(us: i64) -> (r: Option<Timestamp>)
        ensures
            r.is_some() == micros_in_range(us as int),
            r matches Some(t) ==> t.spec_micros() == us,
    {
        if chrono_accepts_micros(us) {
            Some(Timestamp { micros: us })
        } else {
            None
        }
    }

    /// The instant `ms` milliseconds after the epoch, or `None` when chrono
    /// cannot represent it.
    pub fn from_millis(ms: i64) -> (r: Option<Timestamp>)
        ensures
            r.is_some() == millis_in_range(ms as int),
            r matches Some(t) ==> t.spec_micros() == ms * 1000,
    {
        if chrono_accepts_millis(ms) {
            Some(Timestamp { micros: ms * 1000 })
        } else {
            None
        }
    }

    /// The instant a clock reading of `us` microseconds after the epoch
    /// stands for, or `None` when chrono cannot represent it.
    pub fn from_clock_micros(us: u128) -> (r: Option<Timestamp>)
        ensures
            r is Some == (us <= i64::MAX && micros_in_range(us as int)),
            r matches Some(t) ==> t.spec_micros() == us,
    {
        if us <= 9_223_372_036_854_775_807u128 {
            Timestamp::from_micros(us as i64)
        } else {
            None
        }
    }

    /// The current time: the clock's reading through
    /// [`Timestamp::from_clock_micros`], or `None` when the clock reads
    /// before 1970 or past chrono's range; what the clock reads is not
    /// stated.
    pub fn now() -> (r: Option<Timestamp>)
        ensures
            r matches Some(t) ==> t.valid(),
    {
        match clock_micros() {
            Some(us) => Timestamp::from_clock_micros(us),
            None => None,
        }
    }
}

/// Whole minutes in a signed span of microseconds, rounded toward zero, as
/// `TimeDelta::num_minutes` counts them.
pub open spec fn whole_minutes(us: int) -> int {
    if us >= 0 {
        us / 60_000_000
    } else {
        -((-us) / 60_000_000)
    }
}

/// Counting whole minutes never goes backwards: a longer span has at
/// least as many.
pub proof fn lemma_whole_minutes_monotone(a: int, b: int)
    requires
        a <= b,
    ensures
        whole_minutes(a) <= whole_minutes(b),
{
    if a >= 0 {
        vstd::arithmetic::div_mod::lemma_div_is_ordered(a, b, 60_000_000);
    } else if b >= 0 {
        vstd::arithmetic::div_mod::lemma_div_is_ordered(0, -a, 60_000_000);
        vstd::arithmetic::div_mod::lemma_div_is_ordered(0, b, 60_000_000);
    } else {
        vstd::arithmetic::div_mod::lemma_div_is_ordered(-b, -a, 60_000_000);
    }
}

/// Whole minutes from `earlier` to `later`.
pub fn minutes_between(earlier: Timestamp, later: Timestamp) -> (m: i64)
    ensures
        m == whole_minutes(later.spec_micros() - earlier.spec_micros()),
{
    let d: i128 = later.micros() as i128 - earlier.micros() as i128;
    let m: i128 = if d >= 0 {
        d / 60_000_000
    } else {
        -((-d) / 60_000_000)
    };
    m as i64
}

} // verus!
