//! Calendar days in UTC, counted as chrono counts them: day 1 is 0001-01-01.
use vstd::prelude::*;

verus! {

/// Day number of 0001-01-01.
pub const FIRST_DAY: i32 = 1;

/// Day number of 9999-12-31.
pub const LAST_DAY: i32 = 3652059;

/// Day number of 1970-01-01, the Unix epoch.
pub const EPOCH_DAY: i64 = 719163;

pub const MS_PER_DAY: i64 = 86400000;

pub const MS_PER_HOUR: i64 = 3600000;

/// The calendar date (year, month 1-based, day of month) of a day number.
pub uninterp spec fn civil_of_day(n: int) -> (int, int, int);

/// The day number of a calendar date (month 1-based), if that date exists.
pub uninterp spec fn day_of_civil(y: int, m: int, d: int) -> Option<int>;

/// Relies on chrono's `NaiveDate::from_num_days_from_ce_opt` with the `Datelike`
/// accessors `year`, `month` and `day`: every day number of the years 1 to 9999
/// lies inside chrono's range, and a month is 1 to 12, a day 1 to 31.
#[verifier::external_body]
fn civil_date(n: i32) -> (r: (i32, u32, u32))
    requires
        FIRST_DAY <= n <= LAST_DAY,
    ensures
        (r.0 as int, r.1 as int, r.2 as int) == civil_of_day(n as int),
        1 <= r.0 <= 9999,
        1 <= r.1 <= 12,
        1 <= r.2 <= 31,
{
    let d = chrono::NaiveDate::from_num_days_from_ce_opt(n).unwrap();
    (chrono::Datelike::year(&d), chrono::Datelike::month(&d), chrono::Datelike::day(&d))
}

/// Relies on chrono's `NaiveDate::from_ymd_opt` and `Datelike::num_days_from_ce`:
/// `None` where the date does not exist, else the date's day number.
#[verifier::external_body]
fn day_number(y: i32, m: u32, d: u32) -> (r: Option<i32>)
    ensures
        r is Some ==> day_of_civil(y as int, m as int, d as int) == Some(r->0 as int),
        r is None ==> day_of_civil(y as int, m as int, d as int) is None,
{
    match chrono::NaiveDate::from_ymd_opt(y, m, d) {
        Some(x) => Some(chrono::Datelike::num_days_from_ce(&x)),
        None => None,
    }
}

/// One calendar day in UTC between 0001-01-01 and 9999-12-31, held as its day
/// number.
#[derive(Clone, Copy, Debug, PartialEq, Eq)]
pub struct UtcDay {
    n: i32,
}

impl UtcDay {
    #[verifier::type_invariant]
    spec fn in_range(self) -> bool {
        FIRST_DAY <= self.n <= LAST_DAY
    }

    /// The day number.
    pub closed spec fn number(self) -> int {
        self.n as int
    }

    /// The day with the given number, if it lies between 0001-01-01 and 9999-12-31.
    pub fn from_number(n: i32) -> (r: Option<UtcDay>)
        ensures
            r is Some <==> FIRST_DAY <= n <= LAST_DAY,
            r is Some ==> r->0.number() == n,
    {
        if FIRST_DAY <= n && n <= LAST_DAY {
            Some(UtcDay { n })
        } else {
            None
        }
    }

    /// The day of a calendar date (month 1-based), if that date exists and
    /// lies between 0001-01-01 and 9999-12-31.
    pub fn from_ymd(year: i32, month: u32, day: u32) -> (r: Option<UtcDay>)
        ensures
            r is Some <==> (day_of_civil(year as int, month as int, day as int) matches Some(n)
                && FIRST_DAY <= n <= LAST_DAY),
            r is Some ==> day_of_civil(year as int, month as int, day as int) == Some(
                r->0.number(),
            ),
    {
        match day_number(year, month, day) {
            Some(n) => UtcDay::from_number(n),
            None => None,
        }
    }

    /// The day number.
    pub fn day_number(&self) -> (r: i32)
        ensures
            r == self.number(),
            FIRST_DAY <= r <= LAST_DAY,
    {
        proof {
            use_type_invariant(self);
        }
        self.n
    }

    /// Year, month (1-based) and day of month.
    pub fn ymd(&self) -> (r: (i32, u32, u32))
        ensures
            (r.0 as int, r.1 as int, r.2 as int) == civil_of_day(self.number()),
            1 <= r.0 <= 9999,
            1 <= r.1 <= 12,
            1 <= r.2 <= 31,
    {
        proof {
            use_type_invariant(self);
        }
        civil_date(self.n)
    }

    /// Milliseconds from the Unix epoch to the start of this day.
    pub fn start_millis(&self) -> (r: i64)
        ensures
            r == (self.number() - EPOCH_DAY) * MS_PER_DAY,
    {
        proof {
            use_type_invariant(self);
        }
        (self.n as i64 - EPOCH_DAY) * MS_PER_DAY
    }
}

} // verus!
