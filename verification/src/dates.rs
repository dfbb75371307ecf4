//! Calendar dates at day granularity, with proleptic-Gregorian validity,
//! strict `YYYY-MM-DD` parsing, and the ordering used for collections.
use vstd::prelude::*;

verus! {

/// A calendar date at day granularity.
#[derive(Clone, Copy, Debug, PartialEq, Eq, Structural)]
pub struct Date {
    pub year: u32,
    pub month: u32,
    pub day: u32,
}

/// A leap year in the proleptic Gregorian calendar.
pub open spec fn is_leap_year(y: int) -> bool {
    (y % 4 == 0 && y % 100 != 0) || y % 400 == 0
}

/// The number of days of month `m` of year `y`.
pub open spec fn days_in_month(y: int, m: int) -> int {
    if m == 2 {
        if is_leap_year(y) {
            29
        } else {
            28
        }
    } else if m == 4 || m == 6 || m == 9 || m == 11 {
        30
    } else {
        31
    }
}

impl Date {
    /// A well-formed date: a four-digit year and a day that exists in its
    /// month.
    pub open spec fn valid(self) -> bool {
        self.year <= 9999 && 1 <= self.month <= 12 && 1 <= self.day <= days_in_month(
            self.year as int,
            self.month as int,
        )
    }

    /// `self` is no later than `other` (lexicographic on year, month, day).
    pub open spec fn spec_le(self, other: Date) -> bool {
        if self.year != other.year {
            self.year < other.year
        } else if self.month != other.month {
            self.month < other.month
        } else {
            self.day <= other.day
        }
    }

    /// Decides `spec_le` on concrete dates.
    pub fn le(&self, other: &Date) -> (r: bool)
        ensures
            r == self.spec_le(*other),
    {
        if self.year != other.year {
            self.year < other.year
        } else if self.month != other.month {
            self.month < other.month
        } else {
            self.day <= other.day
        }
    }
}

/// An ASCII decimal digit.
pub open spec fn is_digit(c: char) -> bool {
    '0' as u32 <= c as u32 && c as u32 <= '9' as u32
}

/// The value of an ASCII decimal digit.
pub open spec fn digit_val(c: char) -> int {
    c as u32 - '0' as u32
}

/// The date denoted by a sequence of the exact shape `YYYY-MM-DD`, if it is
/// well formed and names an existing calendar day.
pub open spec fn parse_date(s: Seq<char>) -> Option<Date> {
    if s.len() == 10 && s[4] == '-' && s[7] == '-' && is_digit(s[0]) && is_digit(s[1]) && is_digit(
        s[2],
    ) && is_digit(s[3]) && is_digit(s[5]) && is_digit(s[6]) && is_digit(s[8]) && is_digit(s[9]) {
        let d = Date {
            year: (digit_val(s[0]) * 1000 + digit_val(s[1]) * 100 + digit_val(s[2]) * 10
                + digit_val(s[3])) as u32,
            month: (digit_val(s[5]) * 10 + digit_val(s[6])) as u32,
            day: (digit_val(s[8]) * 10 + digit_val(s[9])) as u32,
        };
        if d.valid() {
            Some(d)
        } else {
            None
        }
    } else {
        None
    }
}

fn digit_of(c: char) -> (r: u32)
    requires
        is_digit(c),
    ensures
        r == digit_val(c),
        r <= 9,
{
    c as u32 - '0' as u32
}

/// Decides `is_digit` on a concrete character.
pub fn check_digit(c: char) -> (r: bool)
    ensures
        r == is_digit(c),
{
    let u: u32 = c as u32;
    '0' as u32 <= u && u <= '9' as u32
}

/// Parses a `YYYY-MM-DD` string into a date, if it names an existing
/// calendar day; any other input yields `None`.
pub fn parse_date_str(s: &str) -> (r: Option<Date>)
    ensures
        r == parse_date(s@),
{
    let v = crate::text::to_chars(s);
    parse_date_chars(&v)
}

/// Parses a `YYYY-MM-DD` character sequence into a date, as `parse_date`.
pub fn parse_date_chars(v: &Vec<char>) -> (r: Option<Date>)
    ensures
        r == parse_date(v@),
{
    if v.len() != 10 {
        return None;
    }
    if v[4] != '-' || v[7] != '-' {
        return None;
    }
    let mut i: usize = 0;
    while i < 10
        invariant
            i <= 10,
            v@.len() == 10,
            forall|k: int| 0 <= k < i && k != 4 && k != 7 ==> is_digit(v@[k]),
        decreases 10 - i,
    {
        if i != 4 && i != 7 {
            if !check_digit(v[i]) {
                return None;
            }
        }
        i = i + 1;
    }
    let year: u32 = digit_of(v[0]) * 1000 + digit_of(v[1]) * 100 + digit_of(v[2]) * 10 + digit_of(v[3]);
    let month: u32 = digit_of(v[5]) * 10 + digit_of(v[6]);
    let day: u32 = digit_of(v[8]) * 10 + digit_of(v[9]);
    let d = Date { year, month, day };
    if month < 1 || month > 12 {
        return None;
    }
    let dim: u32 = days_in_month_exec(year, month);
    if day < 1 || day > dim {
        return None;
    }
    Some(d)
}

fn days_in_month_exec(y: u32, m: u32) -> (r: u32)
    ensures
        r == days_in_month(y as int, m as int),
{
    if m == 2 {
        if (y % 4 == 0 && y % 100 != 0) || y % 400 == 0 {
            29
        } else {
            28
        }
    } else if m == 4 || m == 6 || m == 9 || m == 11 {
        30
    } else {
        31
    }
}

/// `None` sorts before every date; two dates compare lexicographically.
/// This mirrors how optional dates are ordered when the collection is built.
pub open spec fn opt_date_lt(a: Option<Date>, b: Option<Date>) -> bool {
    match (a, b) {
        (Option::None, Option::None) => false,
        (Option::None, Option::Some(_)) => true,
        (Option::Some(_), Option::None) => false,
        (Option::Some(x), Option::Some(y)) => x.spec_le(y) && x != y,
    }
}

/// `a` sorts at or after `b`: the negation of `opt_date_lt(a, b)`.
pub open spec fn opt_date_ge(a: Option<Date>, b: Option<Date>) -> bool {
    !opt_date_lt(a, b)
}

/// Decides `opt_date_lt` on concrete optional dates.
pub fn opt_date_lt_exec(a: &Option<Date>, b: &Option<Date>) -> (r: bool)
    ensures
        r == opt_date_lt(*a, *b),
{
    match (a, b) {
        (Option::None, Option::None) => false,
        (Option::None, Option::Some(_)) => true,
        (Option::Some(_), Option::None) => false,
        (Option::Some(x), Option::Some(y)) => x.le(y) && !(x.year == y.year && x.month == y.month
            && x.day == y.day),
    }
}

/// The order on optional dates is transitive.
pub proof fn lemma_opt_date_lt_trans(a: Option<Date>, b: Option<Date>, c: Option<Date>)
    requires
        opt_date_lt(a, b),
        opt_date_lt(b, c),
    ensures
        opt_date_lt(a, c),
{
}

} // verus!
