//! Calendar dates, ordered by year, month and day.

use vstd::prelude::*;
use chrono::NaiveDate;

verus! {

/// The text that chrono prints for the calendar day `year`-`month`-`day`,
/// where chrono knows such a day, and `None` where it knows none.
pub uninterp spec fn calendar_text(year: int, month: int, day: int) -> Option<Seq<char>>;

/// Calls `chrono::NaiveDate::from_ymd_opt` and, on a date, its `Display`.
/// Claimed: the outcome depends on the three numbers alone, and is the
/// outcome that `calendar_text` names.
#[verifier::external_body]
fn chrono_text(year: i32, month: u32, day: u32) -> (text: Option<String>)
    ensures
        match text {
            Some(s) => calendar_text(year as int, month as int, day as int) == Some(s@),
            None => calendar_text(year as int, month as int, day as int) is None,
        },
{
    match NaiveDate::from_ymd_opt(year, month, day) {
        Some(date) => Some(date.to_string()),
        None => None,
    }
}

/// A day of the calendar. Every value is a day that the calendar has.
#[derive(Clone, Copy, Debug, PartialEq, Eq, Structural)]
pub struct Date {
    pub(crate) year: i32,
    pub(crate) month: u32,
    pub(crate) day: u32,
}

impl Date {
    #[verifier::type_invariant]
    pub closed spec fn on_calendar(self) -> bool {
        calendar_text(self.year as int, self.month as int, self.day as int) is Some
    }

    pub closed spec fn spec_year(self) -> int {
        self.year as int
    }

    pub closed spec fn spec_month(self) -> int {
        self.month as int
    }

    pub closed spec fn spec_day(self) -> int {
        self.day as int
    }

    /// The position of the day in the order of all days: a later day has the
    /// larger number, and no two days share one.
    pub closed spec fn ordinal(self) -> int {
        self.year as int * 0x1_0000_0000_0000_0000 + self.month as int * 0x1_0000_0000
            + self.day as int
    }

    /// The date's text, `YYYY-MM-DD` for the years of four digits.
    pub closed spec fn spec_text(self) -> Seq<char> {
        calendar_text(self.year as int, self.month as int, self.day as int).unwrap()
    }

    /// The day with these numbers, if the calendar has it.
    pub fn from_ymd(year: i32, month: u32, day: u32) -> (date: Option<Date>)
        ensures
            date is Some <==> calendar_text(year as int, month as int, day as int) is Some,
            date matches Some(d) ==> d.spec_year() == year && d.spec_month() == month
                && d.spec_day() == day,
    {
        match chrono_text(year, month, day) {
            Some(_) => Some(Date { year, month, day }),
            None => None,
        }
    }

    pub fn year(&self) -> (y: i32)
        ensures
            y == self.spec_year(),
    {
        self.year
    }

    pub fn month(&self) -> (m: u32)
        ensures
            m == self.spec_month(),
    {
        self.month
    }

    pub fn day(&self) -> (d: u32)
        ensures
            d == self.spec_day(),
    {
        self.day
    }

    /// The text that the calendar prints for this day.
    pub fn text(&self) -> (text: String)
        ensures
            text@ == self.spec_text(),
    {
        proof {
            use_type_invariant(self);
        }
        match chrono_text(self.year, self.month, self.day) {
            Some(s) => s,
            None => String::new(),
        }
    }

    /// Whether this day comes before `other`.
    pub fn before(&self, other: &Date) -> (b: bool)
        ensures
            b == (self.ordinal() < other.ordinal()),
    {
        if self.year != other.year {
            self.year < other.year
        } else if self.month != other.month {
            self.month < other.month
        } else {
            self.day < other.day
        }
    }

    /// Whether this day is `other`.
    pub fn same(&self, other: &Date) -> (b: bool)
        ensures
            b == (*self == *other),
            b == (self.ordinal() == other.ordinal()),
    {
        self.year == other.year && self.month == other.month && self.day == other.day
    }

    /// The order of the days is the order of the years, within a year that of
    /// the months, and within a month that of the days.
    pub proof fn law_order_is_by_year_month_day(a: Date, b: Date)
        ensures
            a.ordinal() < b.ordinal() <==> (a.spec_year() < b.spec_year() || (a.spec_year()
                == b.spec_year() && (a.spec_month() < b.spec_month() || (a.spec_month()
                == b.spec_month() && a.spec_day() < b.spec_day())))),
    {
    }

    /// Two days at one position of the order are one day.
    pub proof fn lemma_ordinal_decides(a: Date, b: Date)
        ensures
            (a.ordinal() == b.ordinal()) <==> (a == b),
    {
    }
}

} // verus!
