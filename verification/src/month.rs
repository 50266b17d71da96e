//! A calendar month: which months there are, what the calendar says of one,
//! and the months before and after it.
//!
//! The grid of a month is in [`layout`], its text in [`render`], and runs of
//! consecutive months in [`iter`].
pub mod iter;
pub mod layout;
pub mod order;
pub mod render;

use crate::calendar::{
    days_before_month, days_before_year, days_in_month, days_in_year, first_weekday_index,
    in_range, month_length, weekday_of_first, MAX_YEAR, MIN_YEAR,
};
use crate::error::Error;
use vstd::prelude::*;

verus! {

/// The number of months of the calendar: twelve for each year from 1 to 9999.
pub const MONTH_COUNT: u32 = 119_988;

/// What a [`Month`] stands for: a year and a month number, 1 for January.
pub struct YearMonth {
    pub year: int,
    pub month: int,
}

impl YearMonth {
    /// Whether this is a month of the calendar: a year within 1..=9999 and a
    /// month number within 1..=12.
    pub open spec fn valid(self) -> bool {
        in_range(self.year, self.month)
    }

    /// The number of days of the month.
    pub open spec fn day_count(self) -> int {
        days_in_month(self.year, self.month)
    }

    /// The weekday of the first of the month in days from Sunday.
    pub open spec fn first_weekday(self) -> int {
        first_weekday_index(self.year, self.month)
    }

    /// Whether this is the first month of the calendar, January of year 1.
    pub open spec fn is_first(self) -> bool {
        self.year == MIN_YEAR && self.month == 1
    }

    /// Whether this is the last month of the calendar, December of year 9999.
    pub open spec fn is_last(self) -> bool {
        self.year == MAX_YEAR && self.month == 12
    }

    /// The month after this one: January of the next year after a December.
    pub open spec fn advance(self) -> YearMonth {
        if self.month >= 12 {
            YearMonth { year: self.year + 1, month: 1 }
        } else {
            YearMonth { year: self.year, month: self.month + 1 }
        }
    }

    /// The month before this one: December of the year before for a January.
    pub open spec fn backward(self) -> YearMonth {
        if self.month <= 1 {
            YearMonth { year: self.year - 1, month: 12 }
        } else {
            YearMonth { year: self.year, month: self.month - 1 }
        }
    }

    /// The place of the month in the calendar: 0 for January of year 1, and
    /// one more for each month after it.
    pub open spec fn ordinal(self) -> int {
        12 * (self.year - 1) + (self.month - 1)
    }

    /// The month at place `ordinal` of the calendar.
    pub open spec fn at_ordinal(ordinal: int) -> YearMonth {
        YearMonth { year: ordinal / 12 + 1, month: ordinal % 12 + 1 }
    }

    /// The month `count` months after this one, or before it where `count` is
    /// negative.
    pub open spec fn plus(self, count: int) -> YearMonth {
        YearMonth::at_ordinal(self.ordinal() + count)
    }

    /// Where `count` steps to the month before lead.
    pub open spec fn backward_by(self, count: nat) -> YearMonth
        decreases count,
    {
        if count == 0 {
            self
        } else {
            self.backward().backward_by((count - 1) as nat)
        }
    }

    /// Where `count` steps to the month after lead.
    pub open spec fn advance_by(self, count: nat) -> YearMonth
        decreases count,
    {
        if count == 0 {
            self
        } else {
            self.advance().advance_by((count - 1) as nat)
        }
    }

    /// Whether this month comes before `other`.
    pub open spec fn precedes(self, other: YearMonth) -> bool {
        self.year < other.year || (self.year == other.year && self.month < other.month)
    }
}

/// The month that `year` and `month` name, or why they name none: the year
/// where that is not within 1..=9999, else the month number.
pub open spec fn validated(year: i32, month: u16) -> Result<YearMonth, Error> {
    if !(MIN_YEAR <= year <= MAX_YEAR) {
        Err(Error::InvalidYear(year))
    } else if !(1 <= month <= 12) {
        Err(Error::InvalidMonth(month))
    } else {
        Ok(YearMonth { year: year as int, month: month as int })
    }
}

/// A day of the week.
#[derive(Debug, Clone, Copy, PartialEq, Eq, Structural)]
pub enum Weekday {
    Sunday,
    Monday,
    Tuesday,
    Wednesday,
    Thursday,
    Friday,
    Saturday,
}

impl Weekday {
    /// The number of days from Sunday to this day: 0 for Sunday, 6 for
    /// Saturday.
    pub open spec fn index(self) -> int {
        match self {
            Weekday::Sunday => 0,
            Weekday::Monday => 1,
            Weekday::Tuesday => 2,
            Weekday::Wednesday => 3,
            Weekday::Thursday => 4,
            Weekday::Friday => 5,
            Weekday::Saturday => 6,
        }
    }

    /// The number of days from Sunday to this day.
    pub fn days_from_sunday(self) -> (days: u8)
        ensures
            days == self.index(),
    {
        match self {
            Weekday::Sunday => 0,
            Weekday::Monday => 1,
            Weekday::Tuesday => 2,
            Weekday::Wednesday => 3,
            Weekday::Thursday => 4,
            Weekday::Friday => 5,
            Weekday::Saturday => 6,
        }
    }

    /// The day that comes `days` days after a Sunday.
    pub fn from_sunday(days: u8) -> (day: Weekday)
        ensures
            day.index() == days % 7,
    {
        match days % 7 {
            0 => Weekday::Sunday,
            1 => Weekday::Monday,
            2 => Weekday::Tuesday,
            3 => Weekday::Wednesday,
            4 => Weekday::Thursday,
            5 => Weekday::Friday,
            _ => Weekday::Saturday,
        }
    }
}

/// A month of a year between 1 and 9999.
///
/// A value of this type always names a month of the calendar: the only ways
/// to one are [`Month::new`] and [`Month::validate`], which check the year and
/// the month number, and the steps from a month to its neighbours.
#[derive(Debug, Clone, Copy, PartialEq, Eq, Structural, Ord, Hash)]
pub struct Month {
    year: i32,
    month: u8,
}

impl View for Month {
    type V = YearMonth;

    closed spec fn view(&self) -> YearMonth {
        YearMonth { year: self.year as int, month: self.month as int }
    }
}

impl Month {
    /// What holds of every `Month`.
    #[verifier::type_invariant]
    pub open spec fn well_formed(self) -> bool {
        self@.valid()
    }

    /// The month `month` of `year`, or nothing where the year is not within
    /// 1..=9999 or the month number not within 1..=12.
    pub fn new(year: i32, month: u8) -> (made: Option<Month>)
        ensures
            match made {
                Some(m) => in_range(year as int, month as int) && m@ == (YearMonth {
                    year: year as int,
                    month: month as int,
                }),
                None => !in_range(year as int, month as int),
            },
    {
        if MIN_YEAR <= year && year <= MAX_YEAR && 1 <= month && month <= 12 {
            Some(Month { year, month })
        } else {
            None
        }
    }

    /// The month `month` of `year`, or the reason why there is none: the year
    /// where that is out of range, else the month number.
    pub fn validate(year: i32, month: u16) -> (checked: Result<Month, Error>)
        ensures
            match checked {
                Ok(m) => validated(year, month) == Ok::<YearMonth, Error>(m@),
                Err(e) => validated(year, month) == Err::<YearMonth, Error>(e),
            },
    {
        if !(MIN_YEAR <= year && year <= MAX_YEAR) {
            Err(Error::InvalidYear(year))
        } else if !(1 <= month && month <= 12) {
            Err(Error::InvalidMonth(month))
        } else {
            Ok(Month { year, month: month as u8 })
        }
    }

    /// The year of the month.
    pub fn year(&self) -> (year: i32)
        ensures
            year == self@.year,
            MIN_YEAR <= year <= MAX_YEAR,
    {
        proof {
            use_type_invariant(self);
        }
        self.year
    }

    /// The number of the month in its year, from 1 for January to 12 for
    /// December.
    pub fn month_number(&self) -> (month: u8)
        ensures
            month == self@.month,
            1 <= month <= 12,
    {
        proof {
            use_type_invariant(self);
        }
        self.month
    }

    /// The number of days of the month.
    pub fn day_count(&self) -> (days: u8)
        ensures
            days == self@.day_count(),
            28 <= days <= 31,
    {
        proof {
            use_type_invariant(self);
        }
        month_length(self.year, self.month)
    }

    /// The weekday of the first of the month.
    pub fn first_weekday(&self) -> (day: Weekday)
        ensures
            day.index() == self@.first_weekday(),
    {
        proof {
            use_type_invariant(self);
        }
        Weekday::from_sunday(weekday_of_first(self.year, self.month))
    }

    /// The place of the month in the calendar, 0 for January of year 1.
    pub fn ordinal(&self) -> (ordinal: u32)
        ensures
            ordinal == self@.ordinal(),
            ordinal < MONTH_COUNT,
    {
        proof {
            use_type_invariant(self);
        }
        12 * (self.year as u32 - 1) + (self.month as u32 - 1)
    }

    /// The month after this one. There is none after December of year 9999.
    pub fn advance(&self) -> (next: Month)
        requires
            !self@.is_last(),
        ensures
            next@ == self@.advance(),
    {
        proof {
            use_type_invariant(self);
        }
        if self.month == 12 {
            Month { year: self.year + 1, month: 1 }
        } else {
            Month { year: self.year, month: self.month + 1 }
        }
    }

    /// The month before this one. There is none before January of year 1.
    pub fn backward(&self) -> (previous: Month)
        requires
            !self@.is_first(),
        ensures
            previous@ == self@.backward(),
    {
        proof {
            use_type_invariant(self);
        }
        if self.month == 1 {
            Month { year: self.year - 1, month: 12 }
        } else {
            Month { year: self.year, month: self.month - 1 }
        }
    }

    /// The month `count` months before this one: `count` steps to the month
    /// before. The calendar has to have that many months before this one.
    pub fn backward_by(&self, count: u16) -> (earlier: Month)
        requires
            count == 0 || count <= self@.ordinal(),
        ensures
            earlier@ == self@.backward_by(count as nat),
    {
        proof {
            use_type_invariant(self);
            lemma_step(self@);
        }
        let mut earlier = *self;
        let mut taken: u16 = 0;
        while taken < count
            invariant
                taken <= count,
                self@.valid(),
                count <= self@.ordinal(),
                earlier@ == self@.plus(-(taken as int)),
            decreases count - taken,
        {
            proof {
                use_type_invariant(&earlier);
                lemma_ordinal(self@);
                lemma_at_ordinal(self@.ordinal() - taken);
                lemma_step(earlier@);
                lemma_plus_plus(self@, -(taken as int), -1);
            }
            earlier = earlier.backward();
            taken = taken + 1;
        }
        proof {
            lemma_backward_by(self@, count as nat);
        }
        earlier
    }

    /// The month after this one, or nothing after the last month of the
    /// calendar.
    pub fn next(&self) -> (next: Option<Month>)
        ensures
            match next {
                Some(m) => !self@.is_last() && m@ == self@.advance(),
                None => self@.is_last(),
            },
    {
        if self.year == MAX_YEAR && self.month == 12 {
            None
        } else {
            Some(self.advance())
        }
    }

    /// The month before this one, or nothing before the first month of the
    /// calendar.
    pub fn prev(&self) -> (previous: Option<Month>)
        ensures
            match previous {
                Some(m) => !self@.is_first() && m@ == self@.backward(),
                None => self@.is_first(),
            },
    {
        if self.year == MIN_YEAR && self.month == 1 {
            None
        } else {
            Some(self.backward())
        }
    }
}

/// Two months are the same month exactly where they stand for the same year
/// and month number.
pub proof fn lemma_same_month(a: Month, b: Month)
    ensures
        a == b <==> a@ == b@,
{
}

/// Going back one month and forward again leads to the month one started
/// from, for every month but the first of the calendar, which has none before
/// it.
pub proof fn lemma_backward_then_advance(month: YearMonth)
    requires
        month.valid(),
        !month.is_first(),
    ensures
        month.backward().valid(),
        month.backward().advance() == month,
{
}

/// Going forward one month and back again leads to the month one started
/// from, for every month but the last of the calendar, which has none after
/// it.
pub proof fn lemma_advance_then_backward(month: YearMonth)
    requires
        month.valid(),
        !month.is_last(),
    ensures
        month.advance().valid(),
        month.advance().backward() == month,
{
}

/// Every month of the calendar has a place from 0 to `MONTH_COUNT - 1`, the
/// first month the first place and the last month the last, and is the month
/// at its place.
pub proof fn lemma_ordinal(month: YearMonth)
    requires
        month.valid(),
    ensures
        0 <= month.ordinal() < MONTH_COUNT,
        YearMonth::at_ordinal(month.ordinal()) == month,
        month.is_first() <==> month.ordinal() == 0,
        month.is_last() <==> month.ordinal() == MONTH_COUNT - 1,
{
}

/// At every place from 0 to `MONTH_COUNT - 1` stands a month of the calendar,
/// and that place is its own.
pub proof fn lemma_at_ordinal(ordinal: int)
    requires
        0 <= ordinal < MONTH_COUNT,
    ensures
        YearMonth::at_ordinal(ordinal).valid(),
        YearMonth::at_ordinal(ordinal).ordinal() == ordinal,
{
}

/// Of two months of the calendar one comes before the other or they are the
/// same month, and a month comes before another exactly where its place is
/// the smaller.
pub proof fn lemma_order(month: YearMonth, other: YearMonth)
    requires
        month.valid(),
        other.valid(),
    ensures
        month.precedes(other) <==> month.ordinal() < other.ordinal(),
        month == other <==> month.ordinal() == other.ordinal(),
        month.precedes(other) || month == other || other.precedes(month),
        !(month.precedes(other) && other.precedes(month)),
{
}

/// A step to the next month is a step of one place, and so is a step to the
/// month before.
pub proof fn lemma_step(month: YearMonth)
    requires
        month.valid(),
    ensures
        month.advance() == month.plus(1),
        month.backward() == month.plus(-1),
        month.plus(0) == month,
{
}

/// Steps add up: `first` months and then `second` months from a month are
/// `first + second` months from it, as long as the first stop is a month of
/// the calendar.
pub proof fn lemma_plus_plus(month: YearMonth, first: int, second: int)
    requires
        month.valid(),
        0 <= month.ordinal() + first < MONTH_COUNT,
    ensures
        month.plus(first).plus(second) == month.plus(first + second),
{
}

/// To go `count` months back is to take `count` steps to the month before,
/// as long as the calendar has that many months before the month.
pub proof fn lemma_backward_by(month: YearMonth, count: nat)
    requires
        month.valid(),
        count <= month.ordinal(),
    ensures
        month.backward_by(count) == month.plus(-count),
        month.plus(-count).valid(),
    decreases count,
{
    lemma_ordinal(month);
    lemma_at_ordinal(month.ordinal() - count);
    lemma_step(month);
    if count > 0 {
        lemma_backward_by(month.backward(), (count - 1) as nat);
        lemma_plus_plus(month, -1, 1 - count);
    }
}

/// To go `count` months on is to take `count` steps to the month after, as
/// long as the calendar has that many months after the month.
pub proof fn lemma_advance_by(month: YearMonth, count: nat)
    requires
        month.valid(),
        month.ordinal() + count < MONTH_COUNT,
    ensures
        month.advance_by(count) == month.plus(count as int),
        month.plus(count as int).valid(),
    decreases count,
{
    lemma_ordinal(month);
    lemma_at_ordinal(month.ordinal() + count);
    lemma_step(month);
    if count > 0 {
        lemma_advance_by(month.advance(), (count - 1) as nat);
        lemma_plus_plus(month, 1, count - 1);
    }
}

/// A year is as long as its twelve months together.
pub proof fn lemma_year_of_months(year: int)
    ensures
        days_before_month(year, 12) + days_in_month(year, 12) == days_in_year(year),
{
    let february = days_in_month(year, 2);
    assert(days_before_month(year, 1) == 0);
    assert(days_before_month(year, 2) == 31);
    assert(days_before_month(year, 3) == 31 + february);
    assert(days_before_month(year, 4) == 62 + february);
    assert(days_before_month(year, 5) == 92 + february);
    assert(days_before_month(year, 6) == 123 + february);
    assert(days_before_month(year, 7) == 153 + february);
    assert(days_before_month(year, 8) == 184 + february);
    assert(days_before_month(year, 9) == 215 + february);
    assert(days_before_month(year, 10) == 245 + february);
    assert(days_before_month(year, 11) == 276 + february);
    assert(days_before_month(year, 12) == 306 + february);
}

/// The days before the year after `year` are the days before `year` and the
/// days of `year` itself.
pub proof fn lemma_days_before_next_year(year: int)
    ensures
        days_before_year(year + 1) == days_before_year(year) + days_in_year(year),
{
}

/// The weekday on which a month starts and the number of its days give the
/// weekday on which the next month starts.
pub proof fn lemma_next_first_weekday(month: YearMonth)
    requires
        month.valid(),
    ensures
        0 <= month.first_weekday() < 7,
        month.advance().first_weekday() == (month.first_weekday() + month.day_count()) % 7,
{
    if month.month == 12 {
        lemma_year_of_months(month.year);
        lemma_days_before_next_year(month.year);
    } else {
        assert(days_before_month(month.year, month.month + 1) == days_before_month(
            month.year,
            month.month,
        ) + days_in_month(month.year, month.month));
    }
}

} // verus!
