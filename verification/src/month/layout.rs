//! The grid of a month: its days in Sunday-first rows.
use crate::month::{Month, YearMonth};
use vstd::prelude::*;

verus! {

/// One row of a month's grid: the days from `first` to `last`, both included.
#[derive(Debug, Clone, Copy, PartialEq, Eq, Structural)]
pub struct WeekRow {
    pub first: u8,
    pub last: u8,
}

impl WeekRow {
    /// The days of the row in order; none where `last` comes before `first`.
    pub open spec fn days(self) -> Seq<int> {
        Seq::new(
            if self.first <= self.last {
                (self.last - self.first + 1) as nat
            } else {
                0
            },
            |k: int| self.first + k,
        )
    }
}

/// The days of all `rows`, one row after the other.
pub open spec fn days_of(rows: Seq<WeekRow>) -> Seq<int>
    decreases rows.len(),
{
    if rows.len() == 0 {
        Seq::empty()
    } else {
        days_of(rows.drop_last()) + rows.last().days()
    }
}

/// The days from 1 to `count`; none where `count` is not positive.
pub open spec fn days_up_to(count: int) -> Seq<int> {
    Seq::new(
        if count > 0 {
            count as nat
        } else {
            0
        },
        |k: int| k + 1,
    )
}

impl YearMonth {
    /// The number of days in the first row of the month's grid: from the
    /// first of the month to the first Saturday.
    pub open spec fn first_row_len(self) -> int {
        7 - self.first_weekday()
    }

    /// The number of rows of the month's grid: the first row, and one for
    /// every seven days or part of seven days after it.
    pub open spec fn row_count(self) -> int {
        1 + (self.day_count() - self.first_row_len() + 6) / 7
    }

    /// The first day of row `i`, counting rows from 0.
    pub open spec fn row_first(self, i: int) -> int {
        if i <= 0 {
            1
        } else {
            self.first_row_len() + 7 * (i - 1) + 1
        }
    }

    /// The last day of row `i`: the Saturday of that row, or the last of the
    /// month where that comes sooner.
    pub open spec fn row_last(self, i: int) -> int {
        let saturday = self.first_row_len() + 7 * i;
        if saturday <= self.day_count() {
            saturday
        } else {
            self.day_count()
        }
    }

    /// Whether `rows` is the grid of the month, row by row.
    pub open spec fn laid_out_as(self, rows: Seq<WeekRow>) -> bool {
        &&& rows.len() == self.row_count()
        &&& forall|i: int|
            0 <= i < rows.len() ==> (#[trigger] rows[i]).first == self.row_first(i) && rows[i].last
                == self.row_last(i)
    }
}

impl Month {
    /// The grid of the month: its days in rows that each end on a Saturday or
    /// on the last of the month.
    pub fn layout_weeks(&self) -> (rows: Vec<WeekRow>)
        ensures
            self@.laid_out_as(rows@),
            4 <= rows.len() <= 6,
            days_of(rows@) == days_up_to(self@.day_count()),
    {
        let last_day: u8 = self.day_count();
        let first_len: u8 = 7 - self.first_weekday().days_from_sunday();
        let mut rows: Vec<WeekRow> = Vec::new();
        rows.push(WeekRow { first: 1, last: first_len });
        let mut start: u8 = 1 + first_len;
        while start <= last_day
            invariant
                28 <= last_day <= 31,
                last_day == self@.day_count(),
                first_len == self@.first_row_len(),
                1 <= first_len <= 7,
                1 <= rows.len() <= self@.row_count(),
                start == first_len + 7 * (rows.len() - 1) + 1,
                forall|i: int|
                    0 <= i < rows.len() ==> (#[trigger] rows[i]).first == self@.row_first(i)
                        && rows[i].last == self@.row_last(i),
            decreases 40 - start,
        {
            let saturday: u8 = start + 6;
            let end: u8 = if saturday <= last_day {
                saturday
            } else {
                last_day
            };
            rows.push(WeekRow { first: start, last: end });
            start = start + 7;
        }
        proof {
            use_type_invariant(self);
            lemma_grid_covers_month(self@, rows@);
        }
        rows
    }
}

/// The grid of a month has four to six rows, and its rows hold the days of
/// the month from the first to the last, each day once and in order.
pub proof fn lemma_grid_covers_month(month: YearMonth, rows: Seq<WeekRow>)
    requires
        month.valid(),
        month.laid_out_as(rows),
    ensures
        4 <= rows.len() <= 6,
        days_of(rows) == days_up_to(month.day_count()),
{
    lemma_days_of_prefix(month, rows, rows.len() as int);
    assert(rows.take(rows.len() as int) =~= rows);
}

/// The first row of a month's grid ends on the first Saturday, every row
/// after it starts on the day after the row before it ended, the rows between
/// the first and the last have seven days each, and the last row has from one
/// to seven days and ends on the last of the month.
pub proof fn lemma_rows(month: YearMonth, i: int)
    requires
        month.valid(),
        0 <= i < month.row_count(),
    ensures
        4 <= month.row_count() <= 6,
        month.row_first(0) == 1,
        month.row_last(0) == 7 - month.first_weekday(),
        1 <= month.row_first(i) <= month.row_last(i) <= month.day_count(),
        month.row_last(i) - month.row_first(i) < 7,
        0 < i ==> month.row_first(i) == month.row_last(i - 1) + 1,
        0 < i < month.row_count() - 1 ==> month.row_last(i) - month.row_first(i) + 1 == 7,
        month.row_last(month.row_count() - 1) == month.day_count(),
{
}

/// The first `n` rows of a month's grid hold the days from 1 to the last day
/// of row `n - 1`.
proof fn lemma_days_of_prefix(month: YearMonth, rows: Seq<WeekRow>, n: int)
    requires
        month.valid(),
        month.laid_out_as(rows),
        1 <= n <= rows.len(),
    ensures
        days_of(rows.take(n)) == days_up_to(month.row_last(n - 1)),
    decreases n,
{
    let prefix = rows.take(n);
    assert(prefix.drop_last() =~= rows.take(n - 1));
    assert(prefix.last() == rows[n - 1]);
    if n == 1 {
        assert(days_of(rows.take(0)) =~= Seq::<int>::empty());
        assert(days_of(prefix) =~= days_up_to(month.row_last(0)));
    } else {
        lemma_days_of_prefix(month, rows, n - 1);
        assert(rows[n - 2].last == month.row_last(n - 2));
        assert(days_of(prefix) =~= days_up_to(month.row_last(n - 1)));
    }
}

} // verus!
