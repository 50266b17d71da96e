//! The text of a month.
use crate::month::layout::{lemma_rows, WeekRow};
use crate::month::{Month, YearMonth};
use crate::text::{
    align_left, align_right, centered, decimal, lemma_decimal_len, push_centered, push_decimal,
    push_left, push_right, push_signed_decimal, signed_decimal,
};
use vstd::prelude::*;

verus! {

/// The width of a row of seven days: seven fields of two characters, and six
/// spaces between them.
pub const FIELD_WIDTH: usize = 20;

/// What ends every line: two spaces, as the traditional tool writes them, and
/// a line break.
pub open spec fn line_end() -> Seq<char> {
    "  \n"@
}

/// The line of weekday names, Sunday first.
pub open spec fn weekday_header() -> Seq<char> {
    "Su Mo Tu We Th Fr Sa"@
}

/// The English name of month `month`, 1 for January.
pub open spec fn month_name(month: int) -> Seq<char> {
    if month == 1 {
        "January"@
    } else if month == 2 {
        "February"@
    } else if month == 3 {
        "March"@
    } else if month == 4 {
        "April"@
    } else if month == 5 {
        "May"@
    } else if month == 6 {
        "June"@
    } else if month == 7 {
        "July"@
    } else if month == 8 {
        "August"@
    } else if month == 9 {
        "September"@
    } else if month == 10 {
        "October"@
    } else if month == 11 {
        "November"@
    } else {
        "December"@
    }
}

/// A day of the month in its field of two characters, at the right end.
pub open spec fn day_text(day: nat) -> Seq<char> {
    align_right(decimal(day), 2)
}

/// The days from `first` to `last`, each in its field, with one space between
/// two fields; nothing where `last` comes before `first`.
pub open spec fn week_text(first: nat, last: nat) -> Seq<char>
    decreases last,
{
    if last < first {
        Seq::empty()
    } else if last == first {
        day_text(first)
    } else {
        week_text(first, (last - 1) as nat) + " "@ + day_text(last)
    }
}

impl YearMonth {
    /// The heading of the month: its name and its year.
    pub open spec fn header(self) -> Seq<char> {
        month_name(self.month) + " "@ + signed_decimal(self.year)
    }

    /// The line of row `i`. The first row stands at the right end of the
    /// field and the last row at the left end; the rows between them fill the
    /// field by themselves.
    pub open spec fn row_line(self, i: int) -> Seq<char> {
        let days = week_text(self.row_first(i) as nat, self.row_last(i) as nat);
        if i == 0 {
            align_right(days, FIELD_WIDTH as int) + line_end()
        } else if i == self.row_count() - 1 {
            align_left(days, FIELD_WIDTH as int) + line_end()
        } else {
            days + line_end()
        }
    }

    /// The lines of the first `n` rows.
    pub open spec fn row_lines(self, n: int) -> Seq<char>
        decreases n,
    {
        if n <= 0 {
            Seq::empty()
        } else {
            self.row_lines(n - 1) + self.row_line(n - 1)
        }
    }

    /// The lines of all rows of the month.
    pub open spec fn weeks_text(self) -> Seq<char> {
        self.row_lines(self.row_count())
    }

    /// The month as text: the heading in the middle of its line, the line of
    /// weekday names, and the rows.
    pub open spec fn rendered(self) -> Seq<char> {
        centered(self.header(), FIELD_WIDTH as int) + line_end() + weekday_header() + line_end()
            + self.weeks_text()
    }
}

impl Month {
    /// The English name of the month.
    pub fn month_name(&self) -> (name: &'static str)
        ensures
            name@ == month_name(self@.month),
    {
        match self.month {
            1 => "January",
            2 => "February",
            3 => "March",
            4 => "April",
            5 => "May",
            6 => "June",
            7 => "July",
            8 => "August",
            9 => "September",
            10 => "October",
            11 => "November",
            _ => "December",
        }
    }

    /// The heading of the month, such as `March 2019`.
    pub fn month_header(&self) -> (text: String)
        ensures
            text@ == self@.header(),
    {
        let mut text = String::new();
        text.append(self.month_name());
        text.append(" ");
        push_signed_decimal(&mut text, self.year);
        assert(text@ =~= self@.header());
        text
    }

    /// The days of a row as text, such as ` 3  4  5  6  7  8  9`.
    pub fn format_week(row: &WeekRow) -> (text: String)
        ensures
            text@ == week_text(row.first as nat, row.last as nat),
    {
        let mut text = String::new();
        let mut day: u16 = row.first as u16;
        while day <= row.last as u16
            invariant
                row.first <= day,
                day <= row.last + 1 || day == row.first,
                day > row.first ==> text@ == week_text(row.first as nat, (day - 1) as nat),
                day == row.first ==> text@ == Seq::<char>::empty(),
            decreases row.last + 1 - day,
        {
            if day > row.first as u16 {
                text.append(" ");
            }
            let mut field = String::new();
            push_decimal(&mut field, day as u32);
            push_right(&mut text, field.as_str(), 2);
            assert(text@ =~= week_text(row.first as nat, day as nat));
            day = day + 1;
        }
        text
    }

    /// The lines of all rows of the month.
    pub fn weeks(&self) -> (text: String)
        ensures
            text@ == self@.weeks_text(),
    {
        let rows = self.layout_weeks();
        let last_week: usize = rows.len() - 1;
        let mut text = String::new();
        let mut i: usize = 0;
        while i < rows.len()
            invariant
                i <= rows.len(),
                last_week == rows.len() - 1,
                self@.laid_out_as(rows@),
                text@ == self@.row_lines(i as int),
            decreases rows.len() - i,
        {
            let row = rows[i];
            let days = Month::format_week(&row);
            if i == 0 {
                push_right(&mut text, days.as_str(), FIELD_WIDTH);
            } else if i == last_week {
                push_left(&mut text, days.as_str(), FIELD_WIDTH);
            } else {
                text.append(days.as_str());
            }
            text.append("  \n");
            assert(text@ =~= self@.row_lines(i as int) + self@.row_line(i as int));
            i = i + 1;
        }
        text
    }

    /// The month as text, ready to print.
    pub fn render(&self) -> (text: String)
        ensures
            text@ == self@.rendered(),
    {
        let mut text = String::new();
        let header = self.month_header();
        push_centered(&mut text, header.as_str(), FIELD_WIDTH);
        text.append("  \n");
        text.append("Su Mo Tu We Th Fr Sa");
        text.append("  \n");
        let weeks = self.weeks();
        text.append(weeks.as_str());
        assert(text@ =~= self@.rendered());
        text
    }
}

/// The days of a row take three characters each, less one: a row of seven
/// days fills the field.
pub proof fn lemma_week_text_len(first: nat, last: nat)
    requires
        first <= last <= 99,
    ensures
        week_text(first, last).len() == 3 * (last - first + 1) - 1,
    decreases last,
{
    reveal_strlit(" ");
    lemma_decimal_len(last);
    if first < last {
        lemma_week_text_len(first, (last - 1) as nat);
    }
}

/// The name of a month has from three to nine characters.
pub proof fn lemma_month_name_len(month: int)
    ensures
        3 <= month_name(month).len() <= 9,
{
    reveal_strlit("January");
    reveal_strlit("February");
    reveal_strlit("March");
    reveal_strlit("April");
    reveal_strlit("May");
    reveal_strlit("June");
    reveal_strlit("July");
    reveal_strlit("August");
    reveal_strlit("September");
    reveal_strlit("October");
    reveal_strlit("November");
    reveal_strlit("December");
}

/// Every line of a month's text fills the field of twenty characters and
/// ends with two spaces and a line break; the text has two lines more than
/// the month has rows.
pub proof fn lemma_line_widths(month: YearMonth, i: int)
    requires
        month.valid(),
        0 <= i < month.row_count(),
    ensures
        line_end().len() == 3,
        centered(month.header(), FIELD_WIDTH as int).len() == FIELD_WIDTH,
        weekday_header().len() == FIELD_WIDTH,
        month.row_line(i).len() == FIELD_WIDTH + 3,
        month.rendered().len() == (FIELD_WIDTH + 3) * (2 + month.row_count()),
{
    reveal_strlit("  \n");
    reveal_strlit(" ");
    reveal_strlit("Su Mo Tu We Th Fr Sa");
    lemma_month_name_len(month.month);
    lemma_decimal_len(month.year as nat);
    lemma_rows(month, i);
    lemma_week_text_len(month.row_first(i) as nat, month.row_last(i) as nat);
    lemma_row_lines_len(month, month.row_count());
}

/// The lines of the first `n` rows have twenty-three characters each.
proof fn lemma_row_lines_len(month: YearMonth, n: int)
    requires
        month.valid(),
        0 <= n <= month.row_count(),
    ensures
        month.row_lines(n).len() == (FIELD_WIDTH + 3) * n,
    decreases n,
{
    if n > 0 {
        reveal_strlit("  \n");
        lemma_row_lines_len(month, n - 1);
        lemma_rows(month, n - 1);
        lemma_week_text_len(month.row_first(n - 1) as nat, month.row_last(n - 1) as nat);
    }
}

} // verus!
