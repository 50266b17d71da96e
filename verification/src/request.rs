//! From a request to the months it asks for, and to their text.
use crate::calendar::{MAX_YEAR, MIN_YEAR};
use crate::error::Error;
use crate::month::iter::{upcoming, views, MonthGenerator};
use crate::month::{Month, YearMonth};
use crate::opt::Opt;
use vstd::prelude::*;

verus! {

/// The month that a request is centred on: the year and the month that it
/// names, each taken from `now` where the request names none. A year or month
/// that the request names and the calendar does not have is an error, the
/// year first.
pub open spec fn anchor_of(now: YearMonth, opt: Opt) -> Result<YearMonth, Error> {
    if opt.year is Some && !(MIN_YEAR <= opt.year->0 <= MAX_YEAR) {
        Err(Error::InvalidYear(opt.year->0 as i32))
    } else if opt.month is Some && !(1 <= opt.month->0 <= 12) {
        Err(Error::InvalidMonth(opt.month->0))
    } else {
        Ok(
            YearMonth {
                year: match opt.year {
                    Some(year) => year as int,
                    None => now.year,
                },
                month: match opt.month {
                    Some(month) => month as int,
                    None => now.month,
                },
            },
        )
    }
}

/// The months that a request asks for: those before its anchor, the anchor,
/// and those after it, as far as the calendar goes. The first of them is
/// found by as many steps back from the anchor as the request asks for months
/// before it.
pub open spec fn requested(now: YearMonth, opt: Opt) -> Result<Seq<YearMonth>, Error> {
    match anchor_of(now, opt) {
        Ok(anchor) => Ok(
            upcoming(
                Some(anchor.backward_by(opt.months_before as nat)),
                opt.months_before + opt.months_after + 1,
            ),
        ),
        Err(e) => Err(e),
    }
}

/// The text of `months`: the text of each month, with one line break between
/// two months.
pub open spec fn calendar_text(months: Seq<YearMonth>) -> Seq<char>
    decreases months.len(),
{
    if months.len() == 0 {
        Seq::empty()
    } else if months.len() == 1 {
        months[0].rendered()
    } else {
        calendar_text(months.drop_last()) + "\n"@ + months.last().rendered()
    }
}

/// The month that a request is centred on, where `now` is the current month.
pub fn anchor(now: Month, opt: &Opt) -> (anchor: Result<Month, Error>)
    ensures
        match anchor {
            Ok(m) => anchor_of(now@, *opt) == Ok::<YearMonth, Error>(m@),
            Err(e) => anchor_of(now@, *opt) == Err::<YearMonth, Error>(e),
        },
{
    let year: i32 = match opt.year {
        Some(year) => year as i32,
        None => now.year(),
    };
    let month: u16 = match opt.month {
        Some(month) => month,
        None => now.month_number() as u16,
    };
    Month::validate(year, month)
}

/// The months that a request asks for, where `now` is the current month.
///
/// Where the request asks for months before its anchor, these have to be
/// months of the calendar: a request that reaches back before January of
/// year 1 is not served. A caller finds the anchor with [`anchor`], and the
/// number of months that the calendar has before it with [`Month::ordinal`].
pub fn months(now: Month, opt: &Opt) -> (listed: Result<Vec<Month>, Error>)
    requires
        opt.months_before == 0 || match anchor_of(now@, *opt) {
            Ok(anchor) => opt.months_before <= anchor.ordinal(),
            Err(_) => true,
        },
    ensures
        match listed {
            Ok(months) => requested(now@, *opt) == Ok::<Seq<YearMonth>, Error>(views(months@)),
            Err(e) => requested(now@, *opt) == Err::<Seq<YearMonth>, Error>(e),
        },
{
    let anchor = match anchor(now, opt) {
        Ok(anchor) => anchor,
        Err(e) => {
            return Err(e);
        },
    };
    proof {
        use_type_invariant(&anchor);
    }
    let start = anchor.backward_by(opt.months_before);
    let mut generator = MonthGenerator::new(start);
    let count: usize = opt.months_after as usize + opt.months_before as usize + 1;
    Ok(generator.take(count))
}

/// The text of `months`, ready to print: the text of each month, with one
/// line break between two months.
pub fn render_all(months: &Vec<Month>) -> (text: String)
    ensures
        text@ == calendar_text(views(months@)),
{
    let mut text = String::new();
    let mut i: usize = 0;
    while i < months.len()
        invariant
            i <= months.len(),
            text@ == calendar_text(views(months@).take(i as int)),
        decreases months.len() - i,
    {
        if i > 0 {
            text.append("\n");
        }
        let block = months[i].render();
        text.append(block.as_str());
        proof {
            let done = views(months@).take(i + 1);
            assert(done.drop_last() =~= views(months@).take(i as int));
            assert(done.last() == months[i as int]@);
            assert(text@ =~= calendar_text(done));
        }
        i = i + 1;
    }
    assert(views(months@).take(months.len() as int) =~= views(months@));
    text
}

} // verus!
