//! Runs of consecutive months.
use crate::month::{
    lemma_at_ordinal, lemma_ordinal, lemma_plus_plus, lemma_step, Month, YearMonth, MONTH_COUNT,
};
use vstd::prelude::*;

verus! {

/// What a `Month` or no month stands for.
pub open spec fn view_of(month: Option<Month>) -> Option<YearMonth> {
    match month {
        Some(m) => Some(m@),
        None => None,
    }
}

/// What each of `months` stands for.
pub open spec fn views(months: Seq<Month>) -> Seq<YearMonth> {
    months.map_values(|m: Month| m@)
}

/// `count` consecutive months, the first of them `start`; none where `count`
/// is not positive.
pub open spec fn months_from(start: YearMonth, count: int) -> Seq<YearMonth> {
    Seq::new(
        if count > 0 {
            count as nat
        } else {
            0
        },
        |i: int| start.plus(i),
    )
}

/// The number of months that a generator in `state` still gives: those from
/// its current month to the last month of the calendar.
pub open spec fn remaining(state: Option<YearMonth>) -> int {
    match state {
        Some(current) => MONTH_COUNT - current.ordinal(),
        None => 0,
    }
}

/// The state of a generator that was in `state` before it gave `count`
/// months.
pub open spec fn after(state: Option<YearMonth>, count: int) -> Option<YearMonth> {
    match state {
        Some(current) => if count < remaining(state) {
            Some(current.plus(count))
        } else {
            None
        },
        None => None,
    }
}

/// The months that a generator in `state` gives when asked for `count`: fewer
/// where the calendar ends before that.
pub open spec fn upcoming(state: Option<YearMonth>, count: int) -> Seq<YearMonth> {
    match state {
        Some(current) => months_from(
            current,
            if count < remaining(state) {
                count
            } else {
                remaining(state)
            },
        ),
        None => Seq::empty(),
    }
}

/// Gives a month and then the months after it, one at a time, up to the last
/// month of the calendar.
///
/// Its state is the month that it gives next, or nothing once it has given
/// December of year 9999.
#[derive(Debug)]
pub struct MonthGenerator {
    month: Option<Month>,
}

impl View for MonthGenerator {
    type V = Option<YearMonth>;

    closed spec fn view(&self) -> Option<YearMonth> {
        view_of(self.month)
    }
}

impl MonthGenerator {
    /// What holds of every generator: its current month is a month of the
    /// calendar.
    #[verifier::type_invariant]
    pub open spec fn well_formed(self) -> bool {
        self@ matches Some(current) ==> current.valid()
    }

    /// A generator that gives `start` first.
    pub fn new(start: Month) -> (generator: Self)
        ensures
            generator@ == Some(start@),
    {
        proof {
            use_type_invariant(&start);
        }
        MonthGenerator { month: Some(start) }
    }

    /// Gives the current month and moves on to the month after it. Gives
    /// nothing once the calendar has ended.
    pub fn next(&mut self) -> (month: Option<Month>)
        ensures
            view_of(month) == old(self)@,
            final(self)@ == match old(self)@ {
                Some(current) => if current.is_last() {
                    None
                } else {
                    Some(current.advance())
                },
                None => None,
            },
            final(self)@ == after(old(self)@, 1),
    {
        let current = self.month;
        match current {
            Some(month) => {
                let following = month.next();
                proof {
                    use_type_invariant(&month);
                    lemma_step(month@);
                    lemma_ordinal(month@);
                    if let Some(m) = following {
                        use_type_invariant(&m);
                    }
                }
                self.month = following;
            },
            None => {},
        }
        current
    }

    /// Passes over `n` months and gives the month after them, as `n + 1`
    /// calls of [`MonthGenerator::next`] do.
    pub fn nth(&mut self, n: usize) -> (month: Option<Month>)
        ensures
            view_of(month) == after(old(self)@, n as int),
            final(self)@ == after(old(self)@, n + 1),
    {
        proof {
            use_type_invariant(&*self);
        }
        let mut passed: usize = 0;
        while passed < n && self.month.is_some()
            invariant
                passed <= n,
                old(self)@ matches Some(current) ==> current.valid(),
                self@ == after(old(self)@, passed as int),
            decreases n - passed,
        {
            proof {
                lemma_after_after(old(self)@, passed as int, 1);
            }
            self.next();
            passed = passed + 1;
        }
        proof {
            lemma_after_after(old(self)@, passed as int, 1);
        }
        self.next()
    }

    /// Gives the next `count` months in order, or all that are left where the
    /// calendar ends before that.
    pub fn take(&mut self, count: usize) -> (months: Vec<Month>)
        ensures
            views(months@) == upcoming(old(self)@, count as int),
            final(self)@ == after(old(self)@, count as int),
    {
        proof {
            use_type_invariant(&*self);
        }
        let mut months: Vec<Month> = Vec::new();
        assert(views(months@) =~= upcoming(old(self)@, 0));
        while months.len() < count && self.month.is_some()
            invariant
                months.len() <= count,
                old(self)@ matches Some(current) ==> current.valid(),
                self@ == after(old(self)@, months.len() as int),
                views(months@) == upcoming(old(self)@, months.len() as int),
            decreases count - months.len(),
        {
            let ghost given = months@;
            proof {
                lemma_after_after(old(self)@, months.len() as int, 1);
            }
            match self.next() {
                Some(month) => {
                    months.push(month);
                    assert(views(months@) =~= views(given).push(month@));
                    assert(views(months@) =~= upcoming(old(self)@, months.len() as int));
                },
                None => {},
            }
        }
        assert(views(months@) =~= upcoming(old(self)@, count as int));
        months
    }
}

/// The months that a generator gives are months of the calendar that follow
/// each other: the first is its current month, and each other one is the
/// month after the one before it.
pub proof fn lemma_upcoming_follow(state: Option<YearMonth>, count: int, i: int)
    requires
        state matches Some(current) ==> current.valid(),
        0 <= i < upcoming(state, count).len(),
    ensures
        upcoming(state, count)[i].valid(),
        upcoming(state, count)[0] == state->0,
        i + 1 < upcoming(state, count).len() ==> upcoming(state, count)[i + 1] == upcoming(
            state,
            count,
        )[i].advance(),
{
    let current = state->0;
    lemma_ordinal(current);
    lemma_at_ordinal(current.ordinal() + i);
    lemma_step(current);
    lemma_step(current.plus(i));
    lemma_plus_plus(current, i, 1);
}

/// Giving `first` months and then `second` months leaves a generator where
/// giving `first + second` months at once leaves it.
pub proof fn lemma_after_after(state: Option<YearMonth>, first: int, second: int)
    requires
        state matches Some(current) ==> current.valid(),
        0 <= first,
        0 <= second,
    ensures
        after(after(state, first), second) == after(state, first + second),
        after(state, first) matches Some(current) ==> current.valid(),
        after(state, 0) == state,
{
    if let Some(current) = state {
        lemma_ordinal(current);
        lemma_step(current);
        if first < remaining(state) {
            lemma_at_ordinal(current.ordinal() + first);
            lemma_plus_plus(current, first, second);
        }
    }
}

} // verus!
