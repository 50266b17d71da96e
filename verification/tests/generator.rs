use calr::month::iter::MonthGenerator;
use calr::month::Month;

fn month(year: i32, number: u8) -> Month {
    Month::new(year, number).unwrap()
}

#[test]
fn next_gives_the_start_first_and_then_the_months_after_it() {
    let mut generator = MonthGenerator::new(month(2019, 11));
    assert_eq!(generator.next(), Some(month(2019, 11)));
    assert_eq!(generator.next(), Some(month(2019, 12)));
    assert_eq!(generator.next(), Some(month(2020, 1)));
    assert_eq!(generator.next(), Some(month(2020, 2)));
}

#[test]
fn next_gives_nothing_after_the_last_month_of_the_calendar() {
    let mut generator = MonthGenerator::new(month(9999, 11));
    assert_eq!(generator.next(), Some(month(9999, 11)));
    assert_eq!(generator.next(), Some(month(9999, 12)));
    assert_eq!(generator.next(), None);
    assert_eq!(generator.next(), None);
}

#[test]
fn nth_of_nothing_is_the_start() {
    let mut generator = MonthGenerator::new(month(2019, 1));
    assert_eq!(generator.nth(0), Some(month(2019, 1)));
    assert_eq!(generator.nth(0), Some(month(2019, 2)));
    assert_eq!(generator.nth(9), Some(month(2019, 12)));
    assert_eq!(generator.next(), Some(month(2020, 1)));
}

#[test]
fn nth_beyond_the_calendar_is_nothing() {
    let mut generator = MonthGenerator::new(month(9999, 10));
    assert_eq!(generator.nth(3), None);
    assert_eq!(generator.next(), None);
    let mut generator = MonthGenerator::new(month(9999, 10));
    assert_eq!(generator.nth(2), Some(month(9999, 12)));
    assert_eq!(generator.nth(0), None);
    let mut generator = MonthGenerator::new(month(2019, 1));
    assert_eq!(generator.nth(usize::MAX), None);
}

#[test]
fn take_gives_consecutive_months() {
    let mut generator = MonthGenerator::new(month(2019, 11));
    assert_eq!(
        generator.take(4),
        vec![month(2019, 11), month(2019, 12), month(2020, 1), month(2020, 2)]
    );
    assert_eq!(generator.next(), Some(month(2020, 3)));
}

#[test]
fn take_of_none_gives_none_and_leaves_the_generator() {
    let mut generator = MonthGenerator::new(month(2019, 11));
    assert_eq!(generator.take(0), vec![]);
    assert_eq!(generator.next(), Some(month(2019, 11)));
}

#[test]
fn take_stops_where_the_calendar_ends() {
    let mut generator = MonthGenerator::new(month(9999, 11));
    assert_eq!(generator.take(5), vec![month(9999, 11), month(9999, 12)]);
    assert_eq!(generator.take(5), vec![]);
    assert_eq!(generator.next(), None);
}

#[test]
fn take_is_what_repeated_next_gives() {
    let mut all = MonthGenerator::new(month(1, 1));
    let taken = all.take(usize::MAX);
    assert_eq!(taken.len(), 119988);
    let mut one_by_one = MonthGenerator::new(month(1, 1));
    for m in &taken {
        assert_eq!(one_by_one.next(), Some(*m));
    }
    assert_eq!(one_by_one.next(), None);
    assert_eq!(taken[0], month(1, 1));
    assert_eq!(taken[119987], month(9999, 12));
}
