use calr::error::Error;
use calr::month::Month;
use calr::opt::Opt;
use calr::request::{anchor, months, render_all};

fn month(year: i32, number: u8) -> Month {
    Month::new(year, number).unwrap()
}

fn opt(year: Option<u16>, month: Option<u16>, before: u16, after: u16) -> Opt {
    Opt { year, month, months_after: after, months_before: before }
}

#[test]
fn two_months_before_and_one_after_march_2019() {
    let now = month(2024, 7);
    let listed = months(now, &opt(Some(2019), Some(3), 2, 1)).unwrap();
    assert_eq!(listed, vec![month(2019, 1), month(2019, 2), month(2019, 3), month(2019, 4)]);
    let text = render_all(&listed);
    let blocks: Vec<String> = listed.iter().map(|m| m.render()).collect();
    assert_eq!(text, blocks.join("\n"));
    let headers: Vec<&str> = text
        .lines()
        .filter(|line| line.trim().ends_with("2019"))
        .map(|line| line.trim())
        .collect();
    assert_eq!(headers, vec!["January 2019", "February 2019", "March 2019", "April 2019"]);
}

#[test]
fn a_request_without_year_and_month_is_for_the_current_month() {
    let now = month(2024, 7);
    assert_eq!(anchor(now, &opt(None, None, 0, 0)), Ok(now));
    assert_eq!(months(now, &opt(None, None, 0, 0)), Ok(vec![now]));
    assert_eq!(anchor(now, &opt(Some(2019), None, 0, 0)), Ok(month(2019, 7)));
    assert_eq!(anchor(now, &opt(None, Some(3), 0, 0)), Ok(month(2024, 3)));
    assert_eq!(anchor(now, &opt(Some(2019), Some(3), 5, 5)), Ok(month(2019, 3)));
}

#[test]
fn a_request_for_a_year_that_the_calendar_lacks() {
    let now = month(2024, 7);
    assert_eq!(months(now, &opt(Some(0), None, 0, 0)), Err(Error::InvalidYear(0)));
    assert_eq!(months(now, &opt(Some(10000), Some(3), 1, 1)), Err(Error::InvalidYear(10000)));
    assert_eq!(anchor(now, &opt(Some(65535), None, 0, 0)), Err(Error::InvalidYear(65535)));
}

#[test]
fn a_request_for_a_month_that_no_year_has() {
    let now = month(2024, 7);
    assert_eq!(months(now, &opt(None, Some(0), 0, 0)), Err(Error::InvalidMonth(0)));
    assert_eq!(months(now, &opt(Some(2019), Some(13), 2, 2)), Err(Error::InvalidMonth(13)));
    assert_eq!(anchor(now, &opt(None, Some(300), 0, 0)), Err(Error::InvalidMonth(300)));
}

#[test]
fn a_wrong_year_is_reported_before_a_wrong_month() {
    let now = month(2024, 7);
    assert_eq!(months(now, &opt(Some(0), Some(13), 0, 0)), Err(Error::InvalidYear(0)));
}

#[test]
fn months_before_reach_into_the_year_before() {
    let now = month(2024, 2);
    let listed = months(now, &opt(None, None, 3, 0)).unwrap();
    assert_eq!(listed, vec![month(2023, 11), month(2023, 12), month(2024, 1), month(2024, 2)]);
}

#[test]
fn months_before_can_reach_the_first_month_of_the_calendar() {
    let now = month(2024, 2);
    let listed = months(now, &opt(Some(1), Some(3), 2, 0)).unwrap();
    assert_eq!(listed, vec![month(1, 1), month(1, 2), month(1, 3)]);
}

#[test]
fn months_after_stop_at_the_last_month_of_the_calendar() {
    let now = month(2024, 2);
    let listed = months(now, &opt(Some(9999), Some(11), 1, 5)).unwrap();
    assert_eq!(listed, vec![month(9999, 10), month(9999, 11), month(9999, 12)]);
    let listed = months(now, &opt(Some(9999), Some(12), 0, 65535)).unwrap();
    assert_eq!(listed, vec![month(9999, 12)]);
}

#[test]
fn the_largest_request_ends_with_the_calendar() {
    let now = month(5463, 1);
    assert_eq!(now.ordinal(), 65544);
    let listed = months(now, &opt(None, None, 65535, 65535)).unwrap();
    assert_eq!(listed.len(), 119988 - 9);
    assert_eq!(listed[0], month(1, 10));
    assert_eq!(listed[65535], now);
    assert_eq!(listed[listed.len() - 1], month(9999, 12));
}

#[test]
fn a_large_request_in_the_middle_of_the_calendar_has_every_month_asked_for() {
    let now = month(5000, 6);
    let listed = months(now, &opt(None, None, 30000, 40000)).unwrap();
    assert_eq!(listed.len(), 70001);
    assert_eq!(listed[30000], now);
    assert_eq!(listed[0].ordinal() + 30000, now.ordinal());
    assert_eq!(listed[70000].ordinal(), now.ordinal() + 40000);
}

#[test]
fn render_all_of_no_month_is_empty() {
    assert_eq!(render_all(&vec![]), "");
}

#[test]
fn render_all_of_one_month_is_that_month() {
    let march = month(2019, 3);
    assert_eq!(render_all(&vec![march]), march.render());
}

#[test]
fn render_all_puts_a_line_break_between_two_months() {
    let text = render_all(&vec![month(2019, 3), month(2019, 4)]);
    assert_eq!(
        text,
        "     March 2019       \n\
         Su Mo Tu We Th Fr Sa  \n\
         \x20               1  2  \n\
         \x203  4  5  6  7  8  9  \n\
         10 11 12 13 14 15 16  \n\
         17 18 19 20 21 22 23  \n\
         24 25 26 27 28 29 30  \n\
         31                    \n\
         \n\
         \x20    April 2019       \n\
         Su Mo Tu We Th Fr Sa  \n\
         \x20   1  2  3  4  5  6  \n\
         \x207  8  9 10 11 12 13  \n\
         14 15 16 17 18 19 20  \n\
         21 22 23 24 25 26 27  \n\
         28 29 30              \n"
    );
}
