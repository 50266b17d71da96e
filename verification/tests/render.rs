use calr::month::layout::WeekRow;
use calr::month::Month;

fn lines(rows: &[&str]) -> String {
    let mut text = String::new();
    for row in rows {
        text.push_str(row);
        text.push('\n');
    }
    text
}

#[test]
fn march_2019_as_text() {
    let text = Month::new(2019, 3).unwrap().render();
    assert_eq!(
        text,
        "     March 2019       \n\
         Su Mo Tu We Th Fr Sa  \n\
         \x20               1  2  \n\
         \x203  4  5  6  7  8  9  \n\
         10 11 12 13 14 15 16  \n\
         17 18 19 20 21 22 23  \n\
         24 25 26 27 28 29 30  \n\
         31                    \n"
    );
}

#[test]
fn february_2016_ends_with_a_row_of_two_days() {
    let text = Month::new(2016, 2).unwrap().render();
    let rows: Vec<&str> = text.lines().skip(2).collect();
    assert_eq!(rows.len(), 5);
    assert_eq!(rows[4], "28 29                 ");
}

#[test]
fn june_2019_begins_with_a_row_of_one_day() {
    let text = Month::new(2019, 6).unwrap().render();
    let rows: Vec<&str> = text.lines().collect();
    assert_eq!(rows[2], "                   1  ");
    assert_eq!(rows.len(), 8);
}

#[test]
fn february_2015_has_four_rows() {
    let text = Month::new(2015, 2).unwrap().render();
    assert_eq!(
        text,
        lines(&[
            "   February 2015      ",
            "Su Mo Tu We Th Fr Sa  ",
            " 1  2  3  4  5  6  7  ",
            " 8  9 10 11 12 13 14  ",
            "15 16 17 18 19 20 21  ",
            "22 23 24 25 26 27 28  ",
        ])
    );
}

#[test]
fn the_first_month_of_the_calendar_as_text() {
    let text = Month::new(1, 1).unwrap().render();
    assert_eq!(
        text,
        lines(&[
            "     January 1        ",
            "Su Mo Tu We Th Fr Sa  ",
            "    1  2  3  4  5  6  ",
            " 7  8  9 10 11 12 13  ",
            "14 15 16 17 18 19 20  ",
            "21 22 23 24 25 26 27  ",
            "28 29 30 31           ",
        ])
    );
}

#[test]
fn the_last_month_of_the_calendar_as_text() {
    let text = Month::new(9999, 12).unwrap().render();
    assert_eq!(
        text,
        lines(&[
            "   December 9999      ",
            "Su Mo Tu We Th Fr Sa  ",
            "          1  2  3  4  ",
            " 5  6  7  8  9 10 11  ",
            "12 13 14 15 16 17 18  ",
            "19 20 21 22 23 24 25  ",
            "26 27 28 29 30 31     ",
        ])
    );
}

#[test]
fn month_names() {
    let names = [
        "January",
        "February",
        "March",
        "April",
        "May",
        "June",
        "July",
        "August",
        "September",
        "October",
        "November",
        "December",
    ];
    for number in 1..=12u8 {
        let month = Month::new(2019, number).unwrap();
        assert_eq!(month.month_name(), names[usize::from(number) - 1]);
    }
}

#[test]
fn month_names_are_those_of_the_time_crate() {
    for number in 1..=12u8 {
        let theirs = time::Month::try_from(number).unwrap();
        let month = Month::new(2019, number).unwrap();
        assert_eq!(month.month_name(), theirs.to_string());
        assert_eq!(month.month_header(), format!("{} {}", theirs, 2019));
    }
}

#[test]
fn month_header_is_name_and_year() {
    assert_eq!(Month::new(2019, 3).unwrap().month_header(), "March 2019");
    assert_eq!(Month::new(1, 9).unwrap().month_header(), "September 1");
    assert_eq!(Month::new(9999, 9).unwrap().month_header(), "September 9999");
    assert_eq!(Month::new(800, 5).unwrap().month_header(), "May 800");
    assert_eq!(Month::new(42, 5).unwrap().month_header(), "May 42");
}

#[test]
fn format_week_puts_each_day_in_two_columns() {
    assert_eq!(Month::format_week(&WeekRow { first: 3, last: 9 }), " 3  4  5  6  7  8  9");
    assert_eq!(Month::format_week(&WeekRow { first: 1, last: 2 }), " 1  2");
    assert_eq!(Month::format_week(&WeekRow { first: 31, last: 31 }), "31");
    assert_eq!(Month::format_week(&WeekRow { first: 9, last: 10 }), " 9 10");
    assert_eq!(Month::format_week(&WeekRow { first: 24, last: 30 }), "24 25 26 27 28 29 30");
}

#[test]
fn format_week_of_rows_that_no_month_has() {
    assert_eq!(Month::format_week(&WeekRow { first: 5, last: 4 }), "");
    assert_eq!(Month::format_week(&WeekRow { first: 9, last: 0 }), "");
    assert_eq!(Month::format_week(&WeekRow { first: 0, last: 1 }), " 0  1");
    assert_eq!(Month::format_week(&WeekRow { first: 99, last: 101 }), "99 100 101");
    assert_eq!(Month::format_week(&WeekRow { first: 254, last: 255 }), "254 255");
}

#[test]
fn format_week_is_what_std_formats() {
    for first in 0..=40u8 {
        for last in first..=40u8 {
            let expected =
                (first..=last).map(|d| format!("{:2}", d)).collect::<Vec<String>>().join(" ");
            assert_eq!(Month::format_week(&WeekRow { first, last }), expected);
        }
    }
}

#[test]
fn weeks_of_march_2019() {
    let text = Month::new(2019, 3).unwrap().weeks();
    assert_eq!(
        text,
        lines(&[
            "                1  2  ",
            " 3  4  5  6  7  8  9  ",
            "10 11 12 13 14 15 16  ",
            "17 18 19 20 21 22 23  ",
            "24 25 26 27 28 29 30  ",
            "31                    ",
        ])
    );
}

#[test]
fn every_line_of_every_month_is_twenty_two_columns_wide() {
    for year in [1, 9, 10, 99, 100, 999, 1000, 1900, 2000, 2016, 2019, 9999] {
        for number in 1..=12u8 {
            let month = Month::new(year, number).unwrap();
            let text = month.render();
            assert!(text.ends_with('\n'));
            let rows: Vec<&str> = text.lines().collect();
            assert_eq!(rows.len(), 2 + month.layout_weeks().len());
            for row in &rows {
                assert_eq!(row.chars().count(), 22, "{year}-{number}: {row:?}");
                assert!(row.ends_with("  "));
            }
            assert_eq!(rows[1], "Su Mo Tu We Th Fr Sa  ");
            assert_eq!(rows[0].trim(), month.month_header());
            assert_eq!(text.chars().count(), 23 * rows.len());
        }
    }
}

#[test]
fn render_is_what_std_formats() {
    for year in [1, 45, 476, 1582, 1999, 2024, 9999] {
        for number in 1..=12u8 {
            let month = Month::new(year, number).unwrap();
            let layout = month.layout_weeks();
            let mut expected = format!("{:^20}  \n", month.month_header());
            expected.push_str("Su Mo Tu We Th Fr Sa  \n");
            for (i, row) in layout.iter().enumerate() {
                let days = Month::format_week(row);
                if i == 0 {
                    expected.push_str(&format!("{:>20}", days));
                } else if i == layout.len() - 1 {
                    expected.push_str(&format!("{:<20}", days));
                } else {
                    expected.push_str(&days);
                }
                expected.push_str("  \n");
            }
            assert_eq!(month.render(), expected);
        }
    }
}
