use bdgt::datetime::{
    absolute_month, absolute_month_on, absolute_year, absolute_year_on, advance_date,
    advance_date_month, advance_date_year, make_date, moment_read, parse_timestamp, Date, Duration,
};
use bdgt::error::ErrorKind;

fn date(year: i32, month: u32, day: u32) -> Date {
    Date { year, month, day }
}

#[test]
fn make_date_accepts_existing_days() {
    assert_eq!(make_date(2024, 2, 29).unwrap(), date(2024, 2, 29));
    assert_eq!(make_date(2015, 3, 14).unwrap(), date(2015, 3, 14));
    assert_eq!(make_date(-4, 2, 29).unwrap(), date(-4, 2, 29));
    assert_eq!(make_date(0, 2, 29).unwrap(), date(0, 2, 29));
    assert_eq!(make_date(2000, 2, 29).unwrap(), date(2000, 2, 29));
    assert_eq!(make_date(262142, 12, 31).unwrap(), date(262142, 12, 31));
    assert_eq!(make_date(-262143, 1, 1).unwrap(), date(-262143, 1, 1));
}

#[test]
fn make_date_refuses_missing_days() {
    assert_eq!(make_date(2023, 2, 29).unwrap_err().kind, ErrorKind::InvalidDate);
    assert_eq!(make_date(1900, 2, 29).unwrap_err().kind, ErrorKind::InvalidDate);
    assert_eq!(make_date(2023, 4, 31).unwrap_err().kind, ErrorKind::InvalidDate);
    assert_eq!(make_date(2015, 0, 14).unwrap_err().kind, ErrorKind::InvalidDate);
    assert_eq!(make_date(2015, 13, 1).unwrap_err().kind, ErrorKind::InvalidDate);
    assert_eq!(make_date(2015, 1, 0).unwrap_err().kind, ErrorKind::InvalidDate);
    assert_eq!(make_date(2015, 1, 32).unwrap_err().kind, ErrorKind::InvalidDate);
    assert_eq!(make_date(262143, 1, 1).unwrap_err().kind, ErrorKind::InvalidDate);
    assert_eq!(make_date(-262144, 12, 31).unwrap_err().kind, ErrorKind::InvalidDate);
    assert_eq!(make_date(400000, 1, 1).unwrap_err().kind, ErrorKind::InvalidDate);
}

#[test]
fn make_date_agrees_with_the_calendar_for_every_day_of_some_years() {
    for year in [1899, 1900, 1999, 2000, 2023, 2024, 2100] {
        let leap = year % 4 == 0 && (year % 100 != 0 || year % 400 == 0);
        for month in 0..14u32 {
            let days = match month {
                2 => {
                    if leap {
                        29
                    } else {
                        28
                    }
                }
                4 | 6 | 9 | 11 => 30,
                1..=12 => 31,
                _ => 0,
            };
            for day in 0..33u32 {
                assert_eq!(make_date(year, month, day).is_ok(), 1 <= day && day <= days);
            }
        }
    }
}

#[test]
fn absolute_month_of_zero_is_the_current_month() {
    for month in 1..=12u32 {
        assert_eq!(absolute_month_on(0, &date(2024, month, 1)), month);
    }
}

#[test]
fn absolute_month_of_five_is_five_on_any_day() {
    for month in 1..=12u32 {
        assert_eq!(absolute_month_on(5, &date(2024, month, 17)), 5);
    }
    assert_eq!(absolute_month(5), 5);
    assert_eq!(absolute_month(12), 12);
    assert_eq!(absolute_month(1), 1);
}

#[test]
fn absolute_month_counts_around_the_year() {
    let january = date(2024, 1, 15);
    let march = date(2024, 3, 15);
    let december = date(2024, 12, 15);
    assert_eq!(absolute_month_on(-1, &january), 12);
    assert_eq!(absolute_month_on(-1, &march), 2);
    assert_eq!(absolute_month_on(-3, &march), 12);
    assert_eq!(absolute_month_on(-4, &march), 11);
    assert_eq!(absolute_month_on(-14, &january), 11);
    assert_eq!(absolute_month_on(13, &march), 4);
    assert_eq!(absolute_month_on(13, &december), 1);
    assert_eq!(absolute_month_on(24, &december), 12);
    assert_eq!(absolute_month_on(i32::MAX, &december), ((12i64 + i32::MAX as i64 - 1) % 12 + 1) as u32);
    assert_eq!(absolute_month_on(i32::MIN, &january), 5);
}

#[test]
fn absolute_month_now_is_a_month() {
    for relative in [-20, -1, 0, 13, 100] {
        let month = absolute_month(relative);
        assert!(1 <= month && month <= 12);
    }
}

#[test]
fn absolute_year_is_relative_to_the_current_year() {
    let today = date(2024, 6, 1);
    assert_eq!(absolute_year_on(0, &today), 2024);
    assert_eq!(absolute_year_on(-1, &today), 2023);
    assert_eq!(absolute_year_on(-24, &today), 2000);
    assert_eq!(absolute_year_on(1999, &today), 1999);
    assert_eq!(absolute_year_on(1, &today), 1);
    assert_eq!(absolute_year(2031), 2031);
    assert_eq!(absolute_year(-1) + 1, absolute_year(0));
}

#[test]
fn advance_date_by_a_month_does_not_clamp() {
    let origin = date(2024, 1, 31);
    assert_eq!(advance_date(&origin, Duration::Month(1)).unwrap_err().kind, ErrorKind::InvalidDate);
    assert_eq!(advance_date(&origin, Duration::Month(2)).unwrap(), date(2024, 3, 31));
    assert_eq!(advance_date(&origin, Duration::Month(3)).unwrap_err().kind, ErrorKind::InvalidDate);
}

#[test]
fn advance_date_by_months_crosses_years() {
    let origin = date(2024, 11, 15);
    assert_eq!(advance_date(&origin, Duration::Month(1)).unwrap(), date(2024, 12, 15));
    assert_eq!(advance_date(&origin, Duration::Month(2)).unwrap(), date(2025, 1, 15));
    assert_eq!(advance_date(&origin, Duration::Month(14)).unwrap(), date(2026, 1, 15));
    assert_eq!(advance_date(&origin, Duration::Month(-10)).unwrap(), date(2024, 1, 15));
    assert_eq!(advance_date(&origin, Duration::Month(-11)).unwrap(), date(2023, 12, 15));
    assert_eq!(advance_date(&origin, Duration::Month(-12)).unwrap(), date(2023, 11, 15));
    assert_eq!(advance_date(&origin, Duration::Month(-23)).unwrap(), date(2022, 12, 15));
    assert_eq!(advance_date(&origin, Duration::Month(0)).unwrap(), origin);
    assert_eq!(advance_date_month(&date(2024, 1, 1), -1).unwrap(), date(2023, 12, 1));
    assert_eq!(advance_date_month(&date(0, 1, 1), -1).unwrap(), date(-1, 12, 1));
    assert_eq!(advance_date_month(&date(-1, 12, 1), 1).unwrap(), date(0, 1, 1));
}

#[test]
fn advance_date_by_years_keeps_month_and_day() {
    assert_eq!(advance_date(&date(2023, 5, 7), Duration::Year(1)).unwrap(), date(2024, 5, 7));
    assert_eq!(advance_date(&date(2023, 5, 7), Duration::Year(-23)).unwrap(), date(2000, 5, 7));
    assert_eq!(
        advance_date(&date(2024, 2, 29), Duration::Year(1)).unwrap_err().kind,
        ErrorKind::InvalidDate
    );
    assert_eq!(advance_date_year(&date(2024, 2, 29), 4).unwrap(), date(2028, 2, 29));
}

#[test]
fn advance_date_out_of_range_is_an_invalid_date() {
    let last = date(262142, 12, 1);
    assert_eq!(advance_date(&last, Duration::Month(1)).unwrap_err().kind, ErrorKind::InvalidDate);
    assert_eq!(advance_date(&last, Duration::Year(1)).unwrap_err().kind, ErrorKind::InvalidDate);
    assert_eq!(
        advance_date(&last, Duration::Year(i32::MAX)).unwrap_err().kind,
        ErrorKind::InvalidDate
    );
    assert_eq!(
        advance_date(&date(-262143, 1, 1), Duration::Month(i32::MIN)).unwrap_err().kind,
        ErrorKind::InvalidDate
    );
}

#[test]
fn parse_timestamp_reads_a_moment_with_a_time_zone() {
    assert_eq!(parse_timestamp("2024-01-01 00:00:00 UTC").unwrap(), 1704067200);
    assert_eq!(parse_timestamp("1970-01-01T00:00:10Z").unwrap(), 10);
}

#[test]
fn parse_timestamp_refuses_what_is_no_moment() {
    assert_eq!(parse_timestamp("not a moment").unwrap_err().kind, ErrorKind::ParseError);
    assert_eq!(parse_timestamp("").unwrap_err().kind, ErrorKind::ParseError);
}

#[test]
fn present_moment_lies_in_the_present_day() {
    let (moment, today) = bdgt::datetime::present();
    assert!(today.midnight() <= moment);
    assert!(moment < today.midnight() + 86400);
    assert!(moment > 1704067200);
    assert!(today.year >= 2024);
    assert_eq!(make_date(today.year, today.month, today.day).unwrap(), today);
}

#[test]
fn moment_read_is_the_moment_or_a_parse_error() {
    assert_eq!(moment_read(Some(1704067200)).unwrap(), 1704067200);
    assert_eq!(moment_read(Some(-1)).unwrap(), -1);
    assert_eq!(moment_read(None).unwrap_err().kind, ErrorKind::ParseError);
}

#[test]
fn parse_timestamp_refuses_zones_a_day_from_utc() {
    let wild = [
        "2021-02-21 +9900",
        "2021-02-21+2400",
        "2021-02-21 -24:00",
        "2019-11-29 08:08:05-2500",
        "2014-04-26 13:13:43 +9959",
        "2014-04-26 13:13:43.123 -99:59",
        "01:06:06 +2400",
        "6:00 pm +3000",
        "4:00PM  -2459",
        "May 02, 2021 15:51:31 +4800",
        "May 26, 2021, 12:49 AM +2500",
        "2021-02-21 +99000",
        "2021-02-21 +9900:",
    ];
    for text in wild {
        assert!(!bdgt::zone::is_admitted(text));
        assert_eq!(parse_timestamp(text).unwrap_err().kind, ErrorKind::ParseError);
    }
}

#[test]
fn parse_timestamp_reads_zones_within_a_day_of_utc() {
    assert_eq!(parse_timestamp("2014-04-26 13:13:43 +0800").unwrap(), 1398489223);
    assert_eq!(parse_timestamp("2014-04-26 13:13:44 +09:00").unwrap(), 1398485624);
    assert_eq!(parse_timestamp("2014-04-26 13:13:43 -2359").unwrap(), 1398604363);
    assert_eq!(parse_timestamp("2017-11-25 13:31:15 PST").unwrap(), 1511645475);
    assert_eq!(parse_timestamp("2020-07-20 10:00:00+08:00").unwrap(), 1595210400);
}

#[test]
fn texts_without_a_wild_zone_are_admitted() {
    let tame = [
        "",
        "2021-12-25",
        "2021-12-31 23:59",
        "2019-11-29 08:08-08",
        "2014-04-26 13:13:43 +0800",
        "2014-04-26 13:13:43 +2359",
        "2014-04-26 13:13:43 -23:59",
        "1.1.+2500",
        "2021-02-21 10:10 m+2500",
        "6:00pm+3000",
        "+2500",
        " +2500",
        "x +2500",
        "12-25",
        "2021-02-21 +99",
        "2021-02-21 +9960",
        "2021-02-21 +99:6",
        "1511648546",
        "not a moment",
    ];
    for text in tame {
        assert!(bdgt::zone::is_admitted(text), "{}", text);
        let _ = parse_timestamp(text);
    }
}

#[test]
fn parse_timestamp_returns_for_times_with_any_offset() {
    let times = [
        "2021-02-21",
        "2021-02-21 10:10",
        "2021-02-21 10:10:10",
        "2021-02-21 10:10:10.5",
        "01:06:06",
        "4:00pm",
        "6:00 AM",
        "May 02, 2021 15:51:31",
        "May 26, 2021, 12:49 AM",
        "September 17, 2012 at 10:09am",
        "Wed, 02 Jun 2021 06:31:39",
        "2021-05-01T01:17:02",
    ];
    let gaps = ["", " ", "  ", "\t", "\u{a0}", "\u{3000}"];
    let minutes = ["", "0", "00", "30", "59", "60", ":00", ":59", ":60", "::00", "000", "00:", "00Z", ":0"];
    let mut refused = 0;
    let mut read = 0;
    for time in times {
        for gap in gaps {
            for sign in ["+", "-"] {
                for hours in (0..100).step_by(3).chain([23, 24, 25]) {
                    for minute in minutes {
                        let text = format!("{}{}{}{:02}{}", time, gap, sign, hours, minute);
                        let result = parse_timestamp(&text);
                        if !bdgt::zone::is_admitted(&text) {
                            assert_eq!(result.unwrap_err().kind, ErrorKind::ParseError);
                            assert!(hours >= 24, "{}", text);
                            refused += 1;
                        } else if result.is_ok() {
                            read += 1;
                        }
                    }
                }
            }
        }
    }
    assert!(refused > 1000);
    assert!(read > 1000);
}

#[test]
fn make_date_names_the_day_that_does_not_exist() {
    let error = make_date(2023, 2, 29).unwrap_err();
    assert_eq!(error.kind, ErrorKind::InvalidDate);
    assert_eq!(error.message, "Invalid date");
    assert_eq!(error.extra.as_deref(), Some("year 2023, month 2, day 29"));
    let error = make_date(-400000, 13, 0).unwrap_err();
    assert_eq!(error.extra.as_deref(), Some("year -400000, month 13, day 0"));
    let error = make_date(i32::MIN, u32::MAX, u32::MAX).unwrap_err();
    assert_eq!(error.extra.as_deref(), Some("year -2147483648, month 4294967295, day 4294967295"));
}

#[test]
fn advance_date_names_the_day_that_does_not_exist() {
    let error = advance_date(&date(2024, 1, 31), Duration::Month(1)).unwrap_err();
    assert_eq!(error.message, "Invalid date");
    assert_eq!(error.extra.as_deref(), Some("year 2024, month 2, day 31"));
    let error = advance_date(&date(2024, 2, 29), Duration::Year(-1)).unwrap_err();
    assert_eq!(error.extra.as_deref(), Some("year 2023, month 2, day 29"));
    let error = advance_date(&date(2024, 12, 1), Duration::Year(i32::MAX)).unwrap_err();
    assert_eq!(error.extra.as_deref(), Some("year 2147485671, month 12, day 1"));
    let error = advance_date(&date(-262143, 1, 1), Duration::Month(-1)).unwrap_err();
    assert_eq!(error.extra.as_deref(), Some("year -262144, month 12, day 1"));
}

#[test]
fn numbers_are_written_in_decimal() {
    for number in [0u64, 1, 9, 10, 11, 99, 100, 101, 2023, 1234567890, u64::MAX] {
        assert_eq!(bdgt::text::decimal_text(number), number.to_string());
    }
    for number in [0i64, 1, -1, 9, -9, 10, -10, 2023, -262143, i64::MAX, i64::MIN] {
        assert_eq!(bdgt::text::signed_text(number), number.to_string());
    }
    let error = bdgt::datetime::invalid_date(i64::MIN, 0, -7);
    assert_eq!(error.extra.as_deref(), Some("year -9223372036854775808, month 0, day -7"));
}
