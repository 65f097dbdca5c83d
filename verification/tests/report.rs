use bdgt::datetime::Date;
use bdgt::error::ErrorKind;
use bdgt::report::{Interval, Parameters, Report, ReportTarget, TargetFlags};
use bdgt::storage::Id;

fn date(year: i32, month: u32, day: u32) -> Date {
    Date { year, month, day }
}

fn parameters(month: i32, year: i32) -> Parameters {
    Parameters { epoch: false, year, month, target: ReportTarget::Account(None) }
}

fn interval(start: Date, end: Date) -> Option<Interval> {
    Some(Interval { start, end })
}

#[test]
fn time_interval_of_the_whole_period_is_none() {
    let whole = Parameters { epoch: true, year: -1, month: -1, target: ReportTarget::Category };
    assert_eq!(Report::time_interval_on(&whole, &date(2024, 5, 20)).unwrap(), None);
    assert_eq!(Report::time_interval(&whole).unwrap(), None);
}

#[test]
fn time_interval_refuses_the_previous_month_of_another_year() {
    let today = date(2024, 5, 20);
    for year in [-1, 1, 1999, 2024, i32::MAX] {
        let error = Report::time_interval_on(&parameters(-1, year), &today).unwrap_err();
        assert_eq!(error.kind, ErrorKind::InvalidInterval);
        assert_eq!(Report::time_interval(&parameters(-1, year)).unwrap_err().kind, ErrorKind::InvalidInterval);
    }
}

#[test]
fn time_interval_of_last_year_is_that_year() {
    let today = date(2024, 5, 20);
    assert_eq!(
        Report::time_interval_on(&parameters(0, -1), &today).unwrap(),
        interval(date(2023, 1, 1), date(2024, 1, 1))
    );
}

#[test]
fn time_interval_of_last_year_starts_in_january_whatever_the_month() {
    for month in 1..=12u32 {
        assert_eq!(
            Report::time_interval_on(&parameters(0, -1), &date(2031, month, 28)).unwrap(),
            interval(date(2030, 1, 1), date(2031, 1, 1))
        );
    }
}

#[test]
fn time_interval_follows_the_table_of_cases() {
    let today = date(2024, 5, 20);
    let cases = [
        ((3, -1), (date(2023, 3, 1), date(2023, 4, 1))),
        ((12, -1), (date(2023, 12, 1), date(2024, 1, 1))),
        ((3, 0), (date(2024, 3, 1), date(2024, 4, 1))),
        ((0, 0), (date(2024, 5, 1), date(2024, 6, 1))),
        ((-1, 0), (date(2024, 4, 1), date(2024, 5, 1))),
        ((7, 1999), (date(1999, 7, 1), date(1999, 8, 1))),
        ((0, 1999), (date(1999, 1, 1), date(2000, 1, 1))),
        ((0, 2024), (date(2024, 1, 1), date(2025, 1, 1))),
    ];
    for ((month, year), (start, end)) in cases {
        assert_eq!(
            Report::time_interval_on(&parameters(month, year), &today).unwrap(),
            interval(start, end)
        );
    }
}

#[test]
fn time_interval_of_the_previous_month_in_january_stays_in_the_year() {
    assert_eq!(
        Report::time_interval_on(&parameters(-1, 0), &date(2024, 1, 9)).unwrap(),
        interval(date(2024, 12, 1), date(2025, 1, 1))
    );
}

#[test]
fn time_interval_out_of_range_is_an_invalid_date() {
    let today = date(2024, 5, 20);
    for (month, year) in [(0, 262143), (12, 262142), (0, i32::MAX), (0, i32::MIN), (3, -300000)] {
        let error = Report::time_interval_on(&parameters(month, year), &today).unwrap_err();
        assert_eq!(error.kind, ErrorKind::InvalidDate);
    }
}

#[test]
fn time_interval_now_is_a_month_or_a_year_long() {
    let month = Report::time_interval(&parameters(4, 2020)).unwrap();
    assert_eq!(month, interval(date(2020, 4, 1), date(2020, 5, 1)));
    let year = Report::time_interval(&parameters(0, 2020)).unwrap();
    assert_eq!(year, interval(date(2020, 1, 1), date(2021, 1, 1)));
    let current = Report::time_interval(&parameters(0, 0)).unwrap().unwrap();
    assert_eq!(current.start.day, 1);
    assert_eq!(current.end.day, 1);
}

#[test]
fn get_target_takes_the_first_flag_that_is_given() {
    let none = TargetFlags { accounts: false, account: None, categories: false, plans: false, plan: None };
    let id = Id { instance: 3, serial: 9 };
    assert_eq!(Report::get_target(&none), ReportTarget::Account(None));
    assert_eq!(Report::get_target(&TargetFlags { accounts: true, ..none }), ReportTarget::Account(None));
    assert_eq!(
        Report::get_target(&TargetFlags { account: Some(id), ..none }),
        ReportTarget::Account(Some(id))
    );
    assert_eq!(Report::get_target(&TargetFlags { categories: true, ..none }), ReportTarget::Category);
    assert_eq!(Report::get_target(&TargetFlags { plans: true, ..none }), ReportTarget::Plan(None));
    assert_eq!(Report::get_target(&TargetFlags { plan: Some(id), ..none }), ReportTarget::Plan(Some(id)));
    assert_eq!(
        Report::get_target(&TargetFlags { accounts: true, plan: Some(id), categories: true, ..none }),
        ReportTarget::Account(None)
    );
    assert_eq!(
        Report::get_target(&TargetFlags { categories: true, plans: true, ..none }),
        ReportTarget::Category
    );
}

#[test]
fn time_interval_names_the_day_that_does_not_exist() {
    let today = date(2024, 5, 20);
    let error = Report::time_interval_on(&parameters(0, 262143), &today).unwrap_err();
    assert_eq!(error.extra.as_deref(), Some("year 262143, month 1, day 1"));
    let error = Report::time_interval_on(&parameters(12, 262142), &today).unwrap_err();
    assert_eq!(error.extra.as_deref(), Some("year 262143, month 1, day 1"));
    let error = Report::time_interval_on(&parameters(0, i32::MIN), &today).unwrap_err();
    assert_eq!(error.extra.as_deref(), Some("year -2147481624, month 1, day 1"));
    let error = Report::time_interval_on(&parameters(7, 300000), &today).unwrap_err();
    assert_eq!(error.message, "Invalid date");
    assert_eq!(error.extra.as_deref(), Some("year 300000, month 7, day 1"));
}
