use bdgt::budget::Budget;
use bdgt::datetime::Date;
use bdgt::error::ErrorKind;
use bdgt::ledger::TimeWindow;
use bdgt::report::accounts::{AccountReport, TransactionLine};
use bdgt::report::categories::{category_key, order_key, CategoryLine};
use bdgt::report::plans::PlanLine;
use bdgt::report::{Built, Interval, Report, ReportTarget};
use bdgt::storage::{CategoryType, Id};
use chrono::{Datelike, TimeZone};

fn text(value: &str) -> String {
    value.to_string()
}

struct Fixture {
    budget: Budget,
    wallet: Id,
    bank: Id,
    salary: Id,
    gifts: Id,
    food: Id,
    rent: Id,
}

fn fixture() -> Fixture {
    let mut budget = Budget::new(7);
    let wallet = budget.add_account(text("Wallet"), 0, 1).unwrap();
    let bank = budget.add_account(text("Bank"), 0, 1).unwrap();
    let salary = budget.add_category(text("Salary"), CategoryType::Income, 1).unwrap();
    let gifts = budget.add_category(text("Gifts"), CategoryType::Income, 1).unwrap();
    let food = budget.add_category(text("Food"), CategoryType::Outcome, 1).unwrap();
    let rent = budget.add_category(text("Rent"), CategoryType::Outcome, 1).unwrap();
    budget.add_transaction(bank, rent, text("january"), 900, 100, 2).unwrap();
    budget.add_transaction(wallet, food, text("lunch"), 30, 110, 2).unwrap();
    budget.add_transaction(bank, salary, text("pay"), 2000, 120, 2).unwrap();
    budget.add_transaction(wallet, gifts, text("birthday"), 50, 130, 2).unwrap();
    budget.add_transaction(wallet, food, text("dinner"), 45, 200, 2).unwrap();
    budget.add_transaction(bank, rent, text("february"), 900, 210, 2).unwrap();
    Fixture { budget, wallet, bank, salary, gifts, food, rent }
}

fn line(category_id: Id, category_type: CategoryType, name: &str, total: isize) -> CategoryLine {
    CategoryLine { category_id, category_type, name: text(name), total }
}

#[test]
fn categories_report_orders_by_type_then_total() {
    let fixture = fixture();
    let report = Report::build_categories_report(&fixture.budget, None).unwrap();
    assert_eq!(
        report,
        vec![
            line(fixture.gifts, CategoryType::Income, "Gifts", 50),
            line(fixture.salary, CategoryType::Income, "Salary", 2000),
            line(fixture.rent, CategoryType::Outcome, "Rent", -1800),
            line(fixture.food, CategoryType::Outcome, "Food", -75),
        ]
    );
}

#[test]
fn categories_report_keeps_to_its_window() {
    let fixture = fixture();
    let window = Some(TimeWindow { start: 110, end: 210 });
    let report = Report::build_categories_report(&fixture.budget, window).unwrap();
    assert_eq!(
        report,
        vec![
            line(fixture.gifts, CategoryType::Income, "Gifts", 50),
            line(fixture.salary, CategoryType::Income, "Salary", 2000),
            line(fixture.food, CategoryType::Outcome, "Food", -75),
        ]
    );
    let nothing = Some(TimeWindow { start: 1000, end: 2000 });
    assert_eq!(Report::build_categories_report(&fixture.budget, nothing).unwrap(), vec![]);
}

#[test]
fn categories_report_breaks_ties_by_category() {
    let mut budget = Budget::new(7);
    let wallet = budget.add_account(text("Wallet"), 0, 1).unwrap();
    let later = budget.add_category(text("Zoo"), CategoryType::Outcome, 1).unwrap();
    let first = budget.add_category(text("Art"), CategoryType::Outcome, 1).unwrap();
    let income = budget.add_category(text("Pay"), CategoryType::Income, 1).unwrap();
    budget.add_transaction(wallet, first, text("a"), 10, 1, 1).unwrap();
    budget.add_transaction(wallet, income, text("b"), 5, 1, 1).unwrap();
    budget.add_transaction(wallet, later, text("c"), 4, 1, 1).unwrap();
    budget.add_transaction(wallet, later, text("d"), 6, 1, 1).unwrap();
    let report = Report::build_categories_report(&budget, None).unwrap();
    assert_eq!(
        report,
        vec![
            line(income, CategoryType::Income, "Pay", 5),
            line(later, CategoryType::Outcome, "Zoo", -10),
            line(first, CategoryType::Outcome, "Art", -10),
        ]
    );
}

#[test]
fn categories_report_counts_transfers_under_the_built_in_categories() {
    let mut fixture = fixture();
    fixture.budget.add_transfer(100, fixture.bank, fixture.wallet, 150, 3).unwrap();
    let report = Report::build_categories_report(&fixture.budget, None).unwrap();
    assert_eq!(report.len(), 6);
    assert_eq!(report[1], line(Budget::transfer_income(), CategoryType::Income, "Transfer", 100));
    assert_eq!(report[4], line(Budget::transfer_outcome(), CategoryType::Outcome, "Transfer", -100));
}

#[test]
fn categories_report_refuses_totals_that_do_not_fit() {
    let mut budget = Budget::new(7);
    let wallet = budget.add_account(text("Wallet"), 0, 1).unwrap();
    let bank = budget.add_account(text("Bank"), 0, 1).unwrap();
    let pay = budget.add_category(text("Pay"), CategoryType::Income, 1).unwrap();
    budget.add_transaction(wallet, pay, text("a"), isize::MAX, 1, 1).unwrap();
    budget.add_transaction(bank, pay, text("b"), 1, 1, 1).unwrap();
    assert_eq!(
        Report::build_categories_report(&budget, None).unwrap_err().kind,
        ErrorKind::ValueOutOfRange
    );
    let window = Some(TimeWindow { start: 0, end: 1 });
    assert_eq!(Report::build_categories_report(&budget, window).unwrap(), vec![]);
}

#[test]
fn category_key_and_order_key_are_pairs() {
    let fixture = fixture();
    let lunch = &fixture.budget.transactions_with(fixture.food)[0];
    assert_eq!(category_key(lunch), (7, fixture.food.serial));
    assert_eq!(order_key(&line(fixture.food, CategoryType::Outcome, "Food", -75)), (1, -75));
    assert_eq!(order_key(&line(fixture.gifts, CategoryType::Income, "Gifts", 50)), (0, 50));
}

#[test]
fn plans_report_gives_spent_and_remains() {
    let mut fixture = fixture();
    let eat = fixture.budget.add_plan(fixture.food, text("Eat less"), 60, 5).unwrap();
    fixture.budget.add_plan(fixture.rent, text("Housing"), 2000, 5).unwrap();
    let report = Report::build_plans_report(&fixture.budget, None, None).unwrap();
    assert_eq!(
        report,
        vec![
            PlanLine { plan: text("Eat less"), category: text("Food"), spent: 75, remains: -15 },
            PlanLine { plan: text("Housing"), category: text("Rent"), spent: 1800, remains: 200 },
        ]
    );
    let window = Some(TimeWindow { start: 0, end: 200 });
    let one = Report::build_plans_report(&fixture.budget, window, Some(eat)).unwrap();
    assert_eq!(one, vec![PlanLine { plan: text("Eat less"), category: text("Food"), spent: 30, remains: 30 }]);
    let plan = fixture.budget.plan(eat).unwrap();
    let (category, spent) = Report::internal_build_plan_report(&fixture.budget, None, &plan).unwrap();
    assert_eq!((category.id, spent), (fixture.food, 75));
    assert_eq!(
        Report::build_plans_report(&fixture.budget, None, Some(Id { instance: 9, serial: 9 })).unwrap_err().kind,
        ErrorKind::EntityNotFound
    );
}

#[test]
fn plans_report_refuses_what_does_not_fit() {
    let mut budget = Budget::new(7);
    let wallet = budget.add_account(text("Wallet"), 0, 1).unwrap();
    let pay = budget.add_category(text("Pay"), CategoryType::Income, 1).unwrap();
    let food = budget.add_category(text("Food"), CategoryType::Outcome, 1).unwrap();
    budget.add_transaction(wallet, pay, text("a"), isize::MAX, 1, 1).unwrap();
    budget.add_transaction(wallet, food, text("b"), isize::MAX, 1, 1).unwrap();
    budget.add_plan(food, text("Huge"), 1, 2).unwrap();
    let report = Report::build_plans_report(&budget, None, None).unwrap();
    assert_eq!(report[0].spent, isize::MAX);
    assert_eq!(report[0].remains, 1 - isize::MAX);
    budget.add_transaction(wallet, pay, text("c"), 1, 1, 1).unwrap();
    budget.add_transaction(wallet, food, text("d"), 1, 1, 1).unwrap();
    assert_eq!(
        Report::build_plans_report(&budget, None, None).unwrap_err().kind,
        ErrorKind::ValueOutOfRange
    );
}

#[test]
fn accounts_report_lists_the_transactions_of_each_account() {
    let fixture = fixture();
    let reports = Report::build_accounts_report(&fixture.budget, None, None).unwrap();
    assert_eq!(reports.len(), 2);
    assert_eq!(reports[0].name, "Wallet");
    assert_eq!(reports[0].id, fixture.wallet);
    assert_eq!(reports[0].balance, -25);
    assert_eq!(
        reports[0].lines,
        vec![
            TransactionLine { description: text("lunch"), amount: -30, timestamp: 110, category: text("Food") },
            TransactionLine { description: text("birthday"), amount: 50, timestamp: 130, category: text("Gifts") },
            TransactionLine { description: text("dinner"), amount: -45, timestamp: 200, category: text("Food") },
        ]
    );
    assert_eq!(reports[1].balance, 200);
    assert_eq!(reports[1].lines.len(), 3);
    let window = Some(TimeWindow { start: 100, end: 121 });
    let one = Report::build_accounts_report(&fixture.budget, window, Some(fixture.bank)).unwrap();
    assert_eq!(
        one,
        vec![AccountReport {
            name: text("Bank"),
            id: fixture.bank,
            balance: 200,
            lines: vec![
                TransactionLine { description: text("january"), amount: -900, timestamp: 100, category: text("Rent") },
                TransactionLine { description: text("pay"), amount: 2000, timestamp: 120, category: text("Salary") },
            ],
        }]
    );
    assert_eq!(
        Report::build_accounts_report(&fixture.budget, None, Some(fixture.food)).unwrap_err().kind,
        ErrorKind::EntityNotFound
    );
}

#[test]
fn build_dispatches_on_the_target() {
    let mut fixture = fixture();
    fixture.budget.add_plan(fixture.food, text("Eat less"), 60, 5).unwrap();
    match Report::build(&fixture.budget, ReportTarget::Account(Some(fixture.wallet)), None).unwrap() {
        Built::Accounts(reports) => assert_eq!(reports.len(), 1),
        _ => panic!("a report on accounts was asked for"),
    }
    match Report::build(&fixture.budget, ReportTarget::Category, None).unwrap() {
        Built::Categories(lines) => assert_eq!(lines.len(), 4),
        _ => panic!("the report on categories was asked for"),
    }
    match Report::build(&fixture.budget, ReportTarget::Plan(None), None).unwrap() {
        Built::Plans(lines) => assert_eq!(lines.len(), 1),
        _ => panic!("the report on plans was asked for"),
    }
}

fn days_since_epoch(year: i64, month: i64, day: i64) -> i64 {
    let leaps = |year: i64| year.div_euclid(4) - year.div_euclid(100) + year.div_euclid(400);
    let leap = year.rem_euclid(4) == 0 && (year.rem_euclid(100) != 0 || year.rem_euclid(400) == 0);
    let lengths = [31, if leap { 29 } else { 28 }, 31, 30, 31, 30, 31, 31, 30, 31, 30, 31];
    let before: i64 = lengths[..(month - 1) as usize].iter().sum();
    365 * (year - 1970) + leaps(year - 1) - leaps(1969) + before + day - 1
}

#[test]
fn midnight_counts_days_since_1970() {
    assert_eq!(Date { year: 1970, month: 1, day: 1 }.midnight(), 0);
    assert_eq!(Date { year: 1970, month: 1, day: 2 }.midnight(), 86400);
    assert_eq!(Date { year: 1969, month: 12, day: 31 }.midnight(), -86400);
    assert_eq!(Date { year: 2024, month: 1, day: 1 }.midnight(), 1704067200);
    assert_eq!(Date { year: 2015, month: 5, day: 15 }.midnight(), 1431648000);
    assert_eq!(Date { year: 2000, month: 3, day: 1 }.midnight(), 951868800);
}

#[test]
fn midnight_agrees_with_the_count_of_days_for_many_days() {
    let mut years: Vec<i32> = (1890..2110).collect();
    years.extend([-262143, -100000, -401, -400, -101, -100, -5, -4, -1, 0, 1, 4, 100, 400, 1600, 9999, 262142]);
    for year in years {
        for month in 1..=12u32 {
            for day in [1u32, 15, 28] {
                let date = Date { year, month, day };
                assert_eq!(date.midnight(), 86400 * days_since_epoch(year as i64, month as i64, day as i64));
            }
        }
        let last = Date { year, month: 12, day: 31 };
        assert_eq!(last.midnight(), 86400 * days_since_epoch(year as i64, 12, 31));
    }
    assert_eq!(Date { year: 2024, month: 2, day: 29 }.midnight(), 86400 * days_since_epoch(2024, 2, 29));
}

#[test]
fn midnight_is_what_chrono_reads_back() {
    for (year, month, day) in [(2024, 2, 29), (1999, 12, 31), (1970, 1, 1), (1, 1, 1), (-44, 3, 15)] {
        let moment = Date { year, month, day }.midnight();
        let read = chrono::Utc.timestamp_opt(moment, 0).unwrap();
        assert_eq!((read.year(), read.month(), read.day()), (year, month, day));
    }
}

#[test]
fn interval_window_starts_and_ends_at_midnight() {
    let interval = Interval {
        start: Date { year: 2024, month: 1, day: 1 },
        end: Date { year: 2024, month: 2, day: 1 },
    };
    assert_eq!(interval.window(), TimeWindow { start: 1704067200, end: 1704067200 + 31 * 86400 });
}
