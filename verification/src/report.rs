//! Reports: which entities a report is about, and the interval of time that
//! it covers.

pub mod accounts;
pub mod categories;
pub mod plans;

use vstd::prelude::*;

use crate::datetime::{
    absolute_month_on, absolute_month_spec, absolute_year_on, absolute_year_spec, advance_date,
    advanced, invalid_date, is_calendar_date, is_invalid_date, make_date, present, Date, Duration, MIN_RELATIVE_YEAR, MIN_YEAR,
};
use crate::budget::Budget;
use crate::error::{Error, ErrorKind};
use crate::ledger::{Ledger, TimeWindow};
use crate::report::accounts::{accounts_built, AccountReport};
use crate::report::categories::{categories_reported, CategoryLine};
use crate::report::plans::{plans_built, PlanLine};
use crate::storage::Id;

verus! {

/// What a report is built for.
#[derive(Debug, Clone, Copy, PartialEq, Eq, Structural)]
pub enum ReportTarget {
    /// One account, or every account if none is named.
    Account(Option<Id>),
    /// Every category.
    Category,
    /// One plan, or every plan if none is named.
    Plan(Option<Id>),
}

/// The parameters of a report.
#[derive(Debug, Clone, Copy, PartialEq, Eq, Structural)]
pub struct Parameters {
    /// Build the report for the whole period of time.
    pub epoch: bool,
    /// The year of the report: a year, zero for the current year, or -1 for
    /// the previous one.
    pub year: i32,
    /// The month of the report: 1 to 12, zero for the current month, or -1
    /// for the previous one.
    pub month: i32,
    /// What the report is built for.
    pub target: ReportTarget,
}

/// A half-open interval of days: from the start of `start` up to, but not
/// including, the start of `end`.
#[derive(Debug, Clone, Copy, PartialEq, Eq, Structural)]
pub struct Interval {
    pub start: Date,
    pub end: Date,
}

impl Interval {
    /// The window of time that the interval covers: from the start of its
    /// first day in UTC up to, but not including, the start of its end.
    pub fn window(&self) -> (window: TimeWindow)
        requires
            self.start.wf(),
            self.end.wf(),
        ensures
            window.start == self.start.start(),
            window.end == self.end.start(),
    {
        TimeWindow { start: self.start.midnight(), end: self.end.midnight() }
    }
}

/// A report as it was built.
#[derive(Debug, PartialEq, Eq)]
pub enum Built {
    /// A report on accounts.
    Accounts(Vec<AccountReport>),
    /// The report on categories.
    Categories(Vec<CategoryLine>),
    /// The report on plans.
    Plans(Vec<PlanLine>),
}

/// What the command line says about the target of a report.
#[derive(Debug, Clone, Copy, PartialEq, Eq, Structural)]
pub struct TargetFlags {
    /// Every account was asked for.
    pub accounts: bool,
    /// One account was asked for.
    pub account: Option<Id>,
    /// Every category was asked for.
    pub categories: bool,
    /// Every plan was asked for.
    pub plans: bool,
    /// One plan was asked for.
    pub plan: Option<Id>,
}

/// The building of reports.
pub struct Report;

/// The target that the flags name: the first that is given of all accounts,
/// one account, all categories, all plans and one plan, and all accounts if
/// none is given.
pub open spec fn target_of(flags: TargetFlags) -> ReportTarget {
    if flags.accounts {
        ReportTarget::Account(None)
    } else if flags.account is Some {
        ReportTarget::Account(flags.account)
    } else if flags.categories {
        ReportTarget::Category
    } else if flags.plans {
        ReportTarget::Plan(None)
    } else if flags.plan is Some {
        ReportTarget::Plan(flags.plan)
    } else {
        ReportTarget::Account(None)
    }
}

/// Whether month and year describe no interval that a report supports: the
/// previous month of any year but the current one.
pub open spec fn is_unsupported(month: int, year: int) -> bool {
    month == -1 && year != 0
}

/// How long the interval of a report is: a year where a year is given
/// without a month, and a month otherwise.
pub open spec fn span(month: int, year: int) -> Duration {
    if month == 0 && year != 0 {
        Duration::Year(1)
    } else {
        Duration::Month(1)
    }
}

/// Year, month and day of the first day of a report's interval on the day
/// `today`: the first of January where the interval is a year, and the first
/// of the month that the parameters stand for otherwise. The year is the one
/// that the parameters stand for; the previous month is counted around the
/// current year.
pub open spec fn first_day(month: int, year: int, today: Date) -> (int, int, int) {
    (
        absolute_year_spec(year, today.year as int),
        if span(month, year) is Year {
            1
        } else {
            absolute_month_spec(month, today.month as int)
        },
        1,
    )
}

/// What the interval of a report has to be on the day `today`.
///
/// A report for the whole period has none. The previous month of another
/// year than the current one is refused as `InvalidInterval`. In every other
/// case the interval starts at the first day of the month and year that the
/// parameters stand for and ends one span later; where one of the two days
/// does not exist, the error is the one for that day.
pub open spec fn interval_outcome(parameters: Parameters, today: Date, result: Result<Option<Interval>, Error>) -> bool {
    let (month, year) = (parameters.month as int, parameters.year as int);
    let (first_year, first_month, first) = first_day(month, year, today);
    if parameters.epoch {
        result == Ok::<Option<Interval>, Error>(None)
    } else if is_unsupported(month, year) {
        result is Err && result->Err_0.kind == ErrorKind::InvalidInterval
    } else if !is_calendar_date(first_year, first_month, first) {
        result is Err && is_invalid_date(result->Err_0, first_year, first_month, first)
    } else {
        let start = Date { year: first_year as i32, month: first_month as u32, day: 1 };
        let (last_year, last_month, last) = advanced(start, span(month, year));
        if is_calendar_date(last_year, last_month, last) {
            result == Ok::<Option<Interval>, Error>(
                Some(
                    Interval {
                        start,
                        end: Date { year: last_year as i32, month: last_month as u32, day: last as u32 },
                    },
                ),
            )
        } else {
            result is Err && is_invalid_date(result->Err_0, last_year, last_month, last)
        }
    }
}

/// What building a report has to give: the report on what the target names.
pub open spec fn built_for(
    ledger: Ledger,
    target: ReportTarget,
    window: Option<TimeWindow>,
    result: Result<Built, Error>,
) -> bool {
    match (target, result) {
        (ReportTarget::Account(account), Ok(Built::Accounts(reports))) => accounts_built(
            ledger,
            window,
            account,
            Ok(reports),
        ),
        (ReportTarget::Account(account), Err(error)) => accounts_built(
            ledger,
            window,
            account,
            Err(error),
        ),
        (ReportTarget::Category, Ok(Built::Categories(lines))) => categories_reported(
            ledger,
            window,
            Ok(lines),
        ),
        (ReportTarget::Category, Err(error)) => categories_reported(ledger, window, Err(error)),
        (ReportTarget::Plan(plan), Ok(Built::Plans(lines))) => plans_built(
            ledger,
            window,
            plan,
            Ok(lines),
        ),
        (ReportTarget::Plan(plan), Err(error)) => plans_built(ledger, window, plan, Err(error)),
        _ => false,
    }
}

impl Report {
    /// Builds the report on what the target names, for the window of time.
    pub fn build(budget: &Budget, target: ReportTarget, window: Option<TimeWindow>) -> (result: Result<
        Built,
        Error,
    >)
        requires
            budget.wf(),
        ensures
            built_for(budget@, target, window, result),
    {
        match target {
            ReportTarget::Account(account) => {
                match Self::build_accounts_report(budget, window, account) {
                    Ok(reports) => Ok(Built::Accounts(reports)),
                    Err(error) => Err(error),
                }
            },
            ReportTarget::Category => {
                match Self::build_categories_report(budget, window) {
                    Ok(lines) => Ok(Built::Categories(lines)),
                    Err(error) => Err(error),
                }
            },
            ReportTarget::Plan(plan) => {
                match Self::build_plans_report(budget, window, plan) {
                    Ok(lines) => Ok(Built::Plans(lines)),
                    Err(error) => Err(error),
                }
            },
        }
    }

    /// The target of a report, from what the command line says about it.
    pub fn get_target(flags: &TargetFlags) -> (target: ReportTarget)
        ensures
            target == target_of(*flags),
    {
        if flags.accounts {
            return ReportTarget::Account(None);
        }
        if let Some(account) = flags.account {
            return ReportTarget::Account(Some(account));
        }
        if flags.categories {
            return ReportTarget::Category;
        }
        if flags.plans {
            return ReportTarget::Plan(None);
        }
        if let Some(plan) = flags.plan {
            return ReportTarget::Plan(Some(plan));
        }
        ReportTarget::Account(None)
    }

    /// The interval of a report on the day `today`.
    pub fn time_interval_on(parameters: &Parameters, today: &Date) -> (result: Result<
        Option<Interval>,
        Error,
    >)
        requires
            today.wf(),
        ensures
            interval_outcome(*parameters, *today, result),
    {
        if parameters.epoch {
            return Ok(None);
        }
        let (month, year) = (parameters.month, parameters.year);
        if month == -1 && year != 0 {
            return Err(Error::new(ErrorKind::InvalidInterval));
        }
        let duration = if month == 0 && year != 0 {
            Duration::Year(1)
        } else {
            Duration::Month(1)
        };
        let first_month = match duration {
            Duration::Year(_) => 1,
            Duration::Month(_) => absolute_month_on(month, today),
        };
        if year < MIN_RELATIVE_YEAR {
            return Err(invalid_date(today.year as i64 + year as i64, first_month as i64, 1));
        }
        let start = match make_date(absolute_year_on(year, today), first_month, 1) {
            Ok(start) => start,
            Err(error) => {
                return Err(error);
            },
        };
        match advance_date(&start, duration) {
            Ok(end) => Ok(Some(Interval { start, end })),
            Err(error) => Err(error),
        }
    }

    /// The interval of a report now.
    ///
    /// Whatever the clock says, a report for the whole period has no
    /// interval, the previous month of another year than the current one is
    /// refused, and an interval that is returned is the one that the
    /// parameters give on some day.
    pub fn time_interval(parameters: &Parameters) -> (result: Result<Option<Interval>, Error>)
        ensures
            exists|today: Date| today.wf() && #[trigger] interval_outcome(*parameters, today, result),
    {
        let (_, today) = present();
        let result = Self::time_interval_on(parameters, &today);
        assert(interval_outcome(*parameters, today, result));
        result
    }
}

/// The previous month of any year but the current one is refused, on any
/// day, unless the report is for the whole period.
pub proof fn previous_month_of_another_year_is_refused(
    parameters: Parameters,
    today: Date,
    result: Result<Option<Interval>, Error>,
)
    requires
        !parameters.epoch,
        parameters.month == -1,
        parameters.year != 0,
        interval_outcome(parameters, today, result),
    ensures
        result is Err,
        result->Err_0.kind == ErrorKind::InvalidInterval,
{
}

/// The interval of the previous year is that year: from its first of
/// January up to the first of January of the current year.
pub proof fn previous_year_is_a_whole_year(
    parameters: Parameters,
    today: Date,
    result: Result<Option<Interval>, Error>,
)
    requires
        !parameters.epoch,
        parameters.month == 0,
        parameters.year == -1,
        today.wf(),
        today.year > MIN_YEAR,
        interval_outcome(parameters, today, result),
    ensures
        result == Ok::<Option<Interval>, Error>(
            Some(
                Interval {
                    start: Date { year: (today.year - 1) as i32, month: 1, day: 1 },
                    end: Date { year: today.year, month: 1, day: 1 },
                },
            ),
        ),
{
    let start = Date { year: (today.year - 1) as i32, month: 1, day: 1 };
    assert(first_day(0, -1, today) == (today.year - 1, 1int, 1int));
    assert(advanced(start, Duration::Year(1)) == (today.year as int, 1int, 1int));
}

} // verus!
