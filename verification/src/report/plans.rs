//! The report on plans: what was spent under each plan, and what remains.

use vstd::prelude::*;

use crate::budget::Budget;
use crate::error::{Error, ErrorKind};
use crate::ledger::{sum, total, Ledger, Query, TimeWindow};
use crate::report::Report;
use crate::rows::{has_live, live_rows, row_with};
use crate::storage::{Category, Id, Plan};

verus! {

/// One line of the report on plans.
#[derive(Debug, PartialEq, Eq)]
pub struct PlanLine {
    /// The name of the plan.
    pub plan: String,
    /// The name of the category of the plan.
    pub category: String,
    /// What was spent under the category of the plan.
    pub spent: isize,
    /// What remains of the limit of the plan; negative where more was spent.
    pub remains: isize,
}

/// The transactions of the category of a plan in the window of a report.
pub open spec fn plan_query(plan: Plan, window: Option<TimeWindow>) -> Query {
    Query { account: None, category: Some(plan.category_id), window }
}

/// The sum of the amounts booked under the category of a plan.
pub open spec fn plan_total(ledger: Ledger, window: Option<TimeWindow>, plan: Plan) -> int {
    total(ledger.transactions, plan_query(plan, window))
}

/// What was spent under a plan: the size of the sum of the amounts booked
/// under its category.
pub open spec fn plan_spent(ledger: Ledger, window: Option<TimeWindow>, plan: Plan) -> int {
    let sum = plan_total(ledger, window, plan);
    if sum < 0 {
        -sum
    } else {
        sum
    }
}

/// Why a plan cannot be reported on, if it cannot: its category does not
/// exist or is removed, or what was spent does not fit the type of amounts.
pub open spec fn plan_failure(ledger: Ledger, window: Option<TimeWindow>, plan: Plan) -> Option<ErrorKind> {
    if !has_live(ledger.categories, plan.category_id) {
        Some(ErrorKind::EntityNotFound)
    } else if plan_spent(ledger, window, plan) > isize::MAX {
        Some(ErrorKind::ValueOutOfRange)
    } else {
        None
    }
}

/// Why a plan has no line in the report, if it has none: it cannot be
/// reported on, or what remains does not fit the type of amounts.
pub open spec fn line_failure(ledger: Ledger, window: Option<TimeWindow>, plan: Plan) -> Option<ErrorKind> {
    if plan_failure(ledger, window, plan) is Some {
        plan_failure(ledger, window, plan)
    } else if plan.amount_limit - plan_spent(ledger, window, plan) < isize::MIN {
        Some(ErrorKind::ValueOutOfRange)
    } else {
        None
    }
}

/// The line of a plan in the report.
pub open spec fn plan_line(ledger: Ledger, window: Option<TimeWindow>, plan: Plan) -> PlanLine {
    PlanLine {
        plan: plan.name,
        category: row_with(ledger.categories, plan.category_id).name,
        spent: plan_spent(ledger, window, plan) as isize,
        remains: (plan.amount_limit - plan_spent(ledger, window, plan)) as isize,
    }
}

/// The plans that a report is about: the one that is named, or every plan
/// that is not removed.
pub open spec fn reported_plans(ledger: Ledger, plan: Option<Id>) -> Seq<Plan> {
    match plan {
        Some(id) => seq![row_with(ledger.plans, id)],
        None => live_rows(ledger.plans),
    }
}

/// What the report on the given plans has to be: a line for each plan, in
/// their order, or the error of the first plan that has no line.
pub open spec fn plans_reported(
    ledger: Ledger,
    window: Option<TimeWindow>,
    plans: Seq<Plan>,
    result: Result<Vec<PlanLine>, Error>,
) -> bool {
    match result {
        Ok(lines) => {
            &&& lines@.len() == plans.len()
            &&& forall|i: int|
                0 <= i < plans.len() ==> line_failure(ledger, window, #[trigger] plans[i]) is None
                    && lines@[i] == plan_line(ledger, window, plans[i])
        },
        Err(error) => exists|i: int|
            0 <= i < plans.len() && line_failure(ledger, window, #[trigger] plans[i]) == Some(
                error.kind,
            ) && forall|j: int| 0 <= j < i ==> line_failure(ledger, window, #[trigger] plans[j]) is None,
    }
}

/// What the report on plans has to be: the error `EntityNotFound` where a
/// plan is named that does not exist or is removed, and the report on the
/// plans that it is about otherwise.
pub open spec fn plans_built(
    ledger: Ledger,
    window: Option<TimeWindow>,
    plan: Option<Id>,
    result: Result<Vec<PlanLine>, Error>,
) -> bool {
    if plan is Some && !has_live(ledger.plans, plan->0) {
        result is Err && result->Err_0.kind == ErrorKind::EntityNotFound
    } else {
        plans_reported(ledger, window, reported_plans(ledger, plan), result)
    }
}

impl Report {
    /// The category of a plan and what was spent under it in the window.
    ///
    /// Fails with `EntityNotFound` where the category does not exist or is
    /// removed, and with `ValueOutOfRange` where what was spent does not fit
    /// the type of amounts.
    pub fn internal_build_plan_report(budget: &Budget, window: Option<TimeWindow>, plan: &Plan) -> (result:
        Result<(Category, isize), Error>)
        requires
            budget.wf(),
        ensures
            match plan_failure(budget@, window, *plan) {
                Some(kind) => result is Err && result->Err_0.kind == kind,
                None => result == Ok::<(Category, isize), Error>(
                    (
                        row_with(budget@.categories, plan.category_id),
                        plan_spent(budget@, window, *plan) as isize,
                    ),
                ),
            },
    {
        let category = match budget.category(plan.category_id) {
            Ok(category) => category,
            Err(error) => {
                return Err(error);
            },
        };
        let query = Query { account: None, category: Some(plan.category_id), window };
        let spent = match budget.total(&query) {
            Some(sum) => {
                if sum == isize::MIN {
                    return Err(Error::new(ErrorKind::ValueOutOfRange));
                } else if sum < 0 {
                    -sum
                } else {
                    sum
                }
            },
            None => {
                return Err(Error::new(ErrorKind::ValueOutOfRange));
            },
        };
        Ok((category, spent))
    }

    /// The line of a plan in the report.
    pub fn plan_line(budget: &Budget, window: Option<TimeWindow>, plan: &Plan) -> (result: Result<
        PlanLine,
        Error,
    >)
        requires
            budget.wf(),
        ensures
            match line_failure(budget@, window, *plan) {
                Some(kind) => result is Err && result->Err_0.kind == kind,
                None => result == Ok::<PlanLine, Error>(plan_line(budget@, window, *plan)),
            },
    {
        let (category, spent) = match Self::internal_build_plan_report(budget, window, plan) {
            Ok(found) => found,
            Err(error) => {
                return Err(error);
            },
        };
        if plan.amount_limit < isize::MIN + spent {
            return Err(Error::new(ErrorKind::ValueOutOfRange));
        }
        Ok(
            PlanLine {
                plan: plan.name.clone(),
                category: category.name,
                spent,
                remains: plan.amount_limit - spent,
            },
        )
    }

    /// The report on the given plans.
    pub fn plan_lines(budget: &Budget, window: Option<TimeWindow>, plans: &Vec<Plan>) -> (result: Result<
        Vec<PlanLine>,
        Error,
    >)
        requires
            budget.wf(),
        ensures
            plans_reported(budget@, window, plans@, result),
    {
        let mut lines: Vec<PlanLine> = Vec::new();
        let mut i: usize = 0;
        while i < plans.len()
            invariant
                budget.wf(),
                i <= plans.len(),
                lines@.len() == i,
                forall|k: int|
                    0 <= k < i ==> line_failure(budget@, window, #[trigger] plans@[k]) is None
                        && lines@[k] == plan_line(budget@, window, plans@[k]),
            decreases plans.len() - i,
        {
            match Self::plan_line(budget, window, &plans[i]) {
                Ok(line) => lines.push(line),
                Err(error) => {
                    proof {
                        let plan = plans@[i as int];
                        assert(line_failure(budget@, window, plan) == Some(error.kind));
                    }
                    return Err(error);
                },
            }
            i += 1;
        }
        Ok(lines)
    }

    /// The report on plans: on the plan that is named, or on every plan that
    /// is not removed.
    ///
    /// Fails with `EntityNotFound` where the named plan, or the category of a
    /// plan, does not exist or is removed, and with `ValueOutOfRange` where
    /// what was spent or what remains does not fit the type of amounts.
    pub fn build_plans_report(budget: &Budget, window: Option<TimeWindow>, plan: Option<Id>) -> (result:
        Result<Vec<PlanLine>, Error>)
        requires
            budget.wf(),
        ensures
            plans_built(budget@, window, plan, result),
    {
        let plans = match plan {
            Some(id) => {
                let mut plans: Vec<Plan> = Vec::new();
                match budget.plan(id) {
                    Ok(plan) => plans.push(plan),
                    Err(error) => {
                        return Err(error);
                    },
                }
                plans
            },
            None => budget.plans(),
        };
        assert(plans@ =~= reported_plans(budget@, plan));
        Self::plan_lines(budget, window, &plans)
    }
}

} // verus!
