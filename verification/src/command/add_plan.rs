//! Adding plans.

use vstd::prelude::*;

use crate::command::common::selected;
use crate::command::Question;
use crate::error::{Error, ErrorKind};
use crate::storage::{Category, Id};

verus! {

/// The command that adds plans.
pub struct AddPlan;

/// A plan as the user entered it.
#[derive(Debug, PartialEq, Eq)]
pub struct PlanDraft {
    pub category_id: Id,
    pub name: String,
    pub amount_limit: isize,
}

/// What entering a plan has to give: the plan for the selected category with
/// the size of the entered limit, or the error `ValueOutOfRange` where the
/// list has no such place or the limit has no opposite.
pub open spec fn plan_entered(
    categories: Seq<Category>,
    selection: usize,
    name: String,
    amount_limit: isize,
    result: Result<PlanDraft, Error>,
) -> bool {
    if selection < categories.len() && amount_limit > isize::MIN {
        result == Ok::<PlanDraft, Error>(
            PlanDraft {
                category_id: categories[selection as int].id,
                name,
                amount_limit: if amount_limit < 0 {
                    (-amount_limit) as isize
                } else {
                    amount_limit
                },
            },
        )
    } else {
        result is Err && result->Err_0.kind == ErrorKind::ValueOutOfRange
    }
}

impl AddPlan {
    /// The question whether another plan is to be added.
    pub fn needs_another_plan() -> (question: Question<'static>)
        ensures
            question.prompt@ == "Do you want to add another plan?"@,
            question.default,
    {
        Question { prompt: "Do you want to add another plan?", default: true }
    }

    /// Whether there is a category to make a plan for.
    ///
    /// Fails with `NoCategories` where there is none.
    pub fn check_lists(categories: usize) -> (result: Result<(), Error>)
        ensures
            categories > 0 ==> result is Ok,
            categories == 0 ==> result is Err && result->Err_0.kind == ErrorKind::NoCategories,
    {
        if categories == 0 {
            Err(Error::new(ErrorKind::NoCategories))
        } else {
            Ok(())
        }
    }

    /// The plan that the user entered. A negative limit is negated.
    pub fn input_plan(categories: &Vec<Category>, selection: usize, name: String, amount_limit: isize) -> (result:
        Result<PlanDraft, Error>)
        ensures
            plan_entered(categories@, selection, name, amount_limit, result),
    {
        let category_id = match selected(categories, selection) {
            Ok(category) => category.id,
            Err(error) => {
                return Err(error);
            },
        };
        if amount_limit == isize::MIN {
            return Err(Error::new(ErrorKind::ValueOutOfRange));
        }
        let amount_limit = if amount_limit < 0 {
            -amount_limit
        } else {
            amount_limit
        };
        Ok(PlanDraft { category_id, name, amount_limit })
    }
}

} // verus!
