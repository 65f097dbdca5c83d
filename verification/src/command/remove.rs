//! Removing accounts.

use vstd::prelude::*;

use crate::command::Question;

verus! {

/// The command that removes accounts.
pub struct RemoveAccount;

impl RemoveAccount {
    /// The question whether the transactions of an account go with it.
    pub fn force_question() -> (question: Question<'static>)
        ensures
            question.prompt@ == "Remove account with all corresponding transactions?"@,
            !question.default,
    {
        Question { prompt: "Remove account with all corresponding transactions?", default: false }
    }
}

} // verus!
