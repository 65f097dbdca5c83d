//! Adding accounts.

use vstd::prelude::*;

use crate::command::Question;

verus! {

/// The command that adds accounts.
pub struct AddAccount;

/// An account as the user entered it.
#[derive(Debug, PartialEq, Eq)]
pub struct AccountDraft {
    pub name: String,
    pub balance: isize,
}

impl AddAccount {
    /// The question whether another account is to be added.
    pub fn needs_another_account() -> (question: Question<'static>)
        ensures
            question.prompt@ == "Do you want to add another account?"@,
            question.default,
    {
        Question { prompt: "Do you want to add another account?", default: true }
    }

    /// The account that the user entered.
    pub fn input_account(name: String, balance: isize) -> (draft: AccountDraft)
        ensures
            draft == (AccountDraft { name, balance }),
    {
        AccountDraft { name, balance }
    }
}

} // verus!
