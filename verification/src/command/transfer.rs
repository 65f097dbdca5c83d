//! Transfers between accounts.

use vstd::prelude::*;

use crate::command::common::selected;
use crate::command::Question;
use crate::error::{Error, ErrorKind};
use crate::storage::{Account, Id, Timestamp};

verus! {

/// The command that adds transfers.
pub struct Transfer;

/// The parameters of the command.
#[derive(Debug, Clone, Copy, PartialEq, Eq, Structural)]
pub struct Parameters {
    /// Add several transfers in a row.
    pub multi: bool,
    /// Ask for every field of a transfer.
    pub full: bool,
}

/// A transfer as the user entered it.
#[derive(Debug, Clone, Copy, PartialEq, Eq, Structural)]
pub struct TransferDraft {
    pub amount: isize,
    pub from: Id,
    pub to: Id,
    pub timestamp: Timestamp,
}

/// What entering a transfer has to give: the transfer between the selected
/// accounts, or the error `ValueOutOfRange` where the list has no such place.
pub open spec fn transfer_entered(
    accounts: Seq<Account>,
    from_selection: usize,
    to_selection: usize,
    amount: isize,
    timestamp: Timestamp,
    result: Result<TransferDraft, Error>,
) -> bool {
    if from_selection < accounts.len() && to_selection < accounts.len() {
        result == Ok::<TransferDraft, Error>(
            TransferDraft {
                amount,
                from: accounts[from_selection as int].id,
                to: accounts[to_selection as int].id,
                timestamp,
            },
        )
    } else {
        result is Err && result->Err_0.kind == ErrorKind::ValueOutOfRange
    }
}

impl Transfer {
    /// The parameters that the flags of the command line give.
    pub fn parse_args(multi: bool, full: bool) -> (parameters: Parameters)
        ensures
            parameters == (Parameters { multi, full }),
    {
        Parameters { multi, full }
    }

    /// Whether there is an account to transfer from.
    ///
    /// Fails with `NoAccounts` where there is none.
    pub fn check_lists(accounts: usize) -> (result: Result<(), Error>)
        ensures
            accounts > 0 ==> result is Ok,
            accounts == 0 ==> result is Err && result->Err_0.kind == ErrorKind::NoAccounts,
    {
        if accounts == 0 {
            Err(Error::new(ErrorKind::NoAccounts))
        } else {
            Ok(())
        }
    }

    /// The question whether another transfer is to be added.
    pub fn needs_another_transfer() -> (question: Question<'static>)
        ensures
            question.prompt@ == "Do you want to add another transfer?"@,
            question.default,
    {
        Question { prompt: "Do you want to add another transfer?", default: true }
    }

    /// The transfer that the user entered.
    pub fn input_transfer(
        accounts: &Vec<Account>,
        from_selection: usize,
        to_selection: usize,
        amount: isize,
        timestamp: Timestamp,
    ) -> (result: Result<TransferDraft, Error>)
        ensures
            transfer_entered(accounts@, from_selection, to_selection, amount, timestamp, result),
    {
        let from = match selected(accounts, from_selection) {
            Ok(account) => account.id,
            Err(error) => {
                return Err(error);
            },
        };
        let to = match selected(accounts, to_selection) {
            Ok(account) => account.id,
            Err(error) => {
                return Err(error);
            },
        };
        Ok(TransferDraft { amount, from, to, timestamp })
    }

    /// Whether a transfer is to be skipped because it leaves the money where it is.
    pub fn is_idle(draft: &TransferDraft) -> (idle: bool)
        ensures
            idle == (draft.from == draft.to),
    {
        draft.from == draft.to
    }
}

} // verus!
