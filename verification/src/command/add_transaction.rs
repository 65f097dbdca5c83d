//! Adding transactions.

use vstd::prelude::*;

use crate::command::common::{normalized_amount, selected};
use crate::command::Question;
use crate::datetime::{lies_in, parse_timestamp, present, Date};
use crate::error::{Error, ErrorKind};
use crate::storage::{Account, Category, CategoryType, Id, Timestamp};
use crate::zone::admits;

verus! {

/// The command that adds transactions.
pub struct AddTransaction;

/// The parameters of the command.
#[derive(Debug, Clone, Copy, PartialEq, Eq, Structural)]
pub struct Parameters {
    /// Add several transactions in a row.
    pub multi: bool,
    /// Ask for every field of a transaction.
    pub full: bool,
    /// Offer only categories of this type.
    pub category_type: Option<CategoryType>,
}

/// A transaction as the user entered it.
#[derive(Debug, PartialEq, Eq)]
pub struct TransactionDraft {
    pub timestamp: Timestamp,
    pub description: String,
    pub account_id: Id,
    pub category_id: Id,
    pub amount: isize,
}

/// The type of category that the two flags ask for: one where exactly one of
/// them is given, none otherwise.
pub open spec fn asked_type(income: bool, outcome: bool) -> Option<CategoryType> {
    if income && !outcome {
        Some(CategoryType::Income)
    } else if outcome && !income {
        Some(CategoryType::Outcome)
    } else {
        None
    }
}

/// What entering a transaction has to give: the transaction of the selected
/// account and category, its amount with the sign that the category asks
/// for, or the error `ValueOutOfRange` where a list has no such place or the
/// amount has no opposite.
pub open spec fn transaction_entered(
    accounts: Seq<Account>,
    categories: Seq<Category>,
    category_selection: usize,
    account_selection: usize,
    description: String,
    amount: isize,
    timestamp: Timestamp,
    result: Result<TransactionDraft, Error>,
) -> bool {
    if category_selection < categories.len() && account_selection < accounts.len() && amount
        > isize::MIN {
        let category = categories[category_selection as int];
        result == Ok::<TransactionDraft, Error>(
            TransactionDraft {
                timestamp,
                description,
                account_id: accounts[account_selection as int].id,
                category_id: category.id,
                amount: category.category_type.signed(amount as int) as isize,
            },
        )
    } else {
        result is Err && result->Err_0.kind == ErrorKind::ValueOutOfRange
    }
}

impl AddTransaction {
    /// The parameters that the flags of the command line give.
    pub fn parse_args(multi: bool, full: bool, income: bool, outcome: bool) -> (parameters: Parameters)
        ensures
            parameters == (Parameters { multi, full, category_type: asked_type(income, outcome) }),
    {
        let category_type = if income && !outcome {
            Some(CategoryType::Income)
        } else if outcome && !income {
            Some(CategoryType::Outcome)
        } else {
            None
        };
        Parameters { multi, full, category_type }
    }

    /// Whether there is anything to book a transaction on.
    ///
    /// Fails with `NoAccounts` where there is no account, and with
    /// `NoCategories` where there is an account and no category.
    pub fn check_lists(accounts: usize, categories: usize) -> (result: Result<(), Error>)
        ensures
            accounts == 0 ==> result is Err && result->Err_0.kind == ErrorKind::NoAccounts,
            accounts > 0 && categories == 0 ==> result is Err && result->Err_0.kind
                == ErrorKind::NoCategories,
            accounts > 0 && categories > 0 ==> result is Ok,
    {
        if accounts == 0 {
            Err(Error::new(ErrorKind::NoAccounts))
        } else if categories == 0 {
            Err(Error::new(ErrorKind::NoCategories))
        } else {
            Ok(())
        }
    }

    /// The question whether another transaction is to be added.
    pub fn needs_another_transaction() -> (question: Question<'static>)
        ensures
            question.prompt@ == "Do you want to add another transaction?"@,
            question.default,
    {
        Question { prompt: "Do you want to add another transaction?", default: true }
    }

    /// The time of a transaction: the entered one where the user entered
    /// one, the present otherwise.
    ///
    /// Fails only where the user entered a time and it was not understood.
    /// A time that is followed by the offset of a zone a day or more from
    /// UTC is never understood.
    pub fn timestamp(entered: Option<&str>) -> (result: Result<Timestamp, Error>)
        ensures
            entered is None ==> result is Ok && exists|day: Date| #[trigger]
                lies_in(result->Ok_0, day),
            result is Err ==> entered is Some && result->Err_0.kind == ErrorKind::ParseError,
            entered is Some && !admits(entered->0@) ==> result is Err,
    {
        let read = match entered {
            Some(text) => Some(parse_timestamp(text)),
            None => None,
        };
        let (moment, day) = present();
        let result = Self::timestamp_of(read, moment);
        proof {
            if entered is None {
                assert(result == Ok::<Timestamp, Error>(moment));
                assert(lies_in(result->Ok_0, day));
            }
        }
        result
    }

    /// The time of a transaction, from what came of reading the entered
    /// time, if one was entered, and from the present moment: what came of
    /// the reading where a time was entered, and the present moment otherwise.
    pub fn timestamp_of(read: Option<Result<Timestamp, Error>>, present: Timestamp) -> (result: Result<
        Timestamp,
        Error,
    >)
        ensures
            result == entered_or_present(read, present),
    {
        match read {
            Some(outcome) => outcome,
            None => Ok(present),
        }
    }

    /// The transaction that the user entered.
    pub fn input_transaction(
        accounts: &Vec<Account>,
        categories: &Vec<Category>,
        category_selection: usize,
        account_selection: usize,
        description: String,
        amount: isize,
        timestamp: Timestamp,
    ) -> (result: Result<TransactionDraft, Error>)
        ensures
            transaction_entered(
                accounts@,
                categories@,
                category_selection,
                account_selection,
                description,
                amount,
                timestamp,
                result,
            ),
    {
        let category = match selected(categories, category_selection) {
            Ok(category) => category,
            Err(error) => {
                return Err(error);
            },
        };
        let account = match selected(accounts, account_selection) {
            Ok(account) => account,
            Err(error) => {
                return Err(error);
            },
        };
        let amount = match normalized_amount(amount, category.category_type) {
            Ok(amount) => amount,
            Err(error) => {
                return Err(error);
            },
        };
        Ok(
            TransactionDraft {
                timestamp,
                description,
                account_id: account.id,
                category_id: category.id,
                amount,
            },
        )
    }
}

/// The time of a transaction: what came of reading the entered time where
/// one was entered, and the present moment otherwise.
pub open spec fn entered_or_present(read: Option<Result<Timestamp, Error>>, present: Timestamp) -> Result<
    Timestamp,
    Error,
> {
    match read {
        Some(outcome) => outcome,
        None => Ok(present),
    }
}

} // verus!
