//! The report on accounts: each account with its transactions.

use vstd::prelude::*;

use crate::budget::Budget;
use crate::error::{Error, ErrorKind};
use crate::ledger::{chosen, Ledger, Query, TimeWindow};
use crate::report::Report;
use crate::rows::{has_live, live_rows, row_with};
use crate::storage::{Account, Id, Timestamp, Transaction};

verus! {

/// One transaction in the report on an account.
#[derive(Debug, PartialEq, Eq)]
pub struct TransactionLine {
    pub description: String,
    pub amount: isize,
    pub timestamp: Timestamp,
    /// The name of the category of the transaction.
    pub category: String,
}

/// The report on one account.
#[derive(Debug, PartialEq, Eq)]
pub struct AccountReport {
    pub name: String,
    pub id: Id,
    pub balance: isize,
    /// The transactions of the account in the window of the report.
    pub lines: Vec<TransactionLine>,
}

/// The transactions of an account in the window of a report.
pub open spec fn account_query(account: Id, window: Option<TimeWindow>) -> Query {
    Query { account: Some(account), category: None, window }
}

/// The line of a transaction in the report on its account.
pub open spec fn transaction_line(ledger: Ledger, transaction: Transaction) -> TransactionLine {
    TransactionLine {
        description: transaction.description,
        amount: transaction.amount,
        timestamp: transaction.timestamp,
        category: row_with(ledger.categories, transaction.category_id).name,
    }
}

/// Whether the lines are those of the transactions, in their order, each
/// with a category that exists and is not removed.
pub open spec fn lines_match(ledger: Ledger, transactions: Seq<Transaction>, lines: Seq<TransactionLine>) -> bool {
    &&& lines.len() == transactions.len()
    &&& forall|i: int|
        0 <= i < transactions.len() ==> has_live(
            ledger.categories,
            (#[trigger] transactions[i]).category_id,
        ) && lines[i] == transaction_line(ledger, transactions[i])
}

/// Whether some transaction has a category that does not exist or is removed.
pub open spec fn lacks_category(ledger: Ledger, transactions: Seq<Transaction>) -> bool {
    exists|i: int|
        0 <= i < transactions.len() && !has_live(
            ledger.categories,
            (#[trigger] transactions[i]).category_id,
        )
}

/// Whether the report is the one on the account: its name, identifier and
/// balance, and a line for each of its transactions in the window.
pub open spec fn report_matches(
    ledger: Ledger,
    window: Option<TimeWindow>,
    account: Account,
    report: AccountReport,
) -> bool {
    &&& report.name == account.name
    &&& report.id == account.id
    &&& report.balance == account.balance
    &&& lines_match(
        ledger,
        chosen(ledger.transactions, account_query(account.id, window)),
        report.lines@,
    )
}

/// What the report on one account has to be: the report that matches, or
/// the error `EntityNotFound` where a transaction of the account has a
/// category that does not exist or is removed.
pub open spec fn account_reported(
    ledger: Ledger,
    window: Option<TimeWindow>,
    account: Account,
    result: Result<AccountReport, Error>,
) -> bool {
    match result {
        Ok(report) => report_matches(ledger, window, account, report),
        Err(error) => error.kind == ErrorKind::EntityNotFound && lacks_category(
            ledger,
            chosen(ledger.transactions, account_query(account.id, window)),
        ),
    }
}

/// The accounts that a report is about: the one that is named, or every
/// account that is not removed.
pub open spec fn reported_accounts(ledger: Ledger, account: Option<Id>) -> Seq<Account> {
    match account {
        Some(id) => seq![row_with(ledger.accounts, id)],
        None => live_rows(ledger.accounts),
    }
}

/// What the report on the given accounts has to be: a report for each, in
/// their order, or the error `EntityNotFound` where a transaction of one of
/// them has a category that does not exist or is removed.
pub open spec fn accounts_reported(
    ledger: Ledger,
    window: Option<TimeWindow>,
    accounts: Seq<Account>,
    result: Result<Vec<AccountReport>, Error>,
) -> bool {
    match result {
        Ok(reports) => {
            &&& reports@.len() == accounts.len()
            &&& forall|i: int|
                0 <= i < accounts.len() ==> report_matches(
                    ledger,
                    window,
                    #[trigger] accounts[i],
                    reports@[i],
                )
        },
        Err(error) => error.kind == ErrorKind::EntityNotFound && exists|i: int|
            0 <= i < accounts.len() && lacks_category(
                ledger,
                chosen(ledger.transactions, account_query((#[trigger] accounts[i]).id, window)),
            ),
    }
}

/// What the report on accounts has to be: the error `EntityNotFound` where
/// an account is named that does not exist or is removed, and the report on
/// the accounts that it is about otherwise.
pub open spec fn accounts_built(
    ledger: Ledger,
    window: Option<TimeWindow>,
    account: Option<Id>,
    result: Result<Vec<AccountReport>, Error>,
) -> bool {
    if account is Some && !has_live(ledger.accounts, account->0) {
        result is Err && result->Err_0.kind == ErrorKind::EntityNotFound
    } else {
        accounts_reported(ledger, window, reported_accounts(ledger, account), result)
    }
}

impl Report {
    /// The lines of the given transactions.
    fn transaction_lines(budget: &Budget, transactions: &Vec<Transaction>) -> (result: Result<
        Vec<TransactionLine>,
        Error,
    >)
        requires
            budget.wf(),
        ensures
            match result {
                Ok(lines) => lines_match(budget@, transactions@, lines@),
                Err(error) => error.kind == ErrorKind::EntityNotFound && lacks_category(
                    budget@,
                    transactions@,
                ),
            },
    {
        let mut lines: Vec<TransactionLine> = Vec::new();
        let mut i: usize = 0;
        while i < transactions.len()
            invariant
                budget.wf(),
                i <= transactions.len(),
                lines@.len() == i,
                forall|k: int|
                    0 <= k < i ==> has_live(
                        budget@.categories,
                        (#[trigger] transactions@[k]).category_id,
                    ) && lines@[k] == transaction_line(budget@, transactions@[k]),
            decreases transactions.len() - i,
        {
            let transaction = &transactions[i];
            match budget.category(transaction.category_id) {
                Ok(category) => {
                    lines.push(
                        TransactionLine {
                            description: transaction.description.clone(),
                            amount: transaction.amount,
                            timestamp: transaction.timestamp,
                            category: category.name,
                        },
                    );
                },
                Err(error) => {
                    proof {
                        let orphan = transactions@[i as int];
                        assert(!has_live(budget@.categories, orphan.category_id));
                    }
                    return Err(error);
                },
            }
            i += 1;
        }
        Ok(lines)
    }

    /// The report on one account.
    pub fn internal_build_account_report(budget: &Budget, window: Option<TimeWindow>, account: &Account) -> (result:
        Result<AccountReport, Error>)
        requires
            budget.wf(),
        ensures
            account_reported(budget@, window, *account, result),
    {
        let query = Query { account: Some(account.id), category: None, window };
        let transactions = budget.select(&query);
        match Self::transaction_lines(budget, &transactions) {
            Ok(lines) => Ok(
                AccountReport {
                    name: account.name.clone(),
                    id: account.id,
                    balance: account.balance,
                    lines,
                },
            ),
            Err(error) => Err(error),
        }
    }

    /// The reports on the given accounts.
    pub fn account_reports(budget: &Budget, window: Option<TimeWindow>, accounts: &Vec<Account>) -> (result:
        Result<Vec<AccountReport>, Error>)
        requires
            budget.wf(),
        ensures
            accounts_reported(budget@, window, accounts@, result),
    {
        let mut reports: Vec<AccountReport> = Vec::new();
        let mut i: usize = 0;
        while i < accounts.len()
            invariant
                budget.wf(),
                i <= accounts.len(),
                reports@.len() == i,
                forall|k: int|
                    0 <= k < i ==> report_matches(budget@, window, #[trigger] accounts@[k], reports@[k]),
            decreases accounts.len() - i,
        {
            match Self::internal_build_account_report(budget, window, &accounts[i]) {
                Ok(report) => reports.push(report),
                Err(error) => {
                    proof {
                        let account = accounts@[i as int];
                        assert(lacks_category(
                            budget@,
                            chosen(budget@.transactions, account_query(account.id, window)),
                        ));
                    }
                    return Err(error);
                },
            }
            i += 1;
        }
        Ok(reports)
    }

    /// The report on accounts: on the account that is named, or on every
    /// account that is not removed.
    ///
    /// Fails with `EntityNotFound` where the named account, or the category
    /// of a transaction, does not exist or is removed.
    pub fn build_accounts_report(budget: &Budget, window: Option<TimeWindow>, account: Option<Id>) -> (result:
        Result<Vec<AccountReport>, Error>)
        requires
            budget.wf(),
        ensures
            accounts_built(budget@, window, account, result),
    {
        let accounts = match account {
            Some(id) => {
                let mut accounts: Vec<Account> = Vec::new();
                match budget.account(id) {
                    Ok(account) => accounts.push(account),
                    Err(error) => {
                        return Err(error);
                    },
                }
                accounts
            },
            None => budget.accounts(),
        };
        assert(accounts@ =~= reported_accounts(budget@, account));
        Self::account_reports(budget, window, &accounts)
    }
}

} // verus!
