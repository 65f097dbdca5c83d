//! The budget: one copy of the ledger and the rules that keep it sound.
//!
//! Every operation either succeeds and leaves the ledger that its contract
//! names, or fails and leaves the ledger as it was. Nothing is ever deleted by
//! a removal; removed entities stay, marked, until `clean_removed` drops them.

use vstd::prelude::*;

use crate::error::{Error, ErrorKind};
use crate::ledger::{
    can_strike, can_strike_plans, categories_of_type, chosen, directly_hit, found, has_plans, hit,
    outcome, plan_hit, sum, total, touches, transfer_income_id, transfer_outcome_id, with_balance,
    without, without_keeps_ids, without_plans, without_plans_keeps_ids, Ledger, Query, Target,
    TimeWindow, BUILT_IN_COUNT, BUILT_IN_INSTANCE,
};
use crate::rows::{
    bound_over, bound_over_is_bound, bound_survives_push, can_follow, changed_since,
    duplicate_rows,
    fresh_row_is_new, is_live, live_copy, live_position, live_rows, merge_rows,
    same_ids_same_order, serial_bound, strike_at, struck_keeps_ids,
};
use crate::sync::Snapshot;
use crate::storage::{
    Account, Category, CategoryType, Id, InstanceId, MetaInfo, Plan, Row, Timestamp, Transaction,
};

verus! {

/// One copy of the ledger.
#[derive(Debug, PartialEq, Eq)]
pub struct Budget {
    instance_id: InstanceId,
    next_serial: u64,
    accounts: Vec<Account>,
    categories: Vec<Category>,
    plans: Vec<Plan>,
    transactions: Vec<Transaction>,
}

impl View for Budget {
    type V = Ledger;

    closed spec fn view(&self) -> Ledger {
        Ledger {
            instance_id: self.instance_id,
            next_serial: self.next_serial,
            accounts: self.accounts@,
            categories: self.categories@,
            plans: self.plans@,
            transactions: self.transactions@,
        }
    }
}

impl Budget {
    /// Whether the budget holds a sound ledger.
    pub open spec fn wf(&self) -> bool {
        self@.wf()
    }

    /// The identifier of the built-in income category.
    pub fn transfer_income() -> (id: Id)
        ensures
            id == transfer_income_id(),
    {
        Id { instance: BUILT_IN_INSTANCE, serial: 0 }
    }

    /// The identifier of the built-in outcome category.
    pub fn transfer_outcome() -> (id: Id)
        ensures
            id == transfer_outcome_id(),
    {
        Id { instance: BUILT_IN_INSTANCE, serial: 1 }
    }

    /// The budget of a new instance. It holds the two built-in categories,
    /// both named "Transfer", and nothing else.
    pub fn new(instance_id: InstanceId) -> (budget: Budget)
        ensures
            budget.wf(),
            exists|label: String|
                label@ == "Transfer"@ && budget@ == Ledger::initial(instance_id, label),
    {
        let label = "Transfer".to_owned();
        let meta = MetaInfo {
            instance_id: BUILT_IN_INSTANCE,
            created_at: 0,
            modified_at: 0,
            deleted_at: None,
        };
        let mut categories: Vec<Category> = Vec::new();
        categories.push(
            Category {
                id: Self::transfer_income(),
                name: label.clone(),
                category_type: CategoryType::Income,
                meta_info: meta,
            },
        );
        categories.push(
            Category {
                id: Self::transfer_outcome(),
                name: label.clone(),
                category_type: CategoryType::Outcome,
                meta_info: meta,
            },
        );
        let budget = Budget {
            instance_id,
            next_serial: if instance_id == BUILT_IN_INSTANCE {
                BUILT_IN_COUNT
            } else {
                0
            },
            accounts: Vec::new(),
            categories,
            plans: Vec::new(),
            transactions: Vec::new(),
        };
        proof {
            assert(budget@.categories =~= Ledger::initial(instance_id, label).categories);
            assert(budget@.accounts =~= Ledger::initial(instance_id, label).accounts);
            assert(budget@.plans =~= Ledger::initial(instance_id, label).plans);
            assert(budget@.transactions =~= Ledger::initial(instance_id, label).transactions);
            assert(budget@ == Ledger::initial(instance_id, label));
        }
        budget
    }

    /// The budget of an instance as it was stored: with the next number
    /// that it had, and with the rows that it held. The next number is raised
    /// above every number in use, and the balances are derived anew.
    ///
    /// Fails with `SyncDecryptError` when the rows hold an identifier twice,
    /// and with `ValueOutOfRange` when no number would be left for a new
    /// entity or a balance would not fit.
    pub fn restore(instance_id: InstanceId, next_serial: u64, rows: &Snapshot) -> (result: Result<
        Budget,
        Error,
    >)
        ensures
            match Ledger::blank(instance_id, next_serial).merge_failure(rows@) {
                Some(kind) => result is Err && result->Err_0.kind == kind,
                None => result is Ok && result->Ok_0.wf() && result->Ok_0@ == Ledger::blank(
                    instance_id,
                    next_serial,
                ).merged(rows@),
            },
    {
        let mut budget = Budget {
            instance_id,
            next_serial,
            accounts: Vec::new(),
            categories: Vec::new(),
            plans: Vec::new(),
            transactions: Vec::new(),
        };
        assert(budget@ == Ledger::blank(instance_id, next_serial));
        match budget.merge(rows) {
            Ok(()) => Ok(budget),
            Err(error) => Err(error),
        }
    }

    /// The number that the next new entity gets.
    pub fn next_serial(&self) -> (serial: u64)
        ensures
            serial == self@.next_serial,
    {
        self.next_serial
    }

    /// The instance that owns this copy.
    pub fn instance_id(&self) -> (id: InstanceId)
        ensures
            id == self@.instance_id,
    {
        self.instance_id
    }

    /// A copy of the budget.
    pub fn duplicate(&self) -> (copy: Budget)
        ensures
            copy@ == self@,
    {
        Budget {
            instance_id: self.instance_id,
            next_serial: self.next_serial,
            accounts: duplicate_rows(&self.accounts),
            categories: duplicate_rows(&self.categories),
            plans: duplicate_rows(&self.plans),
            transactions: duplicate_rows(&self.transactions),
        }
    }

    /// Derives every balance anew from the transactions, if each of them fits.
    fn settle(&mut self) -> (result: Result<(), Error>)
        ensures
            result is Ok <==> old(self)@.fits(),
            result is Ok ==> final(self)@ == old(self)@.settled(),
            result is Err ==> result->Err_0.kind == ErrorKind::ValueOutOfRange,
    {
        let ghost before = self@;
        let mut i: usize = 0;
        while i < self.accounts.len()
            invariant
                before == old(self)@,
                i <= self.accounts.len(),
                self.accounts.len() == before.accounts.len(),
                self.transactions@ == before.transactions,
                self.categories@ == before.categories,
                self.plans@ == before.plans,
                self.instance_id == before.instance_id,
                self.next_serial == before.next_serial,
                forall|k: int|
                    0 <= k < i ==> isize::MIN <= before.balance_of(
                        (#[trigger] before.accounts[k]).id,
                    ) <= isize::MAX,
                forall|k: int|
                    0 <= k < i ==> self.accounts@[k] == with_balance(
                        before.accounts[k],
                        before.balance_of(before.accounts[k].id) as isize,
                    ),
                forall|k: int| i <= k < self.accounts.len() ==> self.accounts@[k] == before.accounts[k],
            decreases self.accounts.len() - i,
        {
            let query = Query { account: Some(self.accounts[i].id), category: None, window: None };
            match sum(&self.transactions, &query) {
                Some(balance) => {
                    self.accounts[i].balance = balance;
                },
                None => {
                    proof {
                        let account = before.accounts[i as int];
                        assert(query == Query::of_account(account.id));
                        assert(!(isize::MIN <= before.balance_of(account.id) <= isize::MAX));
                        assert(!before.fits());
                    }
                    return Err(Error::new(ErrorKind::ValueOutOfRange));
                },
            }
            i += 1;
        }
        proof {
            assert(self@.accounts =~= before.settled().accounts);
        }
        Ok(())
    }
}

impl Budget {
    /// The accounts that are not removed.
    pub fn accounts(&self) -> (accounts: Vec<Account>)
        ensures
            accounts@ == live_rows(self@.accounts),
    {
        live_copy(&self.accounts)
    }

    /// The categories that are not removed.
    pub fn categories(&self) -> (categories: Vec<Category>)
        ensures
            categories@ == live_rows(self@.categories),
    {
        live_copy(&self.categories)
    }

    /// The plans that are not removed.
    pub fn plans(&self) -> (plans: Vec<Plan>)
        ensures
            plans@ == live_rows(self@.plans),
    {
        live_copy(&self.plans)
    }

    /// The account with the identifier, if there is one that is not removed.
    pub fn account(&self, id: Id) -> (result: Result<Account, Error>)
        requires
            self.wf(),
        ensures
            found(self@.accounts, id, result),
    {
        match live_position(&self.accounts, id) {
            Some(i) => Ok(self.accounts[i].duplicate()),
            None => Err(Error::new(ErrorKind::EntityNotFound)),
        }
    }

    /// The category with the identifier, if there is one that is not removed.
    pub fn category(&self, id: Id) -> (result: Result<Category, Error>)
        requires
            self.wf(),
        ensures
            found(self@.categories, id, result),
    {
        match live_position(&self.categories, id) {
            Some(i) => Ok(self.categories[i].duplicate()),
            None => Err(Error::new(ErrorKind::EntityNotFound)),
        }
    }

    /// The plan with the identifier, if there is one that is not removed.
    pub fn plan(&self, id: Id) -> (result: Result<Plan, Error>)
        requires
            self.wf(),
        ensures
            found(self@.plans, id, result),
    {
        match live_position(&self.plans, id) {
            Some(i) => Ok(self.plans[i].duplicate()),
            None => Err(Error::new(ErrorKind::EntityNotFound)),
        }
    }

    /// The categories of one type that are not removed.
    pub fn categories_of(&self, category_type: CategoryType) -> (categories: Vec<Category>)
        ensures
            categories@ == categories_of_type(self@.categories, category_type),
    {
        let mut categories: Vec<Category> = Vec::new();
        let mut i: usize = 0;
        while i < self.categories.len()
            invariant
                i <= self.categories.len(),
                categories@ == categories_of_type(self.categories@.take(i as int), category_type),
            decreases self.categories.len() - i,
        {
            proof {
                assert(self.categories@.take(i + 1) =~= self.categories@.take(i as int).push(
                    self.categories@[i as int],
                ));
                self.categories@.take(i as int).lemma_filter_push(
                    self.categories@[i as int],
                    |category: Category| is_live(category) && category.category_type == category_type,
                );
            }
            let category = &self.categories[i];
            if category.meta_info.deleted_at.is_none() && category.category_type == category_type {
                categories.push(category.duplicate());
            }
            i += 1;
        }
        proof {
            assert(self.categories@.take(self.categories.len() as int) =~= self.categories@);
        }
        categories
    }

    /// The transactions that the query chooses.
    pub fn select(&self, query: &Query) -> (transactions: Vec<Transaction>)
        ensures
            transactions@ == chosen(self@.transactions, *query),
    {
        let mut transactions: Vec<Transaction> = Vec::new();
        let mut i: usize = 0;
        while i < self.transactions.len()
            invariant
                i <= self.transactions.len(),
                transactions@ == chosen(self.transactions@.take(i as int), *query),
            decreases self.transactions.len() - i,
        {
            proof {
                assert(self.transactions@.take(i + 1) =~= self.transactions@.take(i as int).push(
                    self.transactions@[i as int],
                ));
                self.transactions@.take(i as int).lemma_filter_push(
                    self.transactions@[i as int],
                    |transaction: Transaction| query.admits(transaction),
                );
            }
            if query.accepts(&self.transactions[i]) {
                transactions.push(self.transactions[i].duplicate());
            }
            i += 1;
        }
        proof {
            assert(self.transactions@.take(self.transactions.len() as int) =~= self.transactions@);
        }
        transactions
    }

    /// The sum of the amounts that the query chooses, if it fits the type of amounts.
    pub fn total(&self, query: &Query) -> (sum: Option<isize>)
        ensures
            sum is Some <==> isize::MIN <= total(self@.transactions, *query) <= isize::MAX,
            sum is Some ==> sum->0 == total(self@.transactions, *query),
    {
        sum(&self.transactions, query)
    }

    /// Every transaction that is not removed.
    pub fn transactions(&self) -> (transactions: Vec<Transaction>)
        ensures
            transactions@ == chosen(self@.transactions, Query::all()),
    {
        self.select(&Query { account: None, category: None, window: None })
    }

    /// The transactions of an account.
    pub fn transactions_of(&self, account: Id) -> (transactions: Vec<Transaction>)
        ensures
            transactions@ == chosen(self@.transactions, Query::of_account(account)),
    {
        self.select(&Query { account: Some(account), category: None, window: None })
    }

    /// The transactions of a category.
    pub fn transactions_with(&self, category: Id) -> (transactions: Vec<Transaction>)
        ensures
            transactions@ == chosen(self@.transactions, Query::of_category(category)),
    {
        self.select(&Query { account: None, category: Some(category), window: None })
    }

    /// The transactions from `start` up to, but not including, `end`.
    pub fn transactions_between(&self, start: Timestamp, end: Timestamp) -> (transactions: Vec<
        Transaction,
    >)
        ensures
            transactions@ == chosen(
                self@.transactions,
                Query::all().between(TimeWindow { start, end }),
            ),
    {
        self.select(
            &Query { account: None, category: None, window: Some(TimeWindow { start, end }) },
        )
    }

    /// The transactions of an account from `start` up to, but not including, `end`.
    pub fn transactions_of_between(&self, account: Id, start: Timestamp, end: Timestamp) -> (transactions:
        Vec<Transaction>)
        ensures
            transactions@ == chosen(
                self@.transactions,
                Query::of_account(account).between(TimeWindow { start, end }),
            ),
    {
        self.select(
            &Query {
                account: Some(account),
                category: None,
                window: Some(TimeWindow { start, end }),
            },
        )
    }

    /// The transactions of a category from `start` up to, but not including, `end`.
    pub fn transactions_with_between(&self, category: Id, start: Timestamp, end: Timestamp) -> (transactions:
        Vec<Transaction>)
        ensures
            transactions@ == chosen(
                self@.transactions,
                Query::of_category(category).between(TimeWindow { start, end }),
            ),
    {
        self.select(
            &Query {
                account: None,
                category: Some(category),
                window: Some(TimeWindow { start, end }),
            },
        )
    }
}

impl Budget {
    /// The identifier that the `k`-th entity made next gets.
    fn fresh(&self, k: u64) -> (id: Id)
        requires
            self@.room_for(k as int),
        ensures
            id == self@.fresh(k as int),
    {
        Id { instance: self.instance_id, serial: self.next_serial + k }
    }

    /// Adds a category.
    ///
    /// Fails with `ValueOutOfRange` when no number is left for it.
    pub fn add_category(&mut self, name: String, category_type: CategoryType, now: Timestamp) -> (result:
        Result<Id, Error>)
        requires
            old(self).wf(),
        ensures
            final(self).wf(),
            outcome(
                old(self)@,
                final(self)@,
                result,
                old(self)@.add_category_failure(),
                old(self)@.fresh(0),
                old(self)@.with_category(name, category_type, now),
            ),
    {
        if self.next_serial == u64::MAX {
            return Err(Error::new(ErrorKind::ValueOutOfRange));
        }
        let id = self.fresh(0);
        let category = Category {
            id,
            name,
            category_type,
            meta_info: MetaInfo::new(self.instance_id, now),
        };
        proof {
            let before = self@;
            fresh_row_is_new(before.categories, category, before.next_serial as int);
            before.numbering_grows(1);
            bound_survives_push(
                before.categories,
                category,
                before.instance_id,
                before.next_serial as int,
                before.next_serial + 1,
            );
        }
        self.categories.push(category);
        self.next_serial = self.next_serial + 1;
        Ok(id)
    }

    /// Adds a plan for an outcome category.
    ///
    /// Fails with `EntityNotFound` when the category does not exist or is
    /// removed, with `PlanNeedsOutcomeCategory` when it is not an outcome
    /// category, and with `ValueOutOfRange` when the limit is not positive or
    /// no number is left for the plan.
    pub fn add_plan(&mut self, category_id: Id, name: String, amount_limit: isize, now: Timestamp) -> (result:
        Result<Id, Error>)
        requires
            old(self).wf(),
        ensures
            final(self).wf(),
            outcome(
                old(self)@,
                final(self)@,
                result,
                old(self)@.add_plan_failure(category_id, amount_limit),
                old(self)@.fresh(0),
                old(self)@.with_plan(category_id, name, amount_limit, now),
            ),
    {
        let position = match live_position(&self.categories, category_id) {
            Some(position) => position,
            None => {
                return Err(Error::new(ErrorKind::EntityNotFound));
            },
        };
        if self.categories[position].category_type != CategoryType::Outcome {
            return Err(Error::new(ErrorKind::PlanNeedsOutcomeCategory));
        }
        if amount_limit <= 0 || self.next_serial == u64::MAX {
            return Err(Error::new(ErrorKind::ValueOutOfRange));
        }
        let id = self.fresh(0);
        let plan = Plan {
            id,
            category_id,
            name,
            amount_limit,
            meta_info: MetaInfo::new(self.instance_id, now),
        };
        proof {
            let before = self@;
            fresh_row_is_new(before.plans, plan, before.next_serial as int);
            before.numbering_grows(1);
            bound_survives_push(
                before.plans,
                plan,
                before.instance_id,
                before.next_serial as int,
                before.next_serial + 1,
            );
        }
        self.plans.push(plan);
        self.next_serial = self.next_serial + 1;
        Ok(id)
    }

    /// Adds a transaction. The amount gets the sign that the type of the
    /// category asks for.
    ///
    /// Fails with `EntityNotFound` when the account or the category does not
    /// exist or is removed, and with `ValueOutOfRange` when the amount has no
    /// opposite, no number is left, or a balance would not fit.
    pub fn add_transaction(
        &mut self,
        account_id: Id,
        category_id: Id,
        description: String,
        amount: isize,
        timestamp: Timestamp,
        now: Timestamp,
    ) -> (result: Result<Id, Error>)
        requires
            old(self).wf(),
        ensures
            final(self).wf(),
            outcome(
                old(self)@,
                final(self)@,
                result,
                old(self)@.add_transaction_failure(
                    account_id,
                    category_id,
                    description,
                    amount,
                    timestamp,
                    now,
                ),
                old(self)@.fresh(0),
                old(self)@.with_transaction(
                    account_id,
                    category_id,
                    description,
                    amount,
                    timestamp,
                    now,
                ),
            ),
    {
        if live_position(&self.accounts, account_id).is_none() {
            return Err(Error::new(ErrorKind::EntityNotFound));
        }
        let position = match live_position(&self.categories, category_id) {
            Some(position) => position,
            None => {
                return Err(Error::new(ErrorKind::EntityNotFound));
            },
        };
        if amount == isize::MIN || self.next_serial == u64::MAX {
            return Err(Error::new(ErrorKind::ValueOutOfRange));
        }
        let id = self.fresh(0);
        let transaction = Transaction {
            id,
            timestamp,
            description,
            account_id,
            category_id,
            amount: self.categories[position].category_type.normalize(amount),
            transfer: None,
            meta_info: MetaInfo::new(self.instance_id, now),
        };
        let ghost before = self@;
        let ghost raw = before.with_transactions(seq![transaction]);
        let mut next = self.duplicate();
        next.transactions.push(transaction);
        next.next_serial = next.next_serial + 1;
        proof {
            assert(next@.transactions =~= raw.transactions);
            assert(next@ == raw.numbered(1));
            assert(raw.numbered(1).fits() == raw.fits());
            fresh_row_is_new(before.transactions, transaction, before.next_serial as int);
            before.numbering_grows(1);
            bound_survives_push(
                before.transactions,
                transaction,
                before.instance_id,
                before.next_serial as int,
                before.next_serial + 1,
            );
            assert(before.transactions.push(transaction) =~= raw.transactions);
            if raw.fits() {
                raw.numbered(1).settled_is_sound();
            }
        }
        match next.settle() {
            Ok(()) => {},
            Err(error) => {
                return Err(error);
            },
        }
        *self = next;
        Ok(id)
    }
}

impl Budget {
    /// Moves the size of `amount` from one account to another, as two
    /// transactions under the built-in categories, both described as
    /// "Transfer" and linked by the identifier that is returned.
    ///
    /// Fails with `TransferWithinAccount` when the two accounts are the same,
    /// with `EntityNotFound` when an account or a built-in category does not
    /// exist or is removed, and with `ValueOutOfRange` when the amount has no
    /// opposite, no numbers are left, or a balance would not fit.
    pub fn add_transfer(&mut self, amount: isize, from: Id, to: Id, timestamp: Timestamp, now: Timestamp) -> (result:
        Result<Id, Error>)
        requires
            old(self).wf(),
        ensures
            final(self).wf(),
            exists|note: String|
                note@ == "Transfer"@ && #[trigger] old(self)@.transfer_outcome(
                    final(self)@,
                    result,
                    amount,
                    from,
                    to,
                    timestamp,
                    now,
                    note,
                ),
    {
        let note = "Transfer".to_owned();
        let ghost before = self@;
        if from == to {
            let result = Err(Error::new(ErrorKind::TransferWithinAccount));
            assert(before.transfer_outcome(self@, result, amount, from, to, timestamp, now, note));
            return result;
        }
        if live_position(&self.accounts, from).is_none() || live_position(&self.accounts, to).is_none()
            || live_position(&self.categories, Self::transfer_income()).is_none() || live_position(
            &self.categories,
            Self::transfer_outcome(),
        ).is_none() {
            let result = Err(Error::new(ErrorKind::EntityNotFound));
            assert(before.transfer_outcome(self@, result, amount, from, to, timestamp, now, note));
            return result;
        }
        if amount == isize::MIN || self.next_serial >= u64::MAX - 1 {
            let result = Err(Error::new(ErrorKind::ValueOutOfRange));
            assert(before.transfer_outcome(self@, result, amount, from, to, timestamp, now, note));
            return result;
        }
        let id = self.fresh(0);
        let meta = MetaInfo::new(self.instance_id, now);
        let debit = Transaction {
            id,
            timestamp,
            description: note.clone(),
            account_id: from,
            category_id: Self::transfer_outcome(),
            amount: CategoryType::Outcome.normalize(amount),
            transfer: Some(id),
            meta_info: meta,
        };
        let credit = Transaction {
            id: self.fresh(1),
            timestamp,
            description: note.clone(),
            account_id: to,
            category_id: Self::transfer_income(),
            amount: CategoryType::Income.normalize(amount),
            transfer: Some(id),
            meta_info: meta,
        };
        let ghost legs = before.transfer_legs(amount, from, to, timestamp, now, note);
        let ghost raw = before.with_transactions(legs);
        let mut next = self.duplicate();
        next.transactions.push(debit);
        next.transactions.push(credit);
        next.next_serial = next.next_serial + 2;
        proof {
            assert(legs =~= seq![debit, credit]);
            assert(next@.transactions =~= raw.transactions);
            assert(next@ == raw.numbered(2));
            assert(raw.numbered(2).fits() == raw.fits());
            fresh_row_is_new(before.transactions, debit, before.next_serial as int);
            before.numbering_grows(1);
            bound_survives_push(
                before.transactions,
                debit,
                before.instance_id,
                before.next_serial as int,
                before.next_serial + 1,
            );
            fresh_row_is_new(before.transactions.push(debit), credit, before.next_serial + 1);
            before.numbering_grows(2);
            bound_survives_push(
                before.transactions.push(debit),
                credit,
                before.instance_id,
                before.next_serial + 1,
                before.next_serial + 2,
            );
            assert(before.transactions.push(debit).push(credit) =~= raw.transactions);
            if raw.fits() {
                raw.numbered(2).settled_is_sound();
            }
        }
        match next.settle() {
            Ok(()) => {},
            Err(error) => {
                let result = Err(error);
                assert(before.transfer_outcome(self@, result, amount, from, to, timestamp, now, note));
                return result;
            },
        }
        *self = next;
        let result = Ok(id);
        assert(before.transfer_outcome(self@, result, amount, from, to, timestamp, now, note));
        result
    }

    /// Adds an account. An initial balance that is not zero is booked as a
    /// transaction of the new account under a built-in category, the income
    /// one for a positive balance and the outcome one for a negative balance,
    /// described as "Initial balance".
    ///
    /// Fails with `EntityNotFound` when that category does not exist or is
    /// removed, and with `ValueOutOfRange` when no numbers are left or a
    /// balance would not fit.
    pub fn add_account(&mut self, name: String, initial_balance: isize, now: Timestamp) -> (result: Result<
        Id,
        Error,
    >)
        requires
            old(self).wf(),
        ensures
            final(self).wf(),
            exists|note: String|
                note@ == "Initial balance"@ && #[trigger] old(self)@.account_outcome(
                    final(self)@,
                    result,
                    name,
                    initial_balance,
                    now,
                    note,
                ),
    {
        let note = "Initial balance".to_owned();
        let ghost before = self@;
        let category_id = if initial_balance > 0 {
            Self::transfer_income()
        } else {
            Self::transfer_outcome()
        };
        if initial_balance != 0 && live_position(&self.categories, category_id).is_none() {
            let result = Err(Error::new(ErrorKind::EntityNotFound));
            assert(before.account_outcome(self@, result, name, initial_balance, now, note));
            return result;
        }
        let size: u64 = if initial_balance == 0 {
            1
        } else {
            2
        };
        if self.next_serial > u64::MAX - size {
            let result = Err(Error::new(ErrorKind::ValueOutOfRange));
            assert(before.account_outcome(self@, result, name, initial_balance, now, note));
            return result;
        }
        let id = self.fresh(0);
        let meta = MetaInfo::new(self.instance_id, now);
        let account = Account { id, name, balance: 0, meta_info: meta };
        let ghost raw = before.opened(name, initial_balance, now, note);
        let mut next = self.duplicate();
        next.accounts.push(account);
        proof {
            fresh_row_is_new(before.accounts, account, before.next_serial as int);
            before.numbering_grows(size as int);
            bound_survives_push(
                before.accounts,
                account,
                before.instance_id,
                before.next_serial as int,
                before.next_serial + size,
            );
        }
        if initial_balance != 0 {
            let opening = Transaction {
                id: self.fresh(1),
                timestamp: now,
                description: note,
                account_id: id,
                category_id,
                amount: initial_balance,
                transfer: None,
                meta_info: meta,
            };
            proof {
                fresh_row_is_new(before.transactions, opening, before.next_serial as int);
                bound_survives_push(
                    before.transactions,
                    opening,
                    before.instance_id,
                    before.next_serial as int,
                    before.next_serial + size,
                );
                assert(before.transactions.push(opening) =~= raw.transactions);
            }
            next.transactions.push(opening);
        }
        next.next_serial = next.next_serial + size;
        proof {
            assert(next@.transactions =~= raw.transactions);
            assert(next@ == raw.numbered(size as int));
            assert(raw.numbered(size as int).fits() == raw.fits());
            if raw.fits() {
                raw.numbered(size as int).settled_is_sound();
            }
        }
        match next.settle() {
            Ok(()) => {},
            Err(error) => {
                let result = Err(error);
                assert(before.account_outcome(self@, result, name, initial_balance, now, note));
                return result;
            },
        }
        *self = next;
        let result = Ok(id);
        assert(before.account_outcome(self@, result, name, initial_balance, now, note));
        result
    }
}

/// Whether the identifier is among the given ones.
fn among(ids: &Vec<Id>, id: Id) -> (found: bool)
    ensures
        found == ids@.contains(id),
{
    let mut i: usize = 0;
    while i < ids.len()
        invariant
            i <= ids.len(),
            forall|k: int| 0 <= k < i ==> ids@[k] != id,
        decreases ids.len() - i,
    {
        if ids[i] == id {
            return true;
        }
        i += 1;
    }
    false
}

/// Whether the target names some transaction that is not removed.
fn any_hit(transactions: &Vec<Transaction>, target: &Target) -> (any: bool)
    ensures
        any == touches(transactions@, *target),
{
    let mut i: usize = 0;
    while i < transactions.len()
        invariant
            i <= transactions.len(),
            forall|k: int| 0 <= k < i ==> !directly_hit(*target, #[trigger] transactions@[k]),
        decreases transactions.len() - i,
    {
        if transactions[i].meta_info.deleted_at.is_none() && target.matches(&transactions[i]) {
            return true;
        }
        i += 1;
    }
    false
}

/// Whether some plan that is not removed belongs to the category.
fn any_plan(plans: &Vec<Plan>, category: Id) -> (any: bool)
    ensures
        any == has_plans(plans@, category),
{
    let mut i: usize = 0;
    while i < plans.len()
        invariant
            i <= plans.len(),
            forall|k: int| 0 <= k < i ==> !plan_hit(category, #[trigger] plans@[k]),
        decreases plans.len() - i,
    {
        if plans[i].meta_info.deleted_at.is_none() && plans[i].category_id == category {
            return true;
        }
        i += 1;
    }
    false
}

/// The links of the transfers of which the target names a half that is not removed.
fn links_of(transactions: &Vec<Transaction>, target: &Target) -> (links: Vec<Id>)
    ensures
        forall|link: Id|
            links@.contains(link) <==> exists|k: int|
                0 <= k < transactions.len() && directly_hit(*target, #[trigger] transactions@[k])
                    && transactions@[k].transfer == Some(link),
{
    let mut links: Vec<Id> = Vec::new();
    let mut i: usize = 0;
    while i < transactions.len()
        invariant
            i <= transactions.len(),
            forall|link: Id|
                links@.contains(link) <==> exists|k: int|
                    0 <= k < i && directly_hit(*target, #[trigger] transactions@[k])
                        && transactions@[k].transfer == Some(link),
        decreases transactions.len() - i,
    {
        let ghost earlier = links@;
        let transaction = &transactions[i];
        let named = transaction.meta_info.deleted_at.is_none() && target.matches(transaction);
        if named {
            if let Some(link) = transaction.transfer {
                links.push(link);
            }
        }
        proof {
            assert forall|link: Id| links@.contains(link) <==> exists|k: int|
                0 <= k < i + 1 && directly_hit(*target, #[trigger] transactions@[k])
                    && transactions@[k].transfer == Some(link) by {
                let joins = named && transactions@[i as int].transfer == Some(link);
                if links@.contains(link) {
                    let at = choose|at: int| 0 <= at < links@.len() && links@[at] == link;
                    if at < earlier.len() {
                        assert(earlier[at] == link);
                        assert(earlier.contains(link));
                        let k = choose|k: int|
                            0 <= k < i && directly_hit(*target, #[trigger] transactions@[k])
                                && transactions@[k].transfer == Some(link);
                        assert(0 <= k < i + 1);
                    } else {
                        assert(joins);
                    }
                }
                if exists|k: int|
                    0 <= k < i + 1 && directly_hit(*target, #[trigger] transactions@[k])
                        && transactions@[k].transfer == Some(link) {
                    let k = choose|k: int|
                        0 <= k < i + 1 && directly_hit(*target, #[trigger] transactions@[k])
                            && transactions@[k].transfer == Some(link);
                    if k < i {
                        assert(earlier.contains(link));
                        let at = choose|at: int| 0 <= at < earlier.len() && earlier[at] == link;
                        assert(links@[at] == link);
                    } else {
                        assert(links@[links@.len() - 1] == link);
                    }
                }
            }
        }
        i += 1;
    }
    links
}

/// Removes the transactions that a removal aimed at the target removes, if
/// each of them leaves room for a later version.
fn strike(transactions: &mut Vec<Transaction>, target: &Target, instance: InstanceId, now: Timestamp) -> (done:
    bool)
    ensures
        done == can_strike(old(transactions)@, *target),
        done ==> final(transactions)@ == without(old(transactions)@, *target, instance, now),
{
    let links = links_of(transactions, target);
    let ghost before = transactions@;
    let mut i: usize = 0;
    while i < transactions.len()
        invariant
            before == old(transactions)@,
            i <= transactions.len(),
            transactions.len() == before.len(),
            forall|link: Id|
                links@.contains(link) <==> exists|k: int|
                    0 <= k < before.len() && directly_hit(*target, #[trigger] before[k])
                        && before[k].transfer == Some(link),
            forall|k: int| i <= k < before.len() ==> transactions@[k] == before[k],
            forall|k: int|
                0 <= k < i ==> transactions@[k] == without(before, *target, instance, now)[k],
            forall|k: int|
                0 <= k < i && hit(before, *target, #[trigger] before[k]) ==> can_follow(
                    before[k].meta_info,
                ),
        decreases transactions.len() - i,
    {
        let transaction = &transactions[i];
        let live = transaction.meta_info.deleted_at.is_none();
        let linked = match transaction.transfer {
            Some(link) => among(&links, link),
            None => false,
        };
        proof {
            assert(hit(before, *target, before[i as int]) == (live && (target.names(before[i as int])
                || linked)));
        }
        if live && (target.matches(transaction) || linked) {
            if transaction.meta_info.modified_at == i64::MAX {
                proof {
                    let doomed = before[i as int];
                    assert(hit(before, *target, doomed) && !can_follow(doomed.meta_info));
                }
                return false;
            }
            strike_at(transactions, i, instance, now);
        }
        i += 1;
    }
    proof {
        assert(transactions@ =~= without(before, *target, instance, now));
    }
    true
}

/// Removes the plans of a category that are not removed, if each of them
/// leaves room for a later version.
fn strike_plans(plans: &mut Vec<Plan>, category: Id, instance: InstanceId, now: Timestamp) -> (done: bool)
    ensures
        done == can_strike_plans(old(plans)@, category),
        done ==> final(plans)@ == without_plans(old(plans)@, category, instance, now),
{
    let ghost before = plans@;
    let mut i: usize = 0;
    while i < plans.len()
        invariant
            before == old(plans)@,
            i <= plans.len(),
            plans.len() == before.len(),
            forall|k: int| i <= k < before.len() ==> plans@[k] == before[k],
            forall|k: int| 0 <= k < i ==> plans@[k] == without_plans(before, category, instance, now)[k],
            forall|k: int|
                0 <= k < i && plan_hit(category, #[trigger] before[k]) ==> can_follow(
                    before[k].meta_info,
                ),
        decreases plans.len() - i,
    {
        if plans[i].meta_info.deleted_at.is_none() && plans[i].category_id == category {
            if plans[i].meta_info.modified_at == i64::MAX {
                proof {
                    let plan = before[i as int];
                    assert(plan_hit(category, plan) && !can_follow(plan.meta_info));
                }
                return false;
            }
            strike_at(plans, i, instance, now);
        }
        i += 1;
    }
    proof {
        assert(plans@ =~= without_plans(before, category, instance, now));
    }
    true
}

impl Budget {
    /// Removes a plan.
    ///
    /// Fails with `EntityNotFound` when the plan does not exist or is removed
    /// already, and with `ValueOutOfRange` when its version leaves no room
    /// for a later one.
    pub fn remove_plan(&mut self, id: Id, now: Timestamp) -> (result: Result<(), Error>)
        requires
            old(self).wf(),
        ensures
            final(self).wf(),
            outcome(
                old(self)@,
                final(self)@,
                result,
                old(self)@.remove_plan_failure(id),
                (),
                old(self)@.without_plan(id, now),
            ),
    {
        let position = match live_position(&self.plans, id) {
            Some(position) => position,
            None => {
                return Err(Error::new(ErrorKind::EntityNotFound));
            },
        };
        if self.plans[position].meta_info.modified_at == i64::MAX {
            return Err(Error::new(ErrorKind::ValueOutOfRange));
        }
        proof {
            let before = self@;
            struck_keeps_ids(before.plans, id, before.instance_id, now);
            same_ids_same_order(
                before.plans,
                before.without_plan(id, now).plans,
                before.instance_id,
                before.next_serial as int,
            );
        }
        strike_at(&mut self.plans, position, self.instance_id, now);
        Ok(())
    }

    /// Removes a transaction and derives the balances anew. If it is one half
    /// of a transfer, the other half is removed with it.
    ///
    /// Fails with `EntityNotFound` when the transaction does not exist or is
    /// removed already, and with `ValueOutOfRange` when a version leaves no
    /// room for a later one or a balance would not fit.
    pub fn remove_transaction(&mut self, id: Id, now: Timestamp) -> (result: Result<(), Error>)
        requires
            old(self).wf(),
        ensures
            final(self).wf(),
            outcome(
                old(self)@,
                final(self)@,
                result,
                old(self)@.remove_transaction_failure(id, now),
                (),
                old(self)@.without_transaction(id, now),
            ),
    {
        if live_position(&self.transactions, id).is_none() {
            return Err(Error::new(ErrorKind::EntityNotFound));
        }
        let ghost before = self@;
        let target = Target::Transaction(id);
        let mut next = self.duplicate();
        if !strike(&mut next.transactions, &target, self.instance_id, now) {
            return Err(Error::new(ErrorKind::ValueOutOfRange));
        }
        proof {
            let raw = before.struck_at(target, now);
            assert(next@ == raw);
            without_keeps_ids(before.transactions, target, before.instance_id, now);
            same_ids_same_order(
                before.transactions,
                raw.transactions,
                before.instance_id,
                before.next_serial as int,
            );
            if raw.fits() {
                raw.settled_is_sound();
            }
        }
        match next.settle() {
            Ok(()) => {},
            Err(error) => {
                return Err(error);
            },
        }
        *self = next;
        Ok(())
    }

    /// Removes an account and derives the balances anew.
    ///
    /// Without `force` the account must have no transaction that is not
    /// removed. With `force` its transactions are removed with it, and with
    /// them the other halves of its transfers.
    ///
    /// Fails with `EntityNotFound` when the account does not exist or is
    /// removed already, with `ReferentialConflict` when it still has
    /// transactions and `force` is not given, and with `ValueOutOfRange` when
    /// a version leaves no room for a later one or a balance would not fit.
    pub fn remove_account(&mut self, id: Id, force: bool, now: Timestamp) -> (result: Result<(), Error>)
        requires
            old(self).wf(),
        ensures
            final(self).wf(),
            outcome(
                old(self)@,
                final(self)@,
                result,
                old(self)@.remove_account_failure(id, force, now),
                (),
                old(self)@.without_account(id, now),
            ),
    {
        let position = match live_position(&self.accounts, id) {
            Some(position) => position,
            None => {
                return Err(Error::new(ErrorKind::EntityNotFound));
            },
        };
        let target = Target::Account(id);
        if !force && any_hit(&self.transactions, &target) {
            return Err(Error::new(ErrorKind::ReferentialConflict));
        }
        if self.accounts[position].meta_info.modified_at == i64::MAX {
            return Err(Error::new(ErrorKind::ValueOutOfRange));
        }
        let ghost before = self@;
        let mut next = self.duplicate();
        if !strike(&mut next.transactions, &target, self.instance_id, now) {
            return Err(Error::new(ErrorKind::ValueOutOfRange));
        }
        strike_at(&mut next.accounts, position, self.instance_id, now);
        proof {
            let raw = before.striking_account(id, now);
            assert(next@ == raw);
            let bound = before.next_serial as int;
            without_keeps_ids(before.transactions, target, before.instance_id, now);
            same_ids_same_order(before.transactions, raw.transactions, before.instance_id, bound);
            struck_keeps_ids(before.accounts, id, before.instance_id, now);
            same_ids_same_order(before.accounts, raw.accounts, before.instance_id, bound);
            if raw.fits() {
                raw.settled_is_sound();
            }
        }
        match next.settle() {
            Ok(()) => {},
            Err(error) => {
                return Err(error);
            },
        }
        *self = next;
        Ok(())
    }

    /// Removes a category and derives the balances anew.
    ///
    /// Without `force` the category must have no transaction and no plan that
    /// is not removed. With `force` its transactions and plans are removed
    /// with it, and with the transactions the other halves of their transfers.
    ///
    /// Fails with `EntityNotFound` when the category does not exist or is
    /// removed already, with `ReferentialConflict` when it still has
    /// transactions or plans and `force` is not given, and with
    /// `ValueOutOfRange` when a version leaves no room for a later one or a
    /// balance would not fit.
    pub fn remove_category(&mut self, id: Id, force: bool, now: Timestamp) -> (result: Result<(), Error>)
        requires
            old(self).wf(),
        ensures
            final(self).wf(),
            outcome(
                old(self)@,
                final(self)@,
                result,
                old(self)@.remove_category_failure(id, force, now),
                (),
                old(self)@.without_category(id, now),
            ),
    {
        let position = match live_position(&self.categories, id) {
            Some(position) => position,
            None => {
                return Err(Error::new(ErrorKind::EntityNotFound));
            },
        };
        let target = Target::Category(id);
        if !force && (any_hit(&self.transactions, &target) || any_plan(&self.plans, id)) {
            return Err(Error::new(ErrorKind::ReferentialConflict));
        }
        if self.categories[position].meta_info.modified_at == i64::MAX {
            return Err(Error::new(ErrorKind::ValueOutOfRange));
        }
        let ghost before = self@;
        let mut next = self.duplicate();
        if !strike(&mut next.transactions, &target, self.instance_id, now) {
            return Err(Error::new(ErrorKind::ValueOutOfRange));
        }
        if !strike_plans(&mut next.plans, id, self.instance_id, now) {
            return Err(Error::new(ErrorKind::ValueOutOfRange));
        }
        strike_at(&mut next.categories, position, self.instance_id, now);
        proof {
            let raw = before.striking_category(id, now);
            assert(next@ == raw);
            let bound = before.next_serial as int;
            without_keeps_ids(before.transactions, target, before.instance_id, now);
            same_ids_same_order(before.transactions, raw.transactions, before.instance_id, bound);
            without_plans_keeps_ids(before.plans, id, before.instance_id, now);
            same_ids_same_order(before.plans, raw.plans, before.instance_id, bound);
            struck_keeps_ids(before.categories, id, before.instance_id, now);
            same_ids_same_order(before.categories, raw.categories, before.instance_id, bound);
            if raw.fits() {
                raw.settled_is_sound();
            }
        }
        match next.settle() {
            Ok(()) => {},
            Err(error) => {
                return Err(error);
            },
        }
        *self = next;
        Ok(())
    }

    /// Drops every entity that is removed, for good. What is dropped can no
    /// longer be reconciled with other copies of the ledger.
    pub fn clean_removed(&mut self)
        requires
            old(self).wf(),
        ensures
            final(self).wf(),
            final(self)@ == old(self)@.cleaned(),
    {
        proof {
            self@.cleaned_is_sound();
        }
        self.accounts = live_copy(&self.accounts);
        self.categories = live_copy(&self.categories);
        self.plans = live_copy(&self.plans);
        self.transactions = live_copy(&self.transactions);
    }
}

impl Budget {
    /// The rows of the ledger, removed ones included, ready to be published.
    pub fn snapshot(&self) -> (snapshot: Snapshot)
        ensures
            snapshot@ == self@.rows(),
    {
        Snapshot {
            accounts: duplicate_rows(&self.accounts),
            categories: duplicate_rows(&self.categories),
            plans: duplicate_rows(&self.plans),
            transactions: duplicate_rows(&self.transactions),
        }
    }

    /// The change feed: the rows that were written after a moment, removed
    /// ones included.
    pub fn changes_since(&self, checkpoint: Timestamp) -> (changes: Snapshot)
        ensures
            changes@ == self@.rows_since(checkpoint),
    {
        Snapshot {
            accounts: changed_since(&self.accounts, checkpoint),
            categories: changed_since(&self.categories, checkpoint),
            plans: changed_since(&self.plans, checkpoint),
            transactions: changed_since(&self.transactions, checkpoint),
        }
    }

    /// Reconciles the ledger with remote rows and derives the balances anew.
    ///
    /// Fails with `SyncDecryptError` when the remote rows hold an identifier
    /// twice, and with `ValueOutOfRange` when no number would be left for a
    /// new entity or a balance would not fit.
    pub fn merge(&mut self, remote: &Snapshot) -> (result: Result<(), Error>)
        requires
            old(self).wf(),
        ensures
            final(self).wf(),
            outcome(
                old(self)@,
                final(self)@,
                result,
                old(self)@.merge_failure(remote@),
                (),
                old(self)@.merged(remote@),
            ),
    {
        if !remote.is_distinct() {
            return Err(Error::new(ErrorKind::SyncDecryptError));
        }
        let ghost before = self@;
        let ghost joined = before.joined(remote@);
        let mut next = Budget {
            instance_id: self.instance_id,
            next_serial: self.next_serial,
            accounts: merge_rows(&self.accounts, &remote.accounts),
            categories: merge_rows(&self.categories, &remote.categories),
            plans: merge_rows(&self.plans, &remote.plans),
            transactions: merge_rows(&self.transactions, &remote.transactions),
        };
        assert(next@ == joined);
        proof {
            bound_over_is_bound(joined.accounts, joined.instance_id, joined.next_serial as int);
            let b1 = bound_over(joined.accounts, joined.instance_id, joined.next_serial as int);
            bound_over_is_bound(joined.categories, joined.instance_id, b1);
            let b2 = bound_over(joined.categories, joined.instance_id, b1);
            bound_over_is_bound(joined.plans, joined.instance_id, b2);
            let b3 = bound_over(joined.plans, joined.instance_id, b2);
            bound_over_is_bound(joined.transactions, joined.instance_id, b3);
        }
        let bound = match serial_bound(&next.accounts, self.instance_id, self.next_serial) {
            Some(bound) => bound,
            None => {
                return Err(Error::new(ErrorKind::ValueOutOfRange));
            },
        };
        let bound = match serial_bound(&next.categories, self.instance_id, bound) {
            Some(bound) => bound,
            None => {
                return Err(Error::new(ErrorKind::ValueOutOfRange));
            },
        };
        let bound = match serial_bound(&next.plans, self.instance_id, bound) {
            Some(bound) => bound,
            None => {
                return Err(Error::new(ErrorKind::ValueOutOfRange));
            },
        };
        let bound = match serial_bound(&next.transactions, self.instance_id, bound) {
            Some(bound) => bound,
            None => {
                return Err(Error::new(ErrorKind::ValueOutOfRange));
            },
        };
        next.next_serial = bound;
        proof {
            assert(next@ == joined.renumbered());
            assert(joined.renumbered().fits() == joined.fits());
            if joined.fits() {
                before.merged_is_sound(remote@);
            }
        }
        match next.settle() {
            Ok(()) => {},
            Err(error) => {
                return Err(error);
            },
        }
        *self = next;
        Ok(())
    }
}

} // verus!
