//! The ledger as a mathematical value, and what each operation of a budget
//! makes of it.
//!
//! Balances are derived: the balance of an account is the sum of the amounts
//! of its transactions that are not removed.

use vstd::prelude::*;

use crate::error::ErrorKind;
use crate::rows::{
    can_follow, distinct_ids, has_id, has_live, index_of, index_of_is_unique, is_live, live_rows,
    live_rows_are_sound, live_rows_of_none, live_rows_of_push, live_rows_twice, row_with,
    row_with_has_id, same_ids, same_ids_same_order, serials_below, struck, struck_keeps_ids,
    with_struck,
};
use crate::storage::{
    Account, Category, CategoryType, Id, InstanceId, MetaInfo, Plan, Row, Timestamp, Transaction,
};

verus! {

/// The instance in whose name the built-in categories are made.
pub const BUILT_IN_INSTANCE: InstanceId = 0;

/// The number of built-in categories.
pub const BUILT_IN_COUNT: u64 = 2;

/// The identifier of the built-in income category, under which money that
/// arrives by a transfer or as an initial balance is booked.
pub open spec fn transfer_income_id() -> Id {
    Id { instance: BUILT_IN_INSTANCE, serial: 0 }
}

/// The identifier of the built-in outcome category, under which money that
/// leaves by a transfer or as a negative initial balance is booked.
pub open spec fn transfer_outcome_id() -> Id {
    Id { instance: BUILT_IN_INSTANCE, serial: 1 }
}

/// A half-open window of time: from `start`, up to but not including `end`.
#[derive(Debug, Clone, Copy, PartialEq, Eq, Structural)]
pub struct TimeWindow {
    pub start: Timestamp,
    pub end: Timestamp,
}

/// A choice of transactions: those that are not removed and that agree with
/// every part of the query that is given.
#[derive(Debug, Clone, Copy, PartialEq, Eq, Structural)]
pub struct Query {
    pub account: Option<Id>,
    pub category: Option<Id>,
    pub window: Option<TimeWindow>,
}

impl TimeWindow {
    /// Whether the moment lies in the window.
    pub open spec fn holds(&self, moment: Timestamp) -> bool {
        self.start <= moment < self.end
    }

    /// Whether the moment lies in the window.
    pub fn contains(&self, moment: Timestamp) -> (inside: bool)
        ensures
            inside == self.holds(moment),
    {
        self.start <= moment && moment < self.end
    }
}

impl Query {
    /// Every transaction that is not removed.
    pub open spec fn all() -> Query {
        Query { account: None, category: None, window: None }
    }

    /// The transactions of an account.
    pub open spec fn of_account(account: Id) -> Query {
        Query { account: Some(account), category: None, window: None }
    }

    /// The transactions of a category.
    pub open spec fn of_category(category: Id) -> Query {
        Query { account: None, category: Some(category), window: None }
    }

    /// The same query, narrowed to a window of time.
    pub open spec fn between(self, window: TimeWindow) -> Query {
        Query { window: Some(window), ..self }
    }

    /// Whether the query chooses the transaction.
    pub open spec fn admits(&self, transaction: Transaction) -> bool {
        &&& is_live(transaction)
        &&& self.account is Some ==> transaction.account_id == self.account->0
        &&& self.category is Some ==> transaction.category_id == self.category->0
        &&& self.window is Some ==> self.window->0.holds(transaction.timestamp)
    }

    /// Whether the query chooses the transaction.
    pub fn accepts(&self, transaction: &Transaction) -> (chosen: bool)
        ensures
            chosen == self.admits(*transaction),
    {
        if transaction.meta_info.deleted_at.is_some() {
            return false;
        }
        let of_account = match self.account {
            Some(account) => transaction.account_id == account,
            None => true,
        };
        let of_category = match self.category {
            Some(category) => transaction.category_id == category,
            None => true,
        };
        let in_window = match self.window {
            Some(window) => window.contains(transaction.timestamp),
            None => true,
        };
        of_account && of_category && in_window
    }
}

/// What one transaction adds to the total of a query.
pub open spec fn share(transaction: Transaction, query: Query) -> int {
    if query.admits(transaction) {
        transaction.amount as int
    } else {
        0
    }
}

/// The sum of the amounts of the transactions that a query chooses.
pub open spec fn total(transactions: Seq<Transaction>, query: Query) -> int
    decreases transactions.len(),
{
    if transactions.len() == 0 {
        0
    } else {
        total(transactions.drop_last(), query) + share(transactions.last(), query)
    }
}

/// The transactions that a query chooses, in their order.
pub open spec fn chosen(transactions: Seq<Transaction>, query: Query) -> Seq<Transaction> {
    transactions.filter(|transaction: Transaction| query.admits(transaction))
}

/// The sum of the amounts that a query chooses, if it fits the type of amounts.
pub fn sum(transactions: &Vec<Transaction>, query: &Query) -> (sum: Option<isize>)
    ensures
        sum is Some <==> isize::MIN <= total(transactions@, *query) <= isize::MAX,
        sum is Some ==> sum->0 == total(transactions@, *query),
{
    let mut running: i128 = 0;
    let mut i: usize = 0;
    while i < transactions.len()
        invariant
            i <= transactions.len(),
            running == total(transactions@.take(i as int), *query),
            -(i as int) * 0x8000_0000_0000_0000 <= running <= (i as int) * 0x8000_0000_0000_0000,
        decreases transactions.len() - i,
    {
        proof {
            assert(transactions@.take(i + 1).drop_last() =~= transactions@.take(i as int));
        }
        if query.accepts(&transactions[i]) {
            running = running + transactions[i].amount as i128;
        }
        i += 1;
    }
    proof {
        assert(transactions@.take(transactions.len() as int) =~= transactions@);
    }
    if running < isize::MIN as i128 || running > isize::MAX as i128 {
        None
    } else {
        Some(running as isize)
    }
}


/// The metadata of the built-in categories: the same in every copy of the
/// ledger, so that reconciling two copies leaves them alone.
pub open spec fn built_in_meta() -> MetaInfo {
    MetaInfo { instance_id: BUILT_IN_INSTANCE, created_at: 0, modified_at: 0, deleted_at: None }
}

/// The account with another balance.
pub open spec fn with_balance(account: Account, balance: isize) -> Account {
    Account { balance, ..account }
}

/// The ledger as a value: what a budget holds.
pub struct Ledger {
    /// The instance that owns this copy.
    pub instance_id: InstanceId,
    /// The number that the next new entity gets.
    pub next_serial: u64,
    pub accounts: Seq<Account>,
    pub categories: Seq<Category>,
    pub plans: Seq<Plan>,
    pub transactions: Seq<Transaction>,
}

impl Ledger {
    /// The ledger of a new instance: no accounts, plans or transactions, and
    /// the two built-in categories, both under the name `label`.
    pub open spec fn initial(instance_id: InstanceId, label: String) -> Ledger {
        Ledger {
            instance_id,
            next_serial: if instance_id == BUILT_IN_INSTANCE {
                BUILT_IN_COUNT
            } else {
                0
            },
            accounts: Seq::empty(),
            categories: seq![
                Category {
                    id: transfer_income_id(),
                    name: label,
                    category_type: CategoryType::Income,
                    meta_info: built_in_meta(),
                },
                Category {
                    id: transfer_outcome_id(),
                    name: label,
                    category_type: CategoryType::Outcome,
                    meta_info: built_in_meta(),
                },
            ],
            plans: Seq::empty(),
            transactions: Seq::empty(),
        }
    }

    /// The balance that an account has to have: the sum of the amounts of its
    /// transactions that are not removed.
    pub open spec fn balance_of(self, account: Id) -> int {
        total(self.transactions, Query::of_account(account))
    }

    /// Whether every account has the balance that it has to have.
    pub open spec fn balanced(self) -> bool {
        forall|i: int|
            0 <= i < self.accounts.len() ==> (#[trigger] self.accounts[i]).balance
                == self.balance_of(self.accounts[i].id)
    }

    /// Whether the balance that each account has to have fits the type of amounts.
    pub open spec fn fits(self) -> bool {
        forall|i: int|
            0 <= i < self.accounts.len() ==> isize::MIN <= self.balance_of(
                (#[trigger] self.accounts[i]).id,
            ) <= isize::MAX
    }

    /// The ledger with every balance derived anew from the transactions.
    pub open spec fn settled(self) -> Ledger {
        Ledger {
            accounts: Seq::new(
                self.accounts.len(),
                |i: int| with_balance(self.accounts[i], self.balance_of(self.accounts[i].id) as isize),
            ),
            ..self
        }
    }

    /// Whether no identifier occurs twice among the entities of one kind.
    pub open spec fn distinct(self) -> bool {
        &&& distinct_ids(self.accounts)
        &&& distinct_ids(self.categories)
        &&& distinct_ids(self.plans)
        &&& distinct_ids(self.transactions)
    }

    /// Whether every number that this instance gave lies below `bound`.
    pub open spec fn numbered_below(self, bound: int) -> bool {
        &&& serials_below(self.accounts, self.instance_id, bound)
        &&& serials_below(self.categories, self.instance_id, bound)
        &&& serials_below(self.plans, self.instance_id, bound)
        &&& serials_below(self.transactions, self.instance_id, bound)
    }

    /// The invariant of a ledger: identifiers are distinct within a kind, the
    /// next number is above every number given so far, and every balance is
    /// the sum of the account's transactions that are not removed.
    pub open spec fn wf(self) -> bool {
        &&& self.distinct()
        &&& self.numbered_below(self.next_serial as int)
        &&& self.balanced()
    }

    /// The identifier that the `k`-th entity made next gets.
    pub open spec fn fresh(self, k: int) -> Id {
        Id { instance: self.instance_id, serial: (self.next_serial + k) as u64 }
    }
}

/// The built-in category under which an initial balance is booked.
pub open spec fn opening_category(initial_balance: isize) -> Id {
    if initial_balance > 0 {
        transfer_income_id()
    } else {
        transfer_outcome_id()
    }
}

/// The categories of one type that are not removed, in their order.
pub open spec fn categories_of_type(categories: Seq<Category>, category_type: CategoryType) -> Seq<
    Category,
> {
    categories.filter(
        |category: Category| is_live(category) && category.category_type == category_type,
    )
}

/// What a look-up by identifier has to give: the row with that identifier if
/// there is one that is not removed, and the error `EntityNotFound` if not.
pub open spec fn found<R: Row>(rows: Seq<R>, id: Id, result: Result<R, crate::error::Error>) -> bool {
    if has_live(rows, id) {
        result == Ok::<R, crate::error::Error>(row_with(rows, id))
    } else {
        result is Err && result->Err_0.kind == ErrorKind::EntityNotFound
    }
}

/// What an operation has to give: where `failure` names an error, that error
/// and the ledger as it was; where it names none, `value` and the ledger `next`.
pub open spec fn outcome<T>(
    before: Ledger,
    after: Ledger,
    result: Result<T, crate::error::Error>,
    failure: Option<ErrorKind>,
    value: T,
    next: Ledger,
) -> bool {
    match failure {
        Some(kind) => result is Err && result->Err_0.kind == kind && after == before,
        None => result == Ok::<T, crate::error::Error>(value) && after == next,
    }
}

impl Ledger {
    /// Whether `count` more entities can be numbered.
    pub open spec fn room_for(self, count: int) -> bool {
        self.next_serial + count <= u64::MAX
    }

    /// The ledger after `count` numbers were given out.
    pub open spec fn numbered(self, count: int) -> Ledger {
        Ledger { next_serial: (self.next_serial + count) as u64, ..self }
    }

    /// Why a category cannot be added, if it cannot.
    pub open spec fn add_category_failure(self) -> Option<ErrorKind> {
        if !self.room_for(1) {
            Some(ErrorKind::ValueOutOfRange)
        } else {
            None
        }
    }

    /// The ledger with one more category.
    pub open spec fn with_category(self, name: String, category_type: CategoryType, now: Timestamp) -> Ledger {
        Ledger {
            categories: self.categories.push(
                Category {
                    id: self.fresh(0),
                    name,
                    category_type,
                    meta_info: MetaInfo::created(self.instance_id, now),
                },
            ),
            ..self.numbered(1)
        }
    }

    /// Why a plan cannot be added, if it cannot.
    pub open spec fn add_plan_failure(self, category_id: Id, amount_limit: isize) -> Option<ErrorKind> {
        if !has_live(self.categories, category_id) {
            Some(ErrorKind::EntityNotFound)
        } else if row_with(self.categories, category_id).category_type != CategoryType::Outcome {
            Some(ErrorKind::PlanNeedsOutcomeCategory)
        } else if amount_limit <= 0 || !self.room_for(1) {
            Some(ErrorKind::ValueOutOfRange)
        } else {
            None
        }
    }

    /// The ledger with one more plan.
    pub open spec fn with_plan(self, category_id: Id, name: String, amount_limit: isize, now: Timestamp) -> Ledger {
        Ledger {
            plans: self.plans.push(
                Plan {
                    id: self.fresh(0),
                    category_id,
                    name,
                    amount_limit,
                    meta_info: MetaInfo::created(self.instance_id, now),
                },
            ),
            ..self.numbered(1)
        }
    }

    /// The transaction that `add_transaction` makes.
    pub open spec fn new_transaction(
        self,
        account_id: Id,
        category_id: Id,
        description: String,
        amount: isize,
        timestamp: Timestamp,
        now: Timestamp,
    ) -> Transaction {
        Transaction {
            id: self.fresh(0),
            timestamp,
            description,
            account_id,
            category_id,
            amount: row_with(self.categories, category_id).category_type.signed(amount as int) as isize,
            transfer: None,
            meta_info: MetaInfo::created(self.instance_id, now),
        }
    }

    /// The ledger with more transactions at its end, balances as they were.
    pub open spec fn with_transactions(self, more: Seq<Transaction>) -> Ledger {
        Ledger { transactions: self.transactions + more, ..self }
    }

    /// The ledger with one more transaction, balances derived anew.
    pub open spec fn with_transaction(
        self,
        account_id: Id,
        category_id: Id,
        description: String,
        amount: isize,
        timestamp: Timestamp,
        now: Timestamp,
    ) -> Ledger {
        self.with_transactions(
            seq![self.new_transaction(account_id, category_id, description, amount, timestamp, now)],
        ).numbered(1).settled()
    }

    /// Why a transaction cannot be added, if it cannot.
    pub open spec fn add_transaction_failure(
        self,
        account_id: Id,
        category_id: Id,
        description: String,
        amount: isize,
        timestamp: Timestamp,
        now: Timestamp,
    ) -> Option<ErrorKind> {
        if !has_live(self.accounts, account_id) || !has_live(self.categories, category_id) {
            Some(ErrorKind::EntityNotFound)
        } else if amount == isize::MIN || !self.room_for(1) || !self.with_transactions(
            seq![self.new_transaction(account_id, category_id, description, amount, timestamp, now)],
        ).fits() {
            Some(ErrorKind::ValueOutOfRange)
        } else {
            None
        }
    }

    /// The two transactions of a transfer: what leaves `from`, then what
    /// enters `to`. Both carry the identifier of the first as their link.
    pub open spec fn transfer_legs(
        self,
        amount: isize,
        from: Id,
        to: Id,
        timestamp: Timestamp,
        now: Timestamp,
        note: String,
    ) -> Seq<Transaction> {
        seq![
            Transaction {
                id: self.fresh(0),
                timestamp,
                description: note,
                account_id: from,
                category_id: transfer_outcome_id(),
                amount: CategoryType::Outcome.signed(amount as int) as isize,
                transfer: Some(self.fresh(0)),
                meta_info: MetaInfo::created(self.instance_id, now),
            },
            Transaction {
                id: self.fresh(1),
                timestamp,
                description: note,
                account_id: to,
                category_id: transfer_income_id(),
                amount: CategoryType::Income.signed(amount as int) as isize,
                transfer: Some(self.fresh(0)),
                meta_info: MetaInfo::created(self.instance_id, now),
            },
        ]
    }

    /// The ledger with one more transfer, balances derived anew.
    pub open spec fn with_transfer(
        self,
        amount: isize,
        from: Id,
        to: Id,
        timestamp: Timestamp,
        now: Timestamp,
        note: String,
    ) -> Ledger {
        self.with_transactions(
            self.transfer_legs(amount, from, to, timestamp, now, note),
        ).numbered(2).settled()
    }

    /// Why a transfer cannot be added, if it cannot.
    pub open spec fn add_transfer_failure(
        self,
        amount: isize,
        from: Id,
        to: Id,
        timestamp: Timestamp,
        now: Timestamp,
        note: String,
    ) -> Option<ErrorKind> {
        if from == to {
            Some(ErrorKind::TransferWithinAccount)
        } else if !has_live(self.accounts, from) || !has_live(self.accounts, to) || !has_live(
            self.categories,
            transfer_income_id(),
        ) || !has_live(self.categories, transfer_outcome_id()) {
            Some(ErrorKind::EntityNotFound)
        } else if amount == isize::MIN || !self.room_for(2) || !self.with_transactions(
            self.transfer_legs(amount, from, to, timestamp, now, note),
        ).fits() {
            Some(ErrorKind::ValueOutOfRange)
        } else {
            None
        }
    }

    /// The number of entities that a new account brings: itself, and the
    /// transaction that books its initial balance if that is not zero.
    pub open spec fn account_size(initial_balance: isize) -> int {
        if initial_balance == 0 {
            1
        } else {
            2
        }
    }

    /// The transactions that a new account brings.
    pub open spec fn opening(self, initial_balance: isize, now: Timestamp, note: String) -> Seq<Transaction> {
        if initial_balance == 0 {
            Seq::empty()
        } else {
            seq![
                Transaction {
                    id: self.fresh(1),
                    timestamp: now,
                    description: note,
                    account_id: self.fresh(0),
                    category_id: opening_category(initial_balance),
                    amount: initial_balance,
                    transfer: None,
                    meta_info: MetaInfo::created(self.instance_id, now),
                },
            ]
        }
    }

    /// The ledger with one more account and the transaction that books its
    /// initial balance, balances as they were.
    pub open spec fn opened(self, name: String, initial_balance: isize, now: Timestamp, note: String) -> Ledger {
        Ledger {
            accounts: self.accounts.push(
                Account {
                    id: self.fresh(0),
                    name,
                    balance: 0,
                    meta_info: MetaInfo::created(self.instance_id, now),
                },
            ),
            ..self.with_transactions(self.opening(initial_balance, now, note))
        }
    }

    /// The ledger with one more account, balances derived anew.
    pub open spec fn with_account(self, name: String, initial_balance: isize, now: Timestamp, note: String) -> Ledger {
        self.opened(name, initial_balance, now, note).numbered(
            Self::account_size(initial_balance),
        ).settled()
    }

    /// Why an account cannot be added, if it cannot.
    pub open spec fn add_account_failure(
        self,
        name: String,
        initial_balance: isize,
        now: Timestamp,
        note: String,
    ) -> Option<ErrorKind> {
        if initial_balance != 0 && !has_live(self.categories, opening_category(initial_balance)) {
            Some(ErrorKind::EntityNotFound)
        } else if !self.room_for(Self::account_size(initial_balance)) || !self.opened(
            name,
            initial_balance,
            now,
            note,
        ).fits() {
            Some(ErrorKind::ValueOutOfRange)
        } else {
            None
        }
    }

    /// What adding a transfer has to give, where `note` is the description of
    /// its two transactions.
    pub open spec fn transfer_outcome(
        self,
        after: Ledger,
        result: Result<Id, crate::error::Error>,
        amount: isize,
        from: Id,
        to: Id,
        timestamp: Timestamp,
        now: Timestamp,
        note: String,
    ) -> bool {
        outcome(
            self,
            after,
            result,
            self.add_transfer_failure(amount, from, to, timestamp, now, note),
            self.fresh(0),
            self.with_transfer(amount, from, to, timestamp, now, note),
        )
    }

    /// What adding an account has to give, where `note` is the description of
    /// the transaction that books the initial balance.
    pub open spec fn account_outcome(
        self,
        after: Ledger,
        result: Result<Id, crate::error::Error>,
        name: String,
        initial_balance: isize,
        now: Timestamp,
        note: String,
    ) -> bool {
        outcome(
            self,
            after,
            result,
            self.add_account_failure(name, initial_balance, now, note),
            self.fresh(0),
            self.with_account(name, initial_balance, now, note),
        )
    }

    /// Deriving the balances anew makes a ledger sound, if its identifiers
    /// are distinct and numbered below the next number and the balances fit.
    pub proof fn settled_is_sound(self)
        requires
            self.distinct(),
            self.numbered_below(self.next_serial as int),
            self.fits(),
        ensures
            self.settled().wf(),
            self.settled().settled() == self.settled(),
    {
        let after = self.settled();
        assert forall|i: int, j: int| 0 <= i < j < after.accounts.len() implies (
        #[trigger] after.accounts[i]).row_id() != (#[trigger] after.accounts[j]).row_id() by {
            assert(self.accounts[i].row_id() != self.accounts[j].row_id());
        }
        assert forall|i: int|
            0 <= i < after.accounts.len() && (#[trigger] after.accounts[i].row_id()).instance
                == self.instance_id implies after.accounts[i].row_id().serial
            < self.next_serial by {
            assert(self.accounts[i].row_id().serial < self.next_serial);
        }
        assert forall|i: int| 0 <= i < after.accounts.len() implies (
        #[trigger] after.accounts[i]).balance == after.balance_of(after.accounts[i].id) by {
            let account = self.accounts[i];
            assert(isize::MIN <= self.balance_of(account.id) <= isize::MAX);
        }
        assert(after.settled().accounts =~= after.accounts);
    }

    /// A bound of the numbers stays one when it grows.
    pub proof fn numbering_grows(self, count: int)
        requires
            self.numbered_below(self.next_serial as int),
            count >= 0,
        ensures
            self.numbered_below(self.next_serial + count),
    {
        let high = self.next_serial + count;
        assert forall|i: int|
            0 <= i < self.accounts.len() && (#[trigger] self.accounts[i].row_id()).instance
                == self.instance_id implies self.accounts[i].row_id().serial < high by {}
        assert forall|i: int|
            0 <= i < self.categories.len() && (#[trigger] self.categories[i].row_id()).instance
                == self.instance_id implies self.categories[i].row_id().serial < high by {}
        assert forall|i: int|
            0 <= i < self.plans.len() && (#[trigger] self.plans[i].row_id()).instance
                == self.instance_id implies self.plans[i].row_id().serial < high by {}
        assert forall|i: int|
            0 <= i < self.transactions.len() && (#[trigger] self.transactions[i].row_id()).instance
                == self.instance_id implies self.transactions[i].row_id().serial < high by {}
    }
}

/// What a removal is aimed at, as far as transactions are concerned.
#[derive(Debug, Clone, Copy, PartialEq, Eq, Structural)]
pub enum Target {
    /// The transaction with this identifier.
    Transaction(Id),
    /// The transactions of this account.
    Account(Id),
    /// The transactions of this category.
    Category(Id),
}

impl Target {
    /// Whether the target names the transaction.
    pub open spec fn names(self, transaction: Transaction) -> bool {
        match self {
            Target::Transaction(id) => transaction.id == id,
            Target::Account(id) => transaction.account_id == id,
            Target::Category(id) => transaction.category_id == id,
        }
    }

    /// Whether the target names the transaction.
    pub fn matches(&self, transaction: &Transaction) -> (named: bool)
        ensures
            named == self.names(*transaction),
    {
        match self {
            Target::Transaction(id) => transaction.id == *id,
            Target::Account(id) => transaction.account_id == *id,
            Target::Category(id) => transaction.category_id == *id,
        }
    }
}

/// Whether the transaction is not removed and the target names it.
pub open spec fn directly_hit(target: Target, transaction: Transaction) -> bool {
    is_live(transaction) && target.names(transaction)
}

/// Whether the target names some transaction that is not removed.
pub open spec fn touches(transactions: Seq<Transaction>, target: Target) -> bool {
    exists|k: int| 0 <= k < transactions.len() && directly_hit(target, #[trigger] transactions[k])
}

/// Whether the transaction is not removed and is linked, as the other half of
/// a transfer, to a transaction that the target names.
pub open spec fn linked_hit(transactions: Seq<Transaction>, target: Target, transaction: Transaction) -> bool {
    &&& is_live(transaction)
    &&& transaction.transfer is Some
    &&& exists|k: int|
        0 <= k < transactions.len() && directly_hit(target, #[trigger] transactions[k])
            && transactions[k].transfer == transaction.transfer
}

/// Whether a removal aimed at the target removes the transaction: the target
/// names it, or it belongs to a transfer whose other half the target names.
/// The two halves of a transfer are thus always removed together.
pub open spec fn hit(transactions: Seq<Transaction>, target: Target, transaction: Transaction) -> bool {
    directly_hit(target, transaction) || linked_hit(transactions, target, transaction)
}

/// The transactions after a removal aimed at the target.
pub open spec fn without(
    transactions: Seq<Transaction>,
    target: Target,
    instance: InstanceId,
    now: Timestamp,
) -> Seq<Transaction> {
    Seq::new(
        transactions.len(),
        |i: int|
            if hit(transactions, target, transactions[i]) {
                struck(transactions[i], instance, now)
            } else {
                transactions[i]
            },
    )
}

/// Whether every transaction that a removal aimed at the target removes
/// leaves room for a later version.
pub open spec fn can_strike(transactions: Seq<Transaction>, target: Target) -> bool {
    forall|i: int|
        0 <= i < transactions.len() && hit(transactions, target, #[trigger] transactions[i])
            ==> can_follow(transactions[i].meta_info)
}

/// Whether the plan is not removed and belongs to the category.
pub open spec fn plan_hit(category: Id, plan: Plan) -> bool {
    is_live(plan) && plan.category_id == category
}

/// Whether some plan that is not removed belongs to the category.
pub open spec fn has_plans(plans: Seq<Plan>, category: Id) -> bool {
    exists|k: int| 0 <= k < plans.len() && plan_hit(category, #[trigger] plans[k])
}

/// The plans after the removal of those of a category.
pub open spec fn without_plans(plans: Seq<Plan>, category: Id, instance: InstanceId, now: Timestamp) -> Seq<
    Plan,
> {
    Seq::new(
        plans.len(),
        |i: int|
            if plan_hit(category, plans[i]) {
                struck(plans[i], instance, now)
            } else {
                plans[i]
            },
    )
}

/// Whether every plan of the category that is not removed leaves room for a
/// later version.
pub open spec fn can_strike_plans(plans: Seq<Plan>, category: Id) -> bool {
    forall|i: int|
        0 <= i < plans.len() && plan_hit(category, #[trigger] plans[i]) ==> can_follow(
            plans[i].meta_info,
        )
}

impl Ledger {
    /// The ledger after the removal of a plan.
    pub open spec fn without_plan(self, id: Id, now: Timestamp) -> Ledger {
        Ledger { plans: with_struck(self.plans, id, self.instance_id, now), ..self }
    }

    /// Why a plan cannot be removed, if it cannot.
    pub open spec fn remove_plan_failure(self, id: Id) -> Option<ErrorKind> {
        if !has_live(self.plans, id) {
            Some(ErrorKind::EntityNotFound)
        } else if !can_follow(row_with(self.plans, id).meta_info) {
            Some(ErrorKind::ValueOutOfRange)
        } else {
            None
        }
    }

    /// The ledger after a removal aimed at the target, balances as they were.
    pub open spec fn struck_at(self, target: Target, now: Timestamp) -> Ledger {
        Ledger {
            transactions: without(self.transactions, target, self.instance_id, now),
            ..self
        }
    }

    /// The ledger after the removal of a transaction, balances derived anew.
    /// If the transaction is half of a transfer, the other half goes with it.
    pub open spec fn without_transaction(self, id: Id, now: Timestamp) -> Ledger {
        self.struck_at(Target::Transaction(id), now).settled()
    }

    /// Why a transaction cannot be removed, if it cannot.
    pub open spec fn remove_transaction_failure(self, id: Id, now: Timestamp) -> Option<ErrorKind> {
        if !has_live(self.transactions, id) {
            Some(ErrorKind::EntityNotFound)
        } else if !can_strike(self.transactions, Target::Transaction(id)) || !self.struck_at(
            Target::Transaction(id),
            now,
        ).fits() {
            Some(ErrorKind::ValueOutOfRange)
        } else {
            None
        }
    }

    /// The ledger after the removal of an account and of its transactions,
    /// balances as they were.
    pub open spec fn striking_account(self, id: Id, now: Timestamp) -> Ledger {
        Ledger {
            accounts: with_struck(self.accounts, id, self.instance_id, now),
            ..self.struck_at(Target::Account(id), now)
        }
    }

    /// The ledger after the removal of an account, balances derived anew.
    pub open spec fn without_account(self, id: Id, now: Timestamp) -> Ledger {
        self.striking_account(id, now).settled()
    }

    /// Why an account cannot be removed, if it cannot.
    pub open spec fn remove_account_failure(self, id: Id, force: bool, now: Timestamp) -> Option<ErrorKind> {
        if !has_live(self.accounts, id) {
            Some(ErrorKind::EntityNotFound)
        } else if !force && touches(self.transactions, Target::Account(id)) {
            Some(ErrorKind::ReferentialConflict)
        } else if !can_follow(row_with(self.accounts, id).meta_info) || !can_strike(
            self.transactions,
            Target::Account(id),
        ) || !self.striking_account(id, now).fits() {
            Some(ErrorKind::ValueOutOfRange)
        } else {
            None
        }
    }

    /// The ledger after the removal of a category, of its plans and of its
    /// transactions, balances as they were.
    pub open spec fn striking_category(self, id: Id, now: Timestamp) -> Ledger {
        Ledger {
            categories: with_struck(self.categories, id, self.instance_id, now),
            plans: without_plans(self.plans, id, self.instance_id, now),
            ..self.struck_at(Target::Category(id), now)
        }
    }

    /// The ledger after the removal of a category, balances derived anew.
    pub open spec fn without_category(self, id: Id, now: Timestamp) -> Ledger {
        self.striking_category(id, now).settled()
    }

    /// Why a category cannot be removed, if it cannot.
    pub open spec fn remove_category_failure(self, id: Id, force: bool, now: Timestamp) -> Option<ErrorKind> {
        if !has_live(self.categories, id) {
            Some(ErrorKind::EntityNotFound)
        } else if !force && (touches(self.transactions, Target::Category(id)) || has_plans(
            self.plans,
            id,
        )) {
            Some(ErrorKind::ReferentialConflict)
        } else if !can_follow(row_with(self.categories, id).meta_info) || !can_strike(
            self.transactions,
            Target::Category(id),
        ) || !can_strike_plans(self.plans, id) || !self.striking_category(id, now).fits() {
            Some(ErrorKind::ValueOutOfRange)
        } else {
            None
        }
    }

    /// The ledger without the entities that are removed.
    pub open spec fn cleaned(self) -> Ledger {
        Ledger {
            accounts: live_rows(self.accounts),
            categories: live_rows(self.categories),
            plans: live_rows(self.plans),
            transactions: live_rows(self.transactions),
            ..self
        }
    }
}

/// A removal changes no identifier of a transaction.
pub proof fn without_keeps_ids(transactions: Seq<Transaction>, target: Target, instance: InstanceId, now: Timestamp)
    ensures
        same_ids(transactions, without(transactions, target, instance, now)),
{
    let after = without(transactions, target, instance, now);
    assert forall|i: int| 0 <= i < transactions.len() implies (#[trigger] after[i]).row_id()
        == transactions[i].row_id() by {}
}

/// A removal changes no identifier of a plan.
pub proof fn without_plans_keeps_ids(plans: Seq<Plan>, category: Id, instance: InstanceId, now: Timestamp)
    ensures
        same_ids(plans, without_plans(plans, category, instance, now)),
{
    let after = without_plans(plans, category, instance, now);
    assert forall|i: int| 0 <= i < plans.len() implies (#[trigger] after[i]).row_id()
        == plans[i].row_id() by {}
}

/// The total of a query, when one more transaction joins at the end.
pub proof fn total_of_push(transactions: Seq<Transaction>, transaction: Transaction, query: Query)
    ensures
        total(transactions.push(transaction), query) == total(transactions, query) + share(
            transaction,
            query,
        ),
{
    assert(transactions.push(transaction).drop_last() =~= transactions);
}

/// Transactions that are removed add nothing to a total.
pub proof fn total_ignores_removed(transactions: Seq<Transaction>, query: Query)
    ensures
        total(live_rows(transactions), query) == total(transactions, query),
    decreases transactions.len(),
{
    if transactions.len() == 0 {
        assert(transactions =~= Seq::<Transaction>::empty());
        live_rows_of_none::<Transaction>();
    } else {
        let front = transactions.drop_last();
        let last = transactions.last();
        assert(transactions =~= front.push(last));
        total_ignores_removed(front, query);
        live_rows_of_push(front, last);
        if is_live(last) {
            total_of_push(live_rows(front), last, query);
        }
    }
}

impl Ledger {
    /// Dropping what is removed keeps a ledger sound.
    pub proof fn cleaned_is_sound(self)
        requires
            self.wf(),
        ensures
            self.cleaned().wf(),
    {
        let after = self.cleaned();
        let bound = self.next_serial as int;
        live_rows_are_sound(self.accounts, self.instance_id, bound);
        live_rows_are_sound(self.categories, self.instance_id, bound);
        live_rows_are_sound(self.plans, self.instance_id, bound);
        live_rows_are_sound(self.transactions, self.instance_id, bound);
        assert forall|i: int| 0 <= i < after.accounts.len() implies (
        #[trigger] after.accounts[i]).balance == after.balance_of(after.accounts[i].id) by {
            let account = after.accounts[i];
            assert(self.accounts.contains(account));
            let at = choose|at: int| 0 <= at < self.accounts.len() && self.accounts[at] == account;
            assert(self.accounts[at].balance == self.balance_of(self.accounts[at].id));
            total_ignores_removed(self.transactions, Query::of_account(account.id));
        }
    }

    /// Cleaning is idempotent: a second cleaning changes nothing.
    pub proof fn cleaning_twice_is_cleaning_once(self)
        ensures
            self.cleaned().cleaned() == self.cleaned(),
    {
        live_rows_twice(self.accounts);
        live_rows_twice(self.categories);
        live_rows_twice(self.plans);
        live_rows_twice(self.transactions);
    }
}

impl Ledger {
    /// In a sound ledger the balance of every account is the sum of the
    /// amounts of its transactions that are not removed.
    pub proof fn balance_is_sum(self, id: Id)
        requires
            self.wf(),
            has_id(self.accounts, id),
        ensures
            row_with(self.accounts, id).balance == total(self.transactions, Query::of_account(id)),
    {
        row_with_has_id(self.accounts, id);
    }

    /// An account with a transaction that is not removed cannot be removed
    /// without force.
    pub proof fn transactions_block_removal(self, id: Id, now: Timestamp)
        requires
            has_live(self.accounts, id),
            touches(self.transactions, Target::Account(id)),
        ensures
            self.remove_account_failure(id, false, now) == Some(ErrorKind::ReferentialConflict),
    {
    }

    /// After the removal of an account, the account is removed and so is
    /// every transaction that belongs to it.
    pub proof fn removal_takes_transactions(self, id: Id, now: Timestamp)
        requires
            self.distinct(),
            has_live(self.accounts, id),
        ensures
            !has_live(self.without_account(id, now).accounts, id),
            !touches(self.without_account(id, now).transactions, Target::Account(id)),
    {
        let raw = self.striking_account(id, now);
        let after = self.without_account(id, now);
        let target = Target::Account(id);
        row_with_has_id(self.accounts, id);
        let at = index_of(self.accounts, id);
        struck_keeps_ids(self.accounts, id, self.instance_id, now);
        same_ids_same_order(self.accounts, raw.accounts, self.instance_id, 0);
        assert(after.accounts[at].row_id() == id);
        assert forall|i: int, j: int| 0 <= i < j < after.accounts.len() implies (
        #[trigger] after.accounts[i]).row_id() != (#[trigger] after.accounts[j]).row_id() by {
            assert(raw.accounts[i].row_id() != raw.accounts[j].row_id());
        }
        index_of_is_unique(after.accounts, at);
        assert(!is_live(after.accounts[at]));
        assert forall|k: int| 0 <= k < after.transactions.len() implies !directly_hit(
            target,
            #[trigger] after.transactions[k],
        ) by {
            let was = self.transactions[k];
            if directly_hit(target, was) {
                assert(hit(self.transactions, target, was));
            }
        }
    }

    /// A category with a transaction or a plan that is not removed cannot be
    /// removed without force.
    pub proof fn dependents_block_removal(self, id: Id, now: Timestamp)
        requires
            has_live(self.categories, id),
            touches(self.transactions, Target::Category(id)) || has_plans(self.plans, id),
        ensures
            self.remove_category_failure(id, false, now) == Some(ErrorKind::ReferentialConflict),
    {
    }

    /// After the removal of a category, the category is removed and so is
    /// every transaction and every plan that belongs to it.
    pub proof fn removal_takes_dependents(self, id: Id, now: Timestamp)
        requires
            self.distinct(),
            has_live(self.categories, id),
        ensures
            !has_live(self.without_category(id, now).categories, id),
            !touches(self.without_category(id, now).transactions, Target::Category(id)),
            !has_plans(self.without_category(id, now).plans, id),
    {
        let after = self.without_category(id, now);
        let target = Target::Category(id);
        row_with_has_id(self.categories, id);
        let at = index_of(self.categories, id);
        struck_keeps_ids(self.categories, id, self.instance_id, now);
        same_ids_same_order(self.categories, after.categories, self.instance_id, 0);
        assert(after.categories[at].row_id() == id);
        index_of_is_unique(after.categories, at);
        assert forall|k: int| 0 <= k < after.transactions.len() implies !directly_hit(
            target,
            #[trigger] after.transactions[k],
        ) by {
            let was = self.transactions[k];
            if directly_hit(target, was) {
                assert(hit(self.transactions, target, was));
            }
        }
        assert forall|k: int| 0 <= k < after.plans.len() implies !plan_hit(
            id,
            #[trigger] after.plans[k],
        ) by {}
    }
}

/// The total of a query is the share of any one transaction and the total
/// of the others.
pub proof fn total_without(transactions: Seq<Transaction>, at: int, query: Query)
    requires
        0 <= at < transactions.len(),
    ensures
        total(transactions, query) == total(transactions.remove(at), query) + share(
            transactions[at],
            query,
        ),
    decreases transactions.len(),
{
    let front = transactions.drop_last();
    if at == transactions.len() - 1 {
        assert(transactions.remove(at) =~= front);
    } else {
        total_without(front, at, query);
        assert(transactions.remove(at).drop_last() =~= front.remove(at));
        assert(transactions.remove(at).last() == transactions.last());
    }
}

/// The total of a query does not depend on the order of the transactions.
pub proof fn total_in_any_order(one: Seq<Transaction>, other: Seq<Transaction>, query: Query)
    requires
        one.to_multiset() == other.to_multiset(),
    ensures
        total(one, query) == total(other, query),
    decreases one.len(),
{
    broadcast use {
        vstd::seq_lib::to_multiset_len,
        vstd::seq_lib::to_multiset_contains,
        vstd::seq_lib::to_multiset_build,
        vstd::seq_lib::to_multiset_remove,
        vstd::multiset::group_multiset_axioms,
    };

    assert(one.len() == other.len()) by {
        assert(one.to_multiset().len() == one.len());
        assert(other.to_multiset().len() == other.len());
    }
    if one.len() > 0 {
        let front = one.drop_last();
        let last = one.last();
        assert(one =~= front.push(last));
        assert(one.to_multiset() =~= front.to_multiset().insert(last));
        assert(other.to_multiset().count(last) > 0);
        assert(other.contains(last));
        let at = choose|at: int| 0 <= at < other.len() && other[at] == last;
        assert(other.remove(at).to_multiset() =~= other.to_multiset().remove(last));
        assert(front.to_multiset() =~= other.remove(at).to_multiset());
        total_in_any_order(front, other.remove(at), query);
        total_without(other, at, query);
    }
}

impl Ledger {
    /// A new transaction changes the balance that its account has to have by
    /// its amount, and no other balance.
    pub proof fn transaction_moves_one_balance(
        self,
        account_id: Id,
        category_id: Id,
        description: String,
        amount: isize,
        timestamp: Timestamp,
        now: Timestamp,
        other: Id,
    )
        ensures
            self.with_transaction(
                account_id,
                category_id,
                description,
                amount,
                timestamp,
                now,
            ).balance_of(account_id) == self.balance_of(account_id) + self.new_transaction(
                account_id,
                category_id,
                description,
                amount,
                timestamp,
                now,
            ).amount,
            other != account_id ==> self.with_transaction(
                account_id,
                category_id,
                description,
                amount,
                timestamp,
                now,
            ).balance_of(other) == self.balance_of(other),
    {
        let added = self.new_transaction(account_id, category_id, description, amount, timestamp, now);
        assert(self.transactions + seq![added] =~= self.transactions.push(added));
        total_of_push(self.transactions, added, Query::of_account(account_id));
        total_of_push(self.transactions, added, Query::of_account(other));
    }

    /// A transfer takes from one account what it gives to the other: the two
    /// amounts are opposite, and the two transactions carry the same link
    /// and the same metadata, so that reconciliation keeps both or neither.
    pub proof fn transfer_halves_belong_together(
        self,
        amount: isize,
        from: Id,
        to: Id,
        timestamp: Timestamp,
        now: Timestamp,
        note: String,
    )
        requires
            amount > isize::MIN,
        ensures
            self.transfer_legs(amount, from, to, timestamp, now, note)[0].amount
                == -self.transfer_legs(amount, from, to, timestamp, now, note)[1].amount,
            self.transfer_legs(amount, from, to, timestamp, now, note)[1].amount >= 0,
            self.transfer_legs(amount, from, to, timestamp, now, note)[0].transfer
                == self.transfer_legs(amount, from, to, timestamp, now, note)[1].transfer,
            self.transfer_legs(amount, from, to, timestamp, now, note)[0].meta_info
                == self.transfer_legs(amount, from, to, timestamp, now, note)[1].meta_info,
    {
    }

    /// A removal that takes one half of a transfer takes the other: of two
    /// transactions that are not removed and carry the same link, a removal
    /// aimed at a target removes both or neither.
    pub proof fn removal_takes_both_halves(self, target: Target, one: int, other: int)
        requires
            0 <= one < self.transactions.len(),
            0 <= other < self.transactions.len(),
            is_live(self.transactions[one]),
            is_live(self.transactions[other]),
            self.transactions[one].transfer is Some,
            self.transactions[one].transfer == self.transactions[other].transfer,
        ensures
            hit(self.transactions, target, self.transactions[one]) == hit(
                self.transactions,
                target,
                self.transactions[other],
            ),
    {
        let first = self.transactions[one];
        let second = self.transactions[other];
        if hit(self.transactions, target, first) {
            if directly_hit(target, first) {
                assert(linked_hit(self.transactions, target, second));
            } else {
                assert(linked_hit(self.transactions, target, second));
            }
        }
        if hit(self.transactions, target, second) {
            if directly_hit(target, second) {
                assert(linked_hit(self.transactions, target, first));
            } else {
                assert(linked_hit(self.transactions, target, first));
            }
        }
    }
}

} // verus!
