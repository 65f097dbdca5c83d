//! Reconciliation of two copies of a ledger.
//!
//! Every entity is reconciled by itself: of two versions of one identifier
//! the one that was written later is kept, and of two written at the same
//! time the one written by the instance with the greater identifier. A
//! removal is a version like any other. Balances are never taken from either
//! side: they are derived anew from the transactions that were kept.

use vstd::prelude::*;

use crate::error::ErrorKind;
use crate::ledger::{total_in_any_order, with_balance, Ledger, Query};
use crate::rows::{
    bound_over, bound_over_is_bound, check_distinct_ids, distinct_ids, has_id, index_of_is_unique,
    merged_rows, merged_rows_by_id, merged_with_none, row_map, row_with, rows_since,
    same_map_same_rows, serials_below, surviving,
};
use crate::storage::{Account, Category, Id, InstanceId, Plan, Row, Timestamp, Transaction};

verus! {

/// The rows of a ledger as a value: what a snapshot holds.
pub struct RowSets {
    pub accounts: Seq<Account>,
    pub categories: Seq<Category>,
    pub plans: Seq<Plan>,
    pub transactions: Seq<Transaction>,
}

/// The rows of a ledger as they travel between its copies.
#[derive(Debug, PartialEq, Eq)]
pub struct Snapshot {
    pub accounts: Vec<Account>,
    pub categories: Vec<Category>,
    pub plans: Vec<Plan>,
    pub transactions: Vec<Transaction>,
}

impl View for Snapshot {
    type V = RowSets;

    open spec fn view(&self) -> RowSets {
        RowSets {
            accounts: self.accounts@,
            categories: self.categories@,
            plans: self.plans@,
            transactions: self.transactions@,
        }
    }
}

impl RowSets {
    /// Whether no identifier occurs twice among the entities of one kind.
    pub open spec fn distinct(self) -> bool {
        &&& distinct_ids(self.accounts)
        &&& distinct_ids(self.categories)
        &&& distinct_ids(self.plans)
        &&& distinct_ids(self.transactions)
    }
}

impl Snapshot {
    /// Whether no identifier occurs twice among the entities of one kind.
    pub fn is_distinct(&self) -> (distinct: bool)
        ensures
            distinct == self@.distinct(),
    {
        check_distinct_ids(&self.accounts) && check_distinct_ids(&self.categories)
            && check_distinct_ids(&self.plans) && check_distinct_ids(&self.transactions)
    }
}

/// A bound of the numbers stays one when it grows.
pub proof fn bound_can_grow<R: Row>(rows: Seq<R>, instance: InstanceId, low: int, high: int)
    requires
        serials_below(rows, instance, low),
        low <= high,
    ensures
        serials_below(rows, instance, high),
{
    assert forall|i: int|
        0 <= i < rows.len() && (#[trigger] rows[i].row_id()).instance
            == instance implies rows[i].row_id().serial < high by {
        assert(rows[i].row_id().serial < low);
    }
}

impl Ledger {
    /// The rows of the ledger.
    pub open spec fn rows(self) -> RowSets {
        RowSets {
            accounts: self.accounts,
            categories: self.categories,
            plans: self.plans,
            transactions: self.transactions,
        }
    }

    /// The rows of the ledger that were written after a moment, removed
    /// ones included.
    pub open spec fn rows_since(self, checkpoint: Timestamp) -> RowSets {
        RowSets {
            accounts: rows_since(self.accounts, checkpoint),
            categories: rows_since(self.categories, checkpoint),
            plans: rows_since(self.plans, checkpoint),
            transactions: rows_since(self.transactions, checkpoint),
        }
    }

    /// The ledger with every kind of entity reconciled with the remote rows,
    /// balances and next number as they were.
    pub open spec fn joined(self, remote: RowSets) -> Ledger {
        Ledger {
            accounts: merged_rows(self.accounts, remote.accounts),
            categories: merged_rows(self.categories, remote.categories),
            plans: merged_rows(self.plans, remote.plans),
            transactions: merged_rows(self.transactions, remote.transactions),
            ..self
        }
    }

    /// The least number, not below the next number, that is above every
    /// number that this instance gave to an entity of the ledger.
    pub open spec fn bound(self) -> int {
        bound_over(
            self.transactions,
            self.instance_id,
            bound_over(
                self.plans,
                self.instance_id,
                bound_over(
                    self.categories,
                    self.instance_id,
                    bound_over(self.accounts, self.instance_id, self.next_serial as int),
                ),
            ),
        )
    }

    /// The ledger with its next number raised above every number in use.
    pub open spec fn renumbered(self) -> Ledger {
        Ledger { next_serial: self.bound() as u64, ..self }
    }

    /// The ledger after reconciliation with the remote rows, balances derived anew.
    pub open spec fn merged(self, remote: RowSets) -> Ledger {
        self.joined(remote).renumbered().settled()
    }

    /// Why the ledger cannot be reconciled with the remote rows, if it cannot.
    pub open spec fn merge_failure(self, remote: RowSets) -> Option<ErrorKind> {
        if !remote.distinct() {
            Some(ErrorKind::SyncDecryptError)
        } else if self.joined(remote).bound() > u64::MAX || !self.joined(remote).fits() {
            Some(ErrorKind::ValueOutOfRange)
        } else {
            None
        }
    }

    /// The ledger of an instance that holds nothing.
    pub open spec fn blank(instance_id: InstanceId, next_serial: u64) -> Ledger {
        Ledger {
            instance_id,
            next_serial,
            accounts: Seq::empty(),
            categories: Seq::empty(),
            plans: Seq::empty(),
            transactions: Seq::empty(),
        }
    }

    /// A ledger that holds nothing takes the remote rows as they are.
    pub proof fn blank_takes_all(instance_id: InstanceId, next_serial: u64, remote: RowSets)
        ensures
            Self::blank(instance_id, next_serial).joined(remote).rows() == remote,
    {
        merged_with_none(remote.accounts);
        merged_with_none(remote.categories);
        merged_with_none(remote.plans);
        merged_with_none(remote.transactions);
    }

    /// Raising the next number to the bound numbers every entity below it.
    pub proof fn renumbered_is_numbered(self)
        ensures
            self.bound() >= self.next_serial,
            self.numbered_below(self.bound()),
            self.numbered_below(self.next_serial as int) ==> self.bound() == self.next_serial,
    {
        let instance = self.instance_id;
        let b0 = self.next_serial as int;
        let b1 = bound_over(self.accounts, instance, b0);
        let b2 = bound_over(self.categories, instance, b1);
        let b3 = bound_over(self.plans, instance, b2);
        let b4 = bound_over(self.transactions, instance, b3);
        bound_over_is_bound(self.accounts, instance, b0);
        bound_over_is_bound(self.categories, instance, b1);
        bound_over_is_bound(self.plans, instance, b2);
        bound_over_is_bound(self.transactions, instance, b3);
        bound_can_grow(self.accounts, instance, b1, b4);
        bound_can_grow(self.categories, instance, b2, b4);
        bound_can_grow(self.plans, instance, b3, b4);
    }

    /// Reconciliation leaves a sound ledger.
    pub proof fn merged_is_sound(self, remote: RowSets)
        requires
            self.wf(),
            self.merge_failure(remote) is None,
        ensures
            self.merged(remote).wf(),
    {
        merged_rows_by_id(self.accounts, remote.accounts);
        merged_rows_by_id(self.categories, remote.categories);
        merged_rows_by_id(self.plans, remote.plans);
        merged_rows_by_id(self.transactions, remote.transactions);
        let joined = self.joined(remote);
        joined.renumbered_is_numbered();
        joined.renumbered().settled_is_sound();
    }
}

/// The row under an identifier, if the rows know the identifier.
pub open spec fn lookup<R: Row>(rows: Seq<R>, id: Id) -> Option<R> {
    if has_id(rows, id) {
        Some(row_with(rows, id))
    } else {
        None
    }
}

/// What reconciliation keeps of what each side holds under one identifier.
pub open spec fn kept<R: Row>(local: Option<R>, remote: Option<R>) -> Option<R> {
    match (local, remote) {
        (None, _) => remote,
        (Some(_), None) => local,
        (Some(mine), Some(theirs)) => Some(surviving(mine, theirs)),
    }
}

/// Whether `edited` may have come from `base` by edits: it still holds what
/// `base` held, unchanged or in a newer version, and may hold more.
pub open spec fn edit_of<R: Row>(edited: Option<R>, base: Option<R>) -> bool {
    base is Some ==> edited is Some && (edited->0 == base->0 || edited->0.row_meta().is_newer_than(
        &base->0.row_meta(),
    ))
}

/// Whether the rows may have come from `base` by edits.
pub open spec fn edits_of<R: Row>(edited: Seq<R>, base: Seq<R>) -> bool {
    forall|id: Id| edit_of(#[trigger] lookup(edited, id), lookup(base, id))
}

/// Whether two sets of edits of `base` changed no identifier in common.
pub open spec fn apart<R: Row>(one: Seq<R>, other: Seq<R>, base: Seq<R>) -> bool {
    forall|id: Id|
        #[trigger] lookup(one, id) == lookup(base, id) || lookup(other, id) == lookup(base, id)
}

/// Reconciliation, identifier by identifier, in terms of `lookup` and `kept`.
pub proof fn merged_rows_keep<R: Row>(local: Seq<R>, remote: Seq<R>)
    requires
        distinct_ids(local),
        distinct_ids(remote),
    ensures
        distinct_ids(merged_rows(local, remote)),
        forall|id: Id| #[trigger]
            lookup(merged_rows(local, remote), id) == kept(lookup(local, id), lookup(remote, id)),
{
    merged_rows_by_id(local, remote);
    assert forall|id: Id| #[trigger]
        lookup(merged_rows(local, remote), id) == kept(lookup(local, id), lookup(remote, id)) by {
        assert(has_id(merged_rows(local, remote), id) <==> has_id(local, id) || has_id(remote, id));
    }
}

/// Of two versions of one entity, the one written later is kept, whichever
/// side holds it.
pub proof fn later_version_is_kept<R: Row>(earlier: R, later: R)
    requires
        earlier.row_meta().modified_at < later.row_meta().modified_at,
    ensures
        surviving(earlier, later) == later,
        surviving(later, earlier) == later,
{
}

/// Two entities that were written together are kept together: where the
/// two versions on each side carry the same metadata, reconciliation keeps
/// both from the same side.
pub proof fn written_together_kept_together<R: Row>(mine: R, also_mine: R, theirs: R, also_theirs: R)
    requires
        mine.row_meta() == also_mine.row_meta(),
        theirs.row_meta() == also_theirs.row_meta(),
    ensures
        (surviving(mine, theirs) == theirs && surviving(also_mine, also_theirs) == also_theirs) || (
        surviving(mine, theirs) == mine && surviving(also_mine, also_theirs) == also_mine),
{
}

/// Where two row sets hold versions of one identifier written at different
/// times, reconciling them in either direction leaves the later version.
pub proof fn later_row_is_kept<R: Row>(one: Seq<R>, other: Seq<R>, id: Id)
    requires
        distinct_ids(one),
        distinct_ids(other),
        has_id(one, id),
        has_id(other, id),
        row_with(one, id).row_meta().modified_at < row_with(other, id).row_meta().modified_at,
    ensures
        row_with(merged_rows(one, other), id) == row_with(other, id),
        row_with(merged_rows(other, one), id) == row_with(other, id),
{
    merged_rows_by_id(one, other);
    merged_rows_by_id(other, one);
    assert(has_id(merged_rows(one, other), id));
    assert(has_id(merged_rows(other, one), id));
}

/// What is kept under one identifier does not depend on the order in which
/// two sets of edits meet their common base, where only one of them changed
/// what the base held.
pub proof fn kept_in_any_order<R: Row>(one: Option<R>, other: Option<R>, base: Option<R>)
    requires
        edit_of(one, base),
        edit_of(other, base),
        one == base || other == base,
    ensures
        kept(other, kept(one, base)) == kept(one, kept(other, base)),
{
}

/// Two instances that edited different identifiers of a common base reach
/// the same row set, whichever of them is reconciled with the base first.
pub proof fn order_of_syncs_is_irrelevant<R: Row>(one: Seq<R>, other: Seq<R>, base: Seq<R>)
    requires
        distinct_ids(one),
        distinct_ids(other),
        distinct_ids(base),
        edits_of(one, base),
        edits_of(other, base),
        apart(one, other, base),
    ensures
        row_map(merged_rows(other, merged_rows(one, base))) == row_map(
            merged_rows(one, merged_rows(other, base)),
        ),
{
    let first = merged_rows(other, merged_rows(one, base));
    let second = merged_rows(one, merged_rows(other, base));
    merged_rows_keep(one, base);
    merged_rows_keep(other, base);
    merged_rows_keep(other, merged_rows(one, base));
    merged_rows_keep(one, merged_rows(other, base));
    assert forall|id: Id| lookup(first, id) == lookup(second, id) by {
        assert(lookup(merged_rows(one, base), id) == kept(lookup(one, id), lookup(base, id)));
        assert(lookup(merged_rows(other, base), id) == kept(lookup(other, id), lookup(base, id)));
        assert(lookup(first, id) == kept(lookup(other, id), lookup(merged_rows(one, base), id)));
        assert(lookup(second, id) == kept(lookup(one, id), lookup(merged_rows(other, base), id)));
        assert(edit_of(lookup(one, id), lookup(base, id)));
        assert(edit_of(lookup(other, id), lookup(base, id)));
        kept_in_any_order(lookup(one, id), lookup(other, id), lookup(base, id));
    }
    assert forall|id: Id| row_map(first).dom().contains(id) == row_map(second).dom().contains(
        id,
    ) by {
        assert(lookup(first, id) == lookup(second, id));
    }
    assert forall|id: Id| row_map(first).dom().contains(id) implies row_map(first)[id] == row_map(
        second,
    )[id] by {
        assert(lookup(first, id) == lookup(second, id));
    }
    assert(row_map(first) =~= row_map(second));
}

/// The accounts with their balances set to zero: what an account is apart
/// from what is derived.
pub open spec fn cleared(accounts: Seq<Account>) -> Seq<Account> {
    Seq::new(accounts.len(), |i: int| with_balance(accounts[i], 0))
}

/// What is held under one identifier, with the balance set to zero.
pub open spec fn cleared_one(account: Option<Account>) -> Option<Account> {
    match account {
        Some(account) => Some(with_balance(account, 0)),
        None => None,
    }
}

/// Whether the rows `edited` may have come from `base` by edits. Balances
/// are set aside: they are derived, and no edit writes them.
pub open spec fn row_sets_edited(edited: RowSets, base: RowSets) -> bool {
    &&& edits_of(cleared(edited.accounts), cleared(base.accounts))
    &&& edits_of(edited.categories, base.categories)
    &&& edits_of(edited.plans, base.plans)
    &&& edits_of(edited.transactions, base.transactions)
}

/// Whether two sets of edits of `base` changed no identifier in common.
pub open spec fn row_sets_apart(one: RowSets, other: RowSets, base: RowSets) -> bool {
    &&& apart(cleared(one.accounts), cleared(other.accounts), cleared(base.accounts))
    &&& apart(one.categories, other.categories, base.categories)
    &&& apart(one.plans, other.plans, base.plans)
    &&& apart(one.transactions, other.transactions, base.transactions)
}

/// Whether two row sets hold the same rows under the same identifiers.
pub open spec fn same_row_sets(one: RowSets, other: RowSets) -> bool {
    &&& row_map(one.accounts) == row_map(other.accounts)
    &&& row_map(one.categories) == row_map(other.categories)
    &&& row_map(one.plans) == row_map(other.plans)
    &&& row_map(one.transactions) == row_map(other.transactions)
}

/// Setting the balances to zero changes no identifier.
pub proof fn cleared_by_id(accounts: Seq<Account>)
    requires
        distinct_ids(accounts),
    ensures
        distinct_ids(cleared(accounts)),
        forall|id: Id| #[trigger] lookup(cleared(accounts), id) == cleared_one(lookup(accounts, id)),
{
    let after = cleared(accounts);
    assert forall|i: int, j: int| 0 <= i < j < after.len() implies (#[trigger] after[i]).row_id() != (
    #[trigger] after[j]).row_id() by {
        assert(accounts[i].row_id() != accounts[j].row_id());
    }
    assert forall|id: Id| #[trigger] lookup(after, id) == cleared_one(lookup(accounts, id)) by {
        if has_id(accounts, id) {
            let i = choose|i: int| 0 <= i < accounts.len() && #[trigger] accounts[i].row_id() == id;
            index_of_is_unique(accounts, i);
            assert(after[i].row_id() == id);
            index_of_is_unique(after, i);
        }
        if has_id(after, id) {
            let i = choose|i: int| 0 <= i < after.len() && #[trigger] after[i].row_id() == id;
            assert(accounts[i].row_id() == id);
        }
    }
}

impl Ledger {
    /// Deriving the balances changes no identifier, and gives the account
    /// under each the balance that it has to have.
    pub proof fn settled_by_id(self)
        requires
            distinct_ids(self.accounts),
        ensures
            distinct_ids(self.settled().accounts),
            forall|id: Id| #[trigger]
                lookup(self.settled().accounts, id) == match lookup(self.accounts, id) {
                    Some(account) => Some(with_balance(account, self.balance_of(id) as isize)),
                    None => None,
                },
    {
        let after = self.settled().accounts;
        assert forall|i: int, j: int| 0 <= i < j < after.len() implies (#[trigger] after[i]).row_id() != (
        #[trigger] after[j]).row_id() by {
            assert(self.accounts[i].row_id() != self.accounts[j].row_id());
        }
        assert forall|id: Id| #[trigger]
            lookup(after, id) == match lookup(self.accounts, id) {
                Some(account) => Some(with_balance(account, self.balance_of(id) as isize)),
                None => None,
            } by {
            if has_id(self.accounts, id) {
                let i = choose|i: int|
                    0 <= i < self.accounts.len() && #[trigger] self.accounts[i].row_id() == id;
                index_of_is_unique(self.accounts, i);
                assert(after[i].row_id() == id);
                index_of_is_unique(after, i);
            }
            if has_id(after, id) {
                let i = choose|i: int| 0 <= i < after.len() && #[trigger] after[i].row_id() == id;
                assert(self.accounts[i].row_id() == id);
            }
        }
    }
}

/// Convergence: two instances that edited different identifiers of a common
/// base reach the same row sets, balances included, whichever of them is
/// reconciled with the base first. The first to be reconciled publishes what
/// it reached, and the second is reconciled with that. Where no
/// reconciliation fails, the ledgers named here are the ones that `merge`
/// leaves.
pub proof fn sync_order_is_irrelevant(one: Ledger, other: Ledger, base: RowSets)
    requires
        one.rows().distinct(),
        other.rows().distinct(),
        base.distinct(),
        row_sets_edited(one.rows(), base),
        row_sets_edited(other.rows(), base),
        row_sets_apart(one.rows(), other.rows(), base),
    ensures
        same_row_sets(
            other.merged(one.merged(base).rows()).rows(),
            one.merged(other.merged(base).rows()).rows(),
        ),
{
    let first = one.merged(base);
    let first_then = other.merged(first.rows());
    let second = other.merged(base);
    let second_then = one.merged(second.rows());

    order_of_syncs_is_irrelevant(one.categories, other.categories, base.categories);
    order_of_syncs_is_irrelevant(one.plans, other.plans, base.plans);
    order_of_syncs_is_irrelevant(one.transactions, other.transactions, base.transactions);

    merged_rows_keep(one.transactions, base.transactions);
    merged_rows_keep(other.transactions, base.transactions);
    merged_rows_keep(other.transactions, first.transactions);
    merged_rows_keep(one.transactions, second.transactions);
    same_map_same_rows(first_then.transactions, second_then.transactions);

    let raw_first = one.joined(base).renumbered();
    let raw_first_then = other.joined(first.rows()).renumbered();
    let raw_second = other.joined(base).renumbered();
    let raw_second_then = one.joined(second.rows()).renumbered();
    merged_rows_keep(one.accounts, base.accounts);
    merged_rows_keep(other.accounts, base.accounts);
    raw_first.settled_by_id();
    raw_second.settled_by_id();
    merged_rows_keep(other.accounts, first.accounts);
    merged_rows_keep(one.accounts, second.accounts);
    raw_first_then.settled_by_id();
    raw_second_then.settled_by_id();
    cleared_by_id(one.accounts);
    cleared_by_id(other.accounts);
    cleared_by_id(base.accounts);

    assert forall|id: Id|
        lookup(first_then.accounts, id) == lookup(second_then.accounts, id) by {
        let mine = lookup(one.accounts, id);
        let theirs = lookup(other.accounts, id);
        let common = lookup(base.accounts, id);
        assert(lookup(raw_first.accounts, id) == kept(mine, common));
        assert(lookup(raw_second.accounts, id) == kept(theirs, common));
        assert(cleared_one(lookup(first.accounts, id)) == cleared_one(kept(mine, common)));
        assert(cleared_one(lookup(second.accounts, id)) == cleared_one(kept(theirs, common)));
        assert(lookup(raw_first_then.accounts, id) == kept(theirs, lookup(first.accounts, id)));
        assert(lookup(raw_second_then.accounts, id) == kept(mine, lookup(second.accounts, id)));
        assert(cleared_one(lookup(raw_first_then.accounts, id)) == kept(
            cleared_one(theirs),
            kept(cleared_one(mine), cleared_one(common)),
        ));
        assert(cleared_one(lookup(raw_second_then.accounts, id)) == kept(
            cleared_one(mine),
            kept(cleared_one(theirs), cleared_one(common)),
        ));
        assert(edit_of(lookup(cleared(one.accounts), id), lookup(cleared(base.accounts), id)));
        assert(edit_of(lookup(cleared(other.accounts), id), lookup(cleared(base.accounts), id)));
        assert(lookup(cleared(one.accounts), id) == lookup(cleared(base.accounts), id) || lookup(
            cleared(other.accounts),
            id,
        ) == lookup(cleared(base.accounts), id));
        kept_in_any_order(cleared_one(mine), cleared_one(theirs), cleared_one(common));
        total_in_any_order(
            first_then.transactions,
            second_then.transactions,
            Query::of_account(id),
        );
        assert(first_then.transactions == raw_first_then.transactions);
        assert(second_then.transactions == raw_second_then.transactions);
        assert(raw_first_then.balance_of(id) == raw_second_then.balance_of(id));
    }
    assert(row_map(first_then.accounts) =~= row_map(second_then.accounts)) by {
        assert forall|id: Id|
            row_map(first_then.accounts).dom().contains(id) == row_map(
                second_then.accounts,
            ).dom().contains(id) by {
            assert(lookup(first_then.accounts, id) == lookup(second_then.accounts, id));
        }
        assert forall|id: Id| row_map(first_then.accounts).dom().contains(id) implies row_map(
            first_then.accounts,
        )[id] == row_map(second_then.accounts)[id] by {
            assert(lookup(first_then.accounts, id) == lookup(second_then.accounts, id));
        }
    }
}

/// What is kept under one identifier when the copy that was reconciled
/// first meets what the other copy made of it is what the other copy holds.
pub proof fn kept_again<R: Row>(one: Option<R>, other: Option<R>, base: Option<R>)
    requires
        edit_of(one, base),
        edit_of(other, base),
        one == base || other == base,
    ensures
        kept(kept(one, base), kept(other, kept(one, base))) == kept(other, kept(one, base)),
{
}

/// The copy that was reconciled first reaches, once it is reconciled again
/// with what the other copy published, the row set that the other copy holds.
pub proof fn second_round_catches_up<R: Row>(one: Seq<R>, other: Seq<R>, base: Seq<R>)
    requires
        distinct_ids(one),
        distinct_ids(other),
        distinct_ids(base),
        edits_of(one, base),
        edits_of(other, base),
        apart(one, other, base),
    ensures
        row_map(merged_rows(merged_rows(one, base), merged_rows(other, merged_rows(one, base))))
            == row_map(merged_rows(other, merged_rows(one, base))),
{
    let first = merged_rows(one, base);
    let last = merged_rows(other, first);
    let again = merged_rows(first, last);
    merged_rows_keep(one, base);
    merged_rows_keep(other, first);
    merged_rows_keep(first, last);
    assert forall|id: Id| lookup(again, id) == lookup(last, id) by {
        assert(lookup(first, id) == kept(lookup(one, id), lookup(base, id)));
        assert(lookup(last, id) == kept(lookup(other, id), lookup(first, id)));
        assert(lookup(again, id) == kept(lookup(first, id), lookup(last, id)));
        assert(edit_of(lookup(one, id), lookup(base, id)));
        assert(edit_of(lookup(other, id), lookup(base, id)));
        kept_again(lookup(one, id), lookup(other, id), lookup(base, id));
    }
    assert forall|id: Id| row_map(again).dom().contains(id) == row_map(last).dom().contains(
        id,
    ) by {
        assert(lookup(again, id) == lookup(last, id));
    }
    assert forall|id: Id| row_map(again).dom().contains(id) implies row_map(again)[id] == row_map(
        last,
    )[id] by {
        assert(lookup(again, id) == lookup(last, id));
    }
    assert(row_map(again) =~= row_map(last));
}

/// The copy that was reconciled first reaches, once it is reconciled again
/// with what the other copy published, the row sets that the other copy
/// holds, balances included.
pub proof fn second_sync_catches_up(one: Ledger, other: Ledger, base: RowSets)
    requires
        one.rows().distinct(),
        other.rows().distinct(),
        base.distinct(),
        row_sets_edited(one.rows(), base),
        row_sets_edited(other.rows(), base),
        row_sets_apart(one.rows(), other.rows(), base),
    ensures
        same_row_sets(
            one.merged(base).merged(other.merged(one.merged(base).rows()).rows()).rows(),
            other.merged(one.merged(base).rows()).rows(),
        ),
{
    let first = one.merged(base);
    let last = other.merged(first.rows());
    let again = first.merged(last.rows());

    second_round_catches_up(one.categories, other.categories, base.categories);
    second_round_catches_up(one.plans, other.plans, base.plans);
    second_round_catches_up(one.transactions, other.transactions, base.transactions);

    merged_rows_keep(one.transactions, base.transactions);
    merged_rows_keep(other.transactions, first.transactions);
    merged_rows_keep(first.transactions, last.transactions);
    same_map_same_rows(again.transactions, last.transactions);

    let raw_first = one.joined(base).renumbered();
    let raw_last = other.joined(first.rows()).renumbered();
    let raw_again = first.joined(last.rows()).renumbered();
    merged_rows_keep(one.accounts, base.accounts);
    raw_first.settled_by_id();
    merged_rows_keep(other.accounts, first.accounts);
    raw_last.settled_by_id();
    merged_rows_keep(first.accounts, last.accounts);
    raw_again.settled_by_id();
    cleared_by_id(one.accounts);
    cleared_by_id(other.accounts);
    cleared_by_id(base.accounts);

    assert forall|id: Id| lookup(again.accounts, id) == lookup(last.accounts, id) by {
        let mine = lookup(one.accounts, id);
        let theirs = lookup(other.accounts, id);
        let common = lookup(base.accounts, id);
        assert(lookup(raw_first.accounts, id) == kept(mine, common));
        assert(cleared_one(lookup(first.accounts, id)) == kept(
            cleared_one(mine),
            cleared_one(common),
        ));
        assert(lookup(raw_last.accounts, id) == kept(theirs, lookup(first.accounts, id)));
        assert(cleared_one(lookup(last.accounts, id)) == kept(
            cleared_one(theirs),
            kept(cleared_one(mine), cleared_one(common)),
        ));
        assert(lookup(raw_again.accounts, id) == kept(
            lookup(first.accounts, id),
            lookup(last.accounts, id),
        ));
        assert(cleared_one(lookup(again.accounts, id)) == kept(
            kept(cleared_one(mine), cleared_one(common)),
            kept(cleared_one(theirs), kept(cleared_one(mine), cleared_one(common))),
        ));
        assert(edit_of(lookup(cleared(one.accounts), id), lookup(cleared(base.accounts), id)));
        assert(edit_of(lookup(cleared(other.accounts), id), lookup(cleared(base.accounts), id)));
        assert(lookup(cleared(one.accounts), id) == lookup(cleared(base.accounts), id) || lookup(
            cleared(other.accounts),
            id,
        ) == lookup(cleared(base.accounts), id));
        kept_again(cleared_one(mine), cleared_one(theirs), cleared_one(common));
        total_in_any_order(again.transactions, last.transactions, Query::of_account(id));
        assert(again.transactions == raw_again.transactions);
        assert(last.transactions == raw_last.transactions);
        assert(raw_again.balance_of(id) == raw_last.balance_of(id));
    }
    assert(row_map(again.accounts) =~= row_map(last.accounts)) by {
        assert forall|id: Id|
            row_map(again.accounts).dom().contains(id) == row_map(last.accounts).dom().contains(
                id,
            ) by {
            assert(lookup(again.accounts, id) == lookup(last.accounts, id));
        }
        assert forall|id: Id| row_map(again.accounts).dom().contains(id) implies row_map(
            again.accounts,
        )[id] == row_map(last.accounts)[id] by {
            assert(lookup(again.accounts, id) == lookup(last.accounts, id));
        }
    }
}

/// Row sets that are the same as maps hold the same under every identifier.
pub proof fn same_map_same_lookup<R: Row>(one: Seq<R>, other: Seq<R>, id: Id)
    requires
        row_map(one) == row_map(other),
    ensures
        lookup(one, id) == lookup(other, id),
{
    assert(row_map(one).dom().contains(id) <==> has_id(one, id));
    assert(row_map(other).dom().contains(id) <==> has_id(other, id));
    if has_id(one, id) {
        assert(row_map(one)[id] == row_with(one, id));
        assert(row_map(other)[id] == row_with(other, id));
    }
}

/// Rows reconciled with rows that hold the same under every identifier
/// stay as they are.
pub proof fn same_rows_change_nothing<R: Row>(local: Seq<R>, remote: Seq<R>)
    requires
        distinct_ids(local),
        distinct_ids(remote),
        row_map(local) == row_map(remote),
    ensures
        distinct_ids(merged_rows(local, remote)),
        row_map(merged_rows(local, remote)) == row_map(local),
{
    let merged = merged_rows(local, remote);
    merged_rows_keep(local, remote);
    assert forall|id: Id| lookup(merged, id) == lookup(local, id) by {
        same_map_same_lookup(local, remote, id);
        assert(lookup(merged, id) == kept(lookup(local, id), lookup(remote, id)));
    }
    assert forall|id: Id| row_map(merged).dom().contains(id) == row_map(local).dom().contains(
        id,
    ) by {
        assert(lookup(merged, id) == lookup(local, id));
    }
    assert forall|id: Id| row_map(merged).dom().contains(id) implies row_map(merged)[id]
        == row_map(local)[id] by {
        assert(lookup(merged, id) == lookup(local, id));
    }
    assert(row_map(merged) =~= row_map(local));
}

/// A ledger reconciled with rows that hold what it holds stays as it is:
/// a further run of a copy that has caught up changes nothing.
pub proof fn caught_up_stays(ledger: Ledger, remote: RowSets)
    requires
        ledger.rows().distinct(),
        remote.distinct(),
        same_row_sets(ledger.rows(), remote),
        ledger.settled() == ledger,
    ensures
        same_row_sets(ledger.merged(remote).rows(), ledger.rows()),
{
    let after = ledger.merged(remote);
    let raw = ledger.joined(remote).renumbered();
    same_rows_change_nothing(ledger.accounts, remote.accounts);
    same_rows_change_nothing(ledger.categories, remote.categories);
    same_rows_change_nothing(ledger.plans, remote.plans);
    same_rows_change_nothing(ledger.transactions, remote.transactions);
    same_map_same_rows(after.transactions, ledger.transactions);
    merged_rows_keep(ledger.accounts, remote.accounts);
    raw.settled_by_id();
    ledger.settled_by_id();
    assert forall|id: Id| lookup(after.accounts, id) == lookup(ledger.accounts, id) by {
        assert(lookup(raw.accounts, id) == kept(
            lookup(ledger.accounts, id),
            lookup(remote.accounts, id),
        ));
        same_map_same_lookup(ledger.accounts, remote.accounts, id);
        assert(lookup(raw.accounts, id) == lookup(ledger.accounts, id));
        total_in_any_order(after.transactions, ledger.transactions, Query::of_account(id));
        assert(raw.balance_of(id) == ledger.balance_of(id));
        assert(lookup(ledger.settled().accounts, id) == lookup(ledger.accounts, id));
    }
    assert(row_map(after.accounts) =~= row_map(ledger.accounts)) by {
        assert forall|id: Id|
            row_map(after.accounts).dom().contains(id) == row_map(
                ledger.accounts,
            ).dom().contains(id) by {
            assert(lookup(after.accounts, id) == lookup(ledger.accounts, id));
        }
        assert forall|id: Id| row_map(after.accounts).dom().contains(id) implies row_map(
            after.accounts,
        )[id] == row_map(ledger.accounts)[id] by {
            assert(lookup(after.accounts, id) == lookup(ledger.accounts, id));
        }
    }
}

impl Ledger {
    /// Deriving the balances a second time changes nothing.
    pub proof fn settled_twice(self)
        ensures
            self.settled().settled() == self.settled(),
    {
        assert(self.settled().settled().accounts =~= self.settled().accounts);
    }

    /// Reconciliation leaves distinct identifiers distinct.
    pub proof fn merged_is_distinct(self, remote: RowSets)
        requires
            self.rows().distinct(),
            remote.distinct(),
        ensures
            self.merged(remote).rows().distinct(),
    {
        merged_rows_by_id(self.accounts, remote.accounts);
        merged_rows_by_id(self.categories, remote.categories);
        merged_rows_by_id(self.plans, remote.plans);
        merged_rows_by_id(self.transactions, remote.transactions);
        self.joined(remote).renumbered().settled_by_id();
    }
}

/// Convergence in full: two instances that edited different identifiers of
/// a common base end with the same row sets, balances included, once each
/// was reconciled after the other published; and these row sets are the
/// same whichever of the two was reconciled first.
///
/// The one that goes first is reconciled with the base and publishes; the
/// other is reconciled with that and publishes; the first is reconciled
/// again with that, and then holds what the other holds. A further run of
/// the other changes nothing. Where no reconciliation fails, the ledgers
/// named here are the ones that `merge` leaves.
pub proof fn syncs_converge(one: Ledger, other: Ledger, base: RowSets)
    requires
        one.rows().distinct(),
        other.rows().distinct(),
        base.distinct(),
        row_sets_edited(one.rows(), base),
        row_sets_edited(other.rows(), base),
        row_sets_apart(one.rows(), other.rows(), base),
    ensures
        same_row_sets(
            one.merged(base).merged(other.merged(one.merged(base).rows()).rows()).rows(),
            other.merged(one.merged(base).rows()).rows(),
        ),
        same_row_sets(
            other.merged(base).merged(one.merged(other.merged(base).rows()).rows()).rows(),
            one.merged(other.merged(base).rows()).rows(),
        ),
        same_row_sets(
            other.merged(one.merged(base).rows()).rows(),
            one.merged(other.merged(base).rows()).rows(),
        ),
        same_row_sets(
            other.merged(one.merged(base).rows()).merged(
                one.merged(base).merged(other.merged(one.merged(base).rows()).rows()).rows(),
            ).rows(),
            other.merged(one.merged(base).rows()).rows(),
        ),
{
    second_sync_catches_up(one, other, base);
    assert(row_sets_apart(other.rows(), one.rows(), base));
    second_sync_catches_up(other, one, base);
    sync_order_is_irrelevant(one, other, base);
    let first = one.merged(base);
    let last = other.merged(first.rows());
    let again = first.merged(last.rows());
    one.merged_is_distinct(base);
    other.merged_is_distinct(first.rows());
    first.merged_is_distinct(last.rows());
    other.joined(first.rows()).renumbered().settled_twice();
    caught_up_stays(last, again.rows());
}

} // verus!
