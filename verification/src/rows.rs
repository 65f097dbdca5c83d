//! Row sets: sequences of stored entities in which no identifier occurs twice.
//!
//! What the ledger does to one kind of entity it does to every kind, so the
//! operations are written once, for anything that is a `Row`.

use vstd::prelude::*;

use crate::storage::{Id, InstanceId, MetaInfo, Row, Timestamp};

verus! {

/// Whether some row has the identifier.
pub open spec fn has_id<R: Row>(rows: Seq<R>, id: Id) -> bool {
    exists|i: int| 0 <= i < rows.len() && #[trigger] rows[i].row_id() == id
}

/// Whether no identifier occurs twice.
pub open spec fn distinct_ids<R: Row>(rows: Seq<R>) -> bool {
    forall|i: int, j: int|
        0 <= i < j < rows.len() ==> #[trigger] rows[i].row_id() != #[trigger] rows[j].row_id()
}

/// The place of the row with the identifier, where there is one.
pub open spec fn index_of<R: Row>(rows: Seq<R>, id: Id) -> int {
    choose|i: int| 0 <= i < rows.len() && #[trigger] rows[i].row_id() == id
}

/// The row with the identifier, where there is one.
pub open spec fn row_with<R: Row>(rows: Seq<R>, id: Id) -> R {
    rows[index_of(rows, id)]
}

/// The rows as a map from identifier to row: the row set without its order.
pub open spec fn row_map<R: Row>(rows: Seq<R>) -> Map<Id, R> {
    Map::new(|id: Id| has_id(rows, id), |id: Id| row_with(rows, id))
}

/// Whether the row is not removed.
pub open spec fn is_live<R: Row>(row: R) -> bool {
    !row.row_meta().is_removed()
}

/// Whether a live row has the identifier.
pub open spec fn has_live<R: Row>(rows: Seq<R>, id: Id) -> bool {
    has_id(rows, id) && is_live(row_with(rows, id))
}

/// The rows that are not removed, in their order.
pub open spec fn live_rows<R: Row>(rows: Seq<R>) -> Seq<R> {
    rows.filter(|row: R| is_live(row))
}

/// The rows that were written after a moment, removed ones included, in
/// their order.
pub open spec fn rows_since<R: Row>(rows: Seq<R>, checkpoint: Timestamp) -> Seq<R> {
    rows.filter(|row: R| row.row_meta().modified_at > checkpoint)
}

/// Whether every identifier that `instance` gave has a number below `bound`.
pub open spec fn serials_below<R: Row>(rows: Seq<R>, instance: InstanceId, bound: int) -> bool {
    forall|i: int|
        0 <= i < rows.len() && (#[trigger] rows[i].row_id()).instance == instance
            ==> rows[i].row_id().serial < bound
}

/// Whether the metadata leaves room for a later version.
pub open spec fn can_follow(meta: MetaInfo) -> bool {
    meta.modified_at < i64::MAX
}

/// The time of a version written at `now` after the version `meta`: `now` if
/// the clock has moved on, and the moment after `meta` if it has not, so that
/// a later version is always later.
pub open spec fn following_time(meta: MetaInfo, now: Timestamp) -> Timestamp {
    if now > meta.modified_at {
        now
    } else {
        (meta.modified_at + 1) as Timestamp
    }
}

/// The metadata of an entity that `instance` removes at `now`.
pub open spec fn removed_meta(meta: MetaInfo, instance: InstanceId, now: Timestamp) -> MetaInfo {
    MetaInfo {
        instance_id: instance,
        created_at: meta.created_at,
        modified_at: following_time(meta, now),
        deleted_at: Some(following_time(meta, now)),
    }
}

/// The row as `instance` removes it at `now`.
pub open spec fn struck<R: Row>(row: R, instance: InstanceId, now: Timestamp) -> R {
    row.with_meta(removed_meta(row.row_meta(), instance, now))
}

/// The rows with the row of the identifier removed by `instance` at `now`.
pub open spec fn with_struck<R: Row>(rows: Seq<R>, id: Id, instance: InstanceId, now: Timestamp) -> Seq<R> {
    rows.update(index_of(rows, id), struck(row_with(rows, id), instance, now))
}

/// Whether two row sets hold the same identifiers in the same places.
pub open spec fn same_ids<R: Row>(before: Seq<R>, after: Seq<R>) -> bool {
    &&& after.len() == before.len()
    &&& forall|i: int| 0 <= i < before.len() ==> (#[trigger] after[i]).row_id() == before[i].row_id()
}

/// The version that is kept when a local version meets a remote one: the
/// remote one if it is newer, the local one otherwise.
pub open spec fn surviving<R: Row>(local: R, remote: R) -> R {
    if remote.row_meta().is_newer_than(&local.row_meta()) {
        remote
    } else {
        local
    }
}

/// The local row at `i` after it met the remote rows.
pub open spec fn reconciled<R: Row>(local: Seq<R>, remote: Seq<R>, i: int) -> R {
    if has_id(remote, local[i].row_id()) {
        surviving(local[i], row_with(remote, local[i].row_id()))
    } else {
        local[i]
    }
}

/// The remote rows that the local side has never seen, in their order.
pub open spec fn unseen<R: Row>(local: Seq<R>, remote: Seq<R>) -> Seq<R> {
    remote.filter(|row: R| !has_id(local, row.row_id()))
}

/// The rows after reconciliation: every local row in its place, replaced by
/// the remote row of the same identifier where that one is newer, and then
/// the remote rows that the local side has never seen.
pub open spec fn merged_rows<R: Row>(local: Seq<R>, remote: Seq<R>) -> Seq<R> {
    Seq::new(local.len(), |i: int| reconciled(local, remote, i)) + unseen(local, remote)
}

/// The row that reconciliation leaves under an identifier that one side at
/// least knows: the surviving version where both know it, and the only
/// version where one does.
pub open spec fn merged_row<R: Row>(local: Seq<R>, remote: Seq<R>, id: Id) -> R {
    if !has_id(local, id) {
        row_with(remote, id)
    } else if !has_id(remote, id) {
        row_with(local, id)
    } else {
        surviving(row_with(local, id), row_with(remote, id))
    }
}

/// With distinct identifiers, the place of an identifier is the place where it stands.
pub proof fn index_of_is_unique<R: Row>(rows: Seq<R>, i: int)
    requires
        distinct_ids(rows),
        0 <= i < rows.len(),
    ensures
        has_id(rows, rows[i].row_id()),
        index_of(rows, rows[i].row_id()) == i,
        row_with(rows, rows[i].row_id()) == rows[i],
{
    let id = rows[i].row_id();
    let j = index_of(rows, id);
    assert(0 <= j < rows.len() && rows[j].row_id() == id);
    if i < j {
        assert(rows[i].row_id() != rows[j].row_id());
    } else if j < i {
        assert(rows[j].row_id() != rows[i].row_id());
    }
}

/// The place of the row with the identifier, if there is one.
pub(crate) fn position_of<R: Row>(rows: &Vec<R>, id: Id) -> (position: Option<usize>)
    ensures
        position is Some <==> has_id(rows@, id),
        position is Some ==> position->0 < rows.len() && rows@[position->0 as int].row_id() == id,
        position is Some && distinct_ids(rows@) ==> position->0 == index_of(rows@, id),
{
    let mut i: usize = 0;
    while i < rows.len()
        invariant
            i <= rows.len(),
            forall|j: int| 0 <= j < i ==> rows@[j].row_id() != id,
        decreases rows.len() - i,
    {
        if rows[i].id() == id {
            proof {
                if distinct_ids(rows@) {
                    index_of_is_unique(rows@, i as int);
                }
            }
            return Some(i);
        }
        i += 1;
    }
    None
}

/// A copy of the rows.
pub fn duplicate_rows<R: Row>(rows: &Vec<R>) -> (copy: Vec<R>)
    ensures
        copy@ == rows@,
{
    let mut copy: Vec<R> = Vec::new();
    let mut i: usize = 0;
    while i < rows.len()
        invariant
            i <= rows.len(),
            copy@ == rows@.take(i as int),
        decreases rows.len() - i,
    {
        copy.push(rows[i].duplicate());
        proof {
            assert(rows@.take(i + 1) =~= rows@.take(i as int).push(rows@[i as int]));
        }
        i += 1;
    }
    proof {
        assert(rows@.take(rows.len() as int) =~= rows@);
    }
    copy
}

/// The rows that are not removed.
pub fn live_copy<R: Row>(rows: &Vec<R>) -> (live: Vec<R>)
    ensures
        live@ == live_rows(rows@),
{
    let mut live: Vec<R> = Vec::new();
    let mut i: usize = 0;
    while i < rows.len()
        invariant
            i <= rows.len(),
            live@ == live_rows(rows@.take(i as int)),
        decreases rows.len() - i,
    {
        proof {
            assert(rows@.take(i + 1) =~= rows@.take(i as int).push(rows@[i as int]));
            rows@.take(i as int).lemma_filter_push(rows@[i as int], |row: R| is_live(row));
        }
        if rows[i].meta().deleted_at.is_none() {
            live.push(rows[i].duplicate());
        }
        i += 1;
    }
    proof {
        assert(rows@.take(rows.len() as int) =~= rows@);
    }
    live
}

} // verus!

verus! {

/// The rows that were written after a moment, removed ones included.
pub fn changed_since<R: Row>(rows: &Vec<R>, checkpoint: Timestamp) -> (changed: Vec<R>)
    ensures
        changed@ == rows_since(rows@, checkpoint),
{
    let mut changed: Vec<R> = Vec::new();
    let mut i: usize = 0;
    while i < rows.len()
        invariant
            i <= rows.len(),
            changed@ == rows_since(rows@.take(i as int), checkpoint),
        decreases rows.len() - i,
    {
        proof {
            assert(rows@.take(i + 1) =~= rows@.take(i as int).push(rows@[i as int]));
            rows@.take(i as int).lemma_filter_push(
                rows@[i as int],
                |row: R| row.row_meta().modified_at > checkpoint,
            );
        }
        if rows[i].meta().modified_at > checkpoint {
            changed.push(rows[i].duplicate());
        }
        i += 1;
    }
    proof {
        assert(rows@.take(rows.len() as int) =~= rows@);
    }
    changed
}

/// Reconciles local rows with remote ones.
pub fn merge_rows<R: Row>(local: &Vec<R>, remote: &Vec<R>) -> (merged: Vec<R>)
    requires
        distinct_ids(remote@),
    ensures
        merged@ == merged_rows(local@, remote@),
{
    let mut merged: Vec<R> = Vec::new();
    let mut i: usize = 0;
    while i < local.len()
        invariant
            i <= local.len(),
            distinct_ids(remote@),
            merged@ == Seq::new(i as nat, |k: int| reconciled(local@, remote@, k)),
        decreases local.len() - i,
    {
        let row = &local[i];
        let kept = match position_of(remote, row.id()) {
            Some(j) => {
                if remote[j].meta().newer_than(&row.meta()) {
                    remote[j].duplicate()
                } else {
                    row.duplicate()
                }
            },
            None => row.duplicate(),
        };
        merged.push(kept);
        proof {
            assert(merged@ =~= Seq::new((i + 1) as nat, |k: int| reconciled(local@, remote@, k)));
        }
        i += 1;
    }
    let ghost head = merged@;
    let mut j: usize = 0;
    while j < remote.len()
        invariant
            j <= remote.len(),
            merged@ == head + unseen(local@, remote@.take(j as int)),
        decreases remote.len() - j,
    {
        proof {
            assert(remote@.take(j + 1) =~= remote@.take(j as int).push(remote@[j as int]));
            remote@.take(j as int).lemma_filter_push(
                remote@[j as int],
                |row: R| !has_id(local@, row.row_id()),
            );
        }
        if position_of(local, remote[j].id()).is_none() {
            merged.push(remote[j].duplicate());
        }
        proof {
            assert(merged@ =~= head + unseen(local@, remote@.take(j + 1)));
        }
        j += 1;
    }
    proof {
        assert(remote@.take(remote.len() as int) =~= remote@);
    }
    merged
}

/// Whether the rows have pairwise different identifiers.
pub fn check_distinct_ids<R: Row>(rows: &Vec<R>) -> (distinct: bool)
    ensures
        distinct == distinct_ids(rows@),
{
    let mut j: usize = 0;
    while j < rows.len()
        invariant
            j <= rows.len(),
            distinct_ids(rows@.take(j as int)),
        decreases rows.len() - j,
    {
        let mut i: usize = 0;
        while i < j
            invariant
                i <= j < rows.len(),
                forall|k: int| 0 <= k < i ==> rows@[k].row_id() != rows@[j as int].row_id(),
            decreases j - i,
        {
            if rows[i].id() == rows[j].id() {
                return false;
            }
            i += 1;
        }
        proof {
            assert forall|a: int, b: int| 0 <= a < b < j + 1 implies #[trigger] rows@.take(
                j + 1,
            )[a].row_id() != #[trigger] rows@.take(j + 1)[b].row_id() by {
                if b < j {
                    assert(rows@.take(j as int)[a].row_id() != rows@.take(j as int)[b].row_id());
                }
            }
        }
        j += 1;
    }
    proof {
        assert(rows@.take(rows.len() as int) =~= rows@);
    }
    true
}

/// The least bound, not below `start`, that is above every number that
/// `instance` gave to one of the rows.
pub open spec fn bound_over<R: Row>(rows: Seq<R>, instance: InstanceId, start: int) -> int
    decreases rows.len(),
{
    if rows.len() == 0 {
        start
    } else {
        let bound = bound_over(rows.drop_last(), instance, start);
        let id = rows.last().row_id();
        if id.instance == instance && id.serial >= bound {
            id.serial + 1
        } else {
            bound
        }
    }
}

/// The bound over the rows is a bound, and not below its start.
pub proof fn bound_over_is_bound<R: Row>(rows: Seq<R>, instance: InstanceId, start: int)
    ensures
        bound_over(rows, instance, start) >= start,
        serials_below(rows, instance, bound_over(rows, instance, start)),
        serials_below(rows, instance, start) ==> bound_over(rows, instance, start) == start,
    decreases rows.len(),
{
    if rows.len() > 0 {
        let front = rows.drop_last();
        bound_over_is_bound(front, instance, start);
        let bound = bound_over(rows, instance, start);
        assert forall|i: int|
            0 <= i < rows.len() && (#[trigger] rows[i].row_id()).instance
                == instance implies rows[i].row_id().serial < bound by {
            if i < front.len() {
                assert(front[i].row_id().serial < bound_over(front, instance, start));
            }
        }
        if serials_below(rows, instance, start) {
            assert forall|i: int|
                0 <= i < front.len() && (#[trigger] front[i].row_id()).instance
                    == instance implies front[i].row_id().serial < start by {
                assert(rows[i].row_id().serial < start);
            }
            if rows.last().row_id().instance == instance {
                assert(rows[rows.len() - 1].row_id().serial < start);
            }
        }
    }
}

/// The bound over more rows is not less than the bound over fewer.
pub proof fn bound_over_grows<R: Row>(rows: Seq<R>, instance: InstanceId, start: int, count: int)
    requires
        0 <= count <= rows.len(),
    ensures
        bound_over(rows.take(count), instance, start) <= bound_over(rows, instance, start),
    decreases rows.len() - count,
{
    if count < rows.len() {
        bound_over_grows(rows, instance, start, count + 1);
        assert(rows.take(count + 1).drop_last() =~= rows.take(count));
    } else {
        assert(rows.take(count) =~= rows);
    }
}

/// The least bound, not below `start`, that is above every number that
/// `instance` gave to one of the rows, if it fits the type of numbers.
pub(crate) fn serial_bound<R: Row>(rows: &Vec<R>, instance: InstanceId, start: u64) -> (bound: Option<u64>)
    ensures
        bound is Some <==> bound_over(rows@, instance, start as int) <= u64::MAX,
        bound is Some ==> bound->0 == bound_over(rows@, instance, start as int),
{
    let mut bound: u64 = start;
    let mut i: usize = 0;
    while i < rows.len()
        invariant
            i <= rows.len(),
            bound == bound_over(rows@.take(i as int), instance, start as int),
        decreases rows.len() - i,
    {
        let id = rows[i].id();
        proof {
            assert(rows@.take(i + 1).drop_last() =~= rows@.take(i as int));
        }
        if id.instance == instance && id.serial >= bound {
            if id.serial == u64::MAX {
                proof {
                    bound_over_grows(rows@, instance, start as int, i + 1);
                }
                return None;
            }
            bound = id.serial + 1;
        }
        i += 1;
    }
    proof {
        assert(rows@.take(rows.len() as int) =~= rows@);
    }
    Some(bound)
}

/// The place of the live row with the identifier, if there is one.
pub(crate) fn live_position<R: Row>(rows: &Vec<R>, id: Id) -> (position: Option<usize>)
    requires
        distinct_ids(rows@),
    ensures
        position is Some <==> has_live(rows@, id),
        position is Some ==> position->0 < rows.len() && position->0 == index_of(rows@, id)
            && rows@[position->0 as int].row_id() == id,
{
    match position_of(rows, id) {
        Some(i) => {
            if rows[i].meta().deleted_at.is_none() {
                Some(i)
            } else {
                None
            }
        },
        None => None,
    }
}

/// A row whose number is not below the bound of the rows is new to them, and
/// the rows stay distinct when it joins them.
pub proof fn fresh_row_is_new<R: Row>(rows: Seq<R>, row: R, bound: int)
    requires
        distinct_ids(rows),
        serials_below(rows, row.row_id().instance, bound),
        row.row_id().serial >= bound,
    ensures
        !has_id(rows, row.row_id()),
        distinct_ids(rows.push(row)),
{
    assert forall|i: int| 0 <= i < rows.len() implies #[trigger] rows[i].row_id()
        != row.row_id() by {
        if rows[i].row_id().instance == row.row_id().instance {
            assert(rows[i].row_id().serial < bound);
        }
    }
    assert forall|i: int, j: int| 0 <= i < j < rows.push(row).len() implies #[trigger] rows.push(
        row,
    )[i].row_id() != #[trigger] rows.push(row)[j].row_id() by {
        if j < rows.len() {
            assert(rows[i].row_id() != rows[j].row_id());
        } else {
            assert(rows[i].row_id() != row.row_id());
        }
    }
}

/// A bound of the numbers stays one when it grows, and when a row with a
/// smaller number, or of another instance, joins the rows.
pub proof fn bound_survives_push<R: Row>(rows: Seq<R>, row: R, instance: InstanceId, low: int, high: int)
    requires
        serials_below(rows, instance, low),
        low <= high,
        row.row_id().instance == instance ==> row.row_id().serial < high,
    ensures
        serials_below(rows, instance, high),
        serials_below(rows.push(row), instance, high),
{
    assert forall|i: int|
        0 <= i < rows.len() && (#[trigger] rows[i].row_id()).instance == instance implies rows[i].row_id().serial
        < high by {
        assert(rows[i].row_id().serial < low);
    }
    assert forall|i: int|
        0 <= i < rows.push(row).len() && (#[trigger] rows.push(row)[i].row_id()).instance
            == instance implies rows.push(row)[i].row_id().serial < high by {
        if i < rows.len() {
            assert(rows[i].row_id().serial < low);
        }
    }
}

/// Row sets with the same identifiers in the same places are distinct
/// together and numbered below the same bounds.
pub proof fn same_ids_same_order<R: Row>(before: Seq<R>, after: Seq<R>, instance: InstanceId, bound: int)
    requires
        same_ids(before, after),
    ensures
        distinct_ids(before) ==> distinct_ids(after),
        serials_below(before, instance, bound) ==> serials_below(after, instance, bound),
{
    if distinct_ids(before) {
        assert forall|i: int, j: int| 0 <= i < j < after.len() implies (#[trigger] after[i]).row_id() != (
        #[trigger] after[j]).row_id() by {
            assert(before[i].row_id() != before[j].row_id());
        }
    }
    if serials_below(before, instance, bound) {
        assert forall|i: int|
            0 <= i < after.len() && (#[trigger] after[i].row_id()).instance
                == instance implies after[i].row_id().serial < bound by {
            assert(before[i].row_id().serial < bound);
        }
    }
}

/// Removing one row changes no identifier.
pub proof fn struck_keeps_ids<R: Row>(rows: Seq<R>, id: Id, instance: InstanceId, now: Timestamp)
    requires
        has_id(rows, id),
    ensures
        same_ids(rows, with_struck(rows, id, instance, now)),
{
    let after = with_struck(rows, id, instance, now);
    let at = index_of(rows, id);
    rows[at].with_meta_replaces_meta(removed_meta(rows[at].row_meta(), instance, now));
    assert forall|i: int| 0 <= i < rows.len() implies (#[trigger] after[i]).row_id()
        == rows[i].row_id() by {}
}

/// The metadata of an entity that `instance` removes at `now`.
pub(crate) fn follow(meta: MetaInfo, instance: InstanceId, now: Timestamp) -> (next: MetaInfo)
    requires
        can_follow(meta),
    ensures
        next == removed_meta(meta, instance, now),
{
    let time = if now > meta.modified_at {
        now
    } else {
        meta.modified_at + 1
    };
    MetaInfo {
        instance_id: instance,
        created_at: meta.created_at,
        modified_at: time,
        deleted_at: Some(time),
    }
}

/// Removes the row at `position`.
pub(crate) fn strike_at<R: Row>(rows: &mut Vec<R>, position: usize, instance: InstanceId, now: Timestamp)
    requires
        position < old(rows).len(),
        can_follow(old(rows)@[position as int].row_meta()),
    ensures
        final(rows)@ == old(rows)@.update(
            position as int,
            struck(old(rows)@[position as int], instance, now),
        ),
{
    let meta = follow(rows[position].meta(), instance, now);
    rows[position].set_meta(meta);
}

/// The rows that are not removed, when one more row joins at the end.
pub proof fn live_rows_of_push<R: Row>(rows: Seq<R>, row: R)
    ensures
        live_rows(rows.push(row)) == if is_live(row) {
            live_rows(rows).push(row)
        } else {
            live_rows(rows)
        },
{
    rows.lemma_filter_push(row, |row: R| is_live(row));
}

/// Of no rows, none is left.
pub proof fn live_rows_of_none<R: Row>()
    ensures
        live_rows(Seq::<R>::empty()) == Seq::<R>::empty(),
{
    reveal(Seq::filter);
}

/// Where a row has the identifier, the row found by it has it.
pub proof fn row_with_has_id<R: Row>(rows: Seq<R>, id: Id)
    requires
        has_id(rows, id),
    ensures
        0 <= index_of(rows, id) < rows.len(),
        row_with(rows, id).row_id() == id,
        rows.contains(row_with(rows, id)),
{
}

/// The rows that a test keeps are rows of the set, each of them passes the
/// test, every row that passes is among them, and they keep what the set
/// had: distinct identifiers and the bound on its numbers.
pub proof fn kept_rows_are_sound<R: Row>(
    rows: Seq<R>,
    keep: spec_fn(R) -> bool,
    instance: InstanceId,
    bound: int,
)
    ensures
        rows.filter(keep).len() <= rows.len(),
        forall|i: int|
            0 <= i < rows.filter(keep).len() ==> keep(#[trigger] rows.filter(keep)[i])
                && rows.contains(rows.filter(keep)[i]),
        forall|i: int|
            0 <= i < rows.len() && keep(#[trigger] rows[i]) ==> rows.filter(keep).contains(rows[i]),
        distinct_ids(rows) ==> distinct_ids(rows.filter(keep)),
        serials_below(rows, instance, bound) ==> serials_below(rows.filter(keep), instance, bound),
    decreases rows.len(),
{
    if rows.len() == 0 {
        reveal(Seq::filter);
    } else {
        let front = rows.drop_last();
        let last = rows.last();
        let kept = front.filter(keep);
        let all = rows.filter(keep);
        assert(rows =~= front.push(last));
        kept_rows_are_sound(front, keep, instance, bound);
        front.lemma_filter_push(last, keep);
        assert forall|i: int| 0 <= i < all.len() implies keep(#[trigger] all[i]) && rows.contains(
            all[i],
        ) by {
            if i < kept.len() {
                assert(front.contains(kept[i]));
                let at = choose|at: int| 0 <= at < front.len() && front[at] == kept[i];
                assert(rows[at] == all[i]);
            } else {
                assert(rows[rows.len() - 1] == all[i]);
            }
        }
        assert forall|i: int| 0 <= i < rows.len() && keep(#[trigger] rows[i]) implies all.contains(
            rows[i],
        ) by {
            if i < front.len() {
                assert(keep(front[i]));
                assert(kept.contains(front[i]));
                let at = choose|at: int| 0 <= at < kept.len() && kept[at] == front[i];
                assert(all[at] == rows[i]);
            } else {
                assert(all[all.len() - 1] == rows[i]);
            }
        }
        if distinct_ids(rows) {
            assert forall|i: int, j: int| 0 <= i < j < front.len() implies (#[trigger] front[i]).row_id()
                != (#[trigger] front[j]).row_id() by {
                assert(rows[i].row_id() != rows[j].row_id());
            }
            assert forall|i: int, j: int| 0 <= i < j < all.len() implies (#[trigger] all[i]).row_id() != (
            #[trigger] all[j]).row_id() by {
                if j < kept.len() {
                    assert(kept[i].row_id() != kept[j].row_id());
                } else {
                    assert(front.contains(kept[i]));
                    let at = choose|at: int| 0 <= at < front.len() && front[at] == kept[i];
                    assert(rows[at].row_id() != rows[rows.len() - 1].row_id());
                }
            }
        }
        if serials_below(rows, instance, bound) {
            assert forall|i: int|
                0 <= i < front.len() && (#[trigger] front[i].row_id()).instance
                    == instance implies front[i].row_id().serial < bound by {
                assert(rows[i].row_id().serial < bound);
            }
            assert forall|i: int|
                0 <= i < all.len() && (#[trigger] all[i].row_id()).instance
                    == instance implies all[i].row_id().serial < bound by {
                if i < kept.len() {
                    assert(kept[i].row_id().serial < bound);
                } else {
                    assert(rows[rows.len() - 1].row_id().serial < bound);
                }
            }
        }
    }
}

/// The rows that are not removed are rows of the set, none of them is
/// removed, and they keep what the set had: distinct identifiers and the
/// bound on its numbers.
pub proof fn live_rows_are_sound<R: Row>(rows: Seq<R>, instance: InstanceId, bound: int)
    ensures
        live_rows(rows).len() <= rows.len(),
        forall|i: int|
            0 <= i < live_rows(rows).len() ==> is_live(#[trigger] live_rows(rows)[i])
                && rows.contains(live_rows(rows)[i]),
        distinct_ids(rows) ==> distinct_ids(live_rows(rows)),
        serials_below(rows, instance, bound) ==> serials_below(live_rows(rows), instance, bound),
{
    kept_rows_are_sound(rows, |row: R| is_live(row), instance, bound);
}

/// Dropping what is removed a second time drops nothing more.
pub proof fn live_rows_twice<R: Row>(rows: Seq<R>)
    ensures
        live_rows(live_rows(rows)) == live_rows(rows),
    decreases rows.len(),
{
    if rows.len() == 0 {
        assert(rows =~= Seq::<R>::empty());
        live_rows_of_none::<R>();
    } else {
        let front = rows.drop_last();
        let last = rows.last();
        assert(rows =~= front.push(last));
        live_rows_twice(front);
        live_rows_of_push(front, last);
        if is_live(last) {
            live_rows_of_push(live_rows(front), last);
        }
    }
}

/// Reconciliation, identifier by identifier: the result knows exactly the
/// identifiers that one side at least knows, each once, and holds under each
/// the row that `merged_row` names.
pub proof fn merged_rows_by_id<R: Row>(local: Seq<R>, remote: Seq<R>)
    requires
        distinct_ids(local),
        distinct_ids(remote),
    ensures
        distinct_ids(merged_rows(local, remote)),
        forall|id: Id| #[trigger]
            has_id(merged_rows(local, remote), id) <==> has_id(local, id) || has_id(remote, id),
        forall|id: Id| #[trigger]
            has_id(merged_rows(local, remote), id) ==> row_with(merged_rows(local, remote), id)
                == merged_row(local, remote, id),
{
    let head = Seq::new(local.len(), |i: int| reconciled(local, remote, i));
    let keep = |row: R| !has_id(local, row.row_id());
    let tail = remote.filter(keep);
    let merged = merged_rows(local, remote);
    assert(merged == head + tail);
    kept_rows_are_sound(remote, keep, 0, 0);
    assert forall|i: int| 0 <= i < local.len() implies (#[trigger] head[i]).row_id()
        == local[i].row_id() && head[i] == merged_row(local, remote, local[i].row_id()) by {
        let id = local[i].row_id();
        index_of_is_unique(local, i);
        if has_id(remote, id) {
            row_with_has_id(remote, id);
        }
    }
    assert forall|k: int| 0 <= k < tail.len() implies !has_id(local, (#[trigger] tail[k]).row_id())
        && has_id(remote, tail[k].row_id()) && tail[k] == merged_row(
        local,
        remote,
        tail[k].row_id(),
    ) by {
        assert(keep(tail[k]) && remote.contains(tail[k]));
        let at = choose|at: int| 0 <= at < remote.len() && remote[at] == tail[k];
        index_of_is_unique(remote, at);
    }
    assert forall|i: int, j: int| 0 <= i < j < merged.len() implies (#[trigger] merged[i]).row_id() != (
    #[trigger] merged[j]).row_id() by {
        if j < head.len() {
            assert(head[i].row_id() == local[i].row_id());
            assert(head[j].row_id() == local[j].row_id());
            assert(local[i].row_id() != local[j].row_id());
        } else if i < head.len() {
            assert(head[i].row_id() == local[i].row_id());
            assert(!has_id(local, tail[j - head.len()].row_id()));
        } else {
            assert(tail[i - head.len()].row_id() != tail[j - head.len()].row_id());
        }
    }
    assert forall|id: Id| #[trigger]
        has_id(merged, id) <==> has_id(local, id) || has_id(remote, id) by {
        if has_id(merged, id) {
            let k = choose|k: int| 0 <= k < merged.len() && #[trigger] merged[k].row_id() == id;
            if k < head.len() {
                assert(head[k].row_id() == local[k].row_id());
            } else {
                assert(has_id(remote, tail[k - head.len()].row_id()));
            }
        }
        if has_id(local, id) {
            let i = choose|i: int| 0 <= i < local.len() && #[trigger] local[i].row_id() == id;
            assert(head[i].row_id() == id);
            assert(merged[i].row_id() == id);
        } else if has_id(remote, id) {
            let at = choose|at: int| 0 <= at < remote.len() && #[trigger] remote[at].row_id() == id;
            assert(keep(remote[at]));
            assert(tail.contains(remote[at]));
            let k = choose|k: int| 0 <= k < tail.len() && tail[k] == remote[at];
            assert(merged[head.len() + k].row_id() == id);
        }
    }
    assert forall|id: Id| #[trigger] has_id(merged, id) implies row_with(merged, id) == merged_row(
        local,
        remote,
        id,
    ) by {
        let k = choose|k: int| 0 <= k < merged.len() && #[trigger] merged[k].row_id() == id;
        index_of_is_unique(merged, k);
        if k < head.len() {
            assert(head[k].row_id() == local[k].row_id());
        } else {
            assert(tail[k - head.len()] == merged_row(local, remote, tail[k - head.len()].row_id()));
        }
    }
}

/// A removal is a later version: where the metadata leaves room, what the
/// removal writes is marked as removed and newer than what was there.
pub proof fn removal_is_later(meta: MetaInfo, instance: InstanceId, now: Timestamp)
    requires
        can_follow(meta),
    ensures
        removed_meta(meta, instance, now).is_removed(),
        removed_meta(meta, instance, now).modified_at > meta.modified_at,
        removed_meta(meta, instance, now).modified_at >= now,
        removed_meta(meta, instance, now).is_newer_than(&meta),
{
}

/// Two row sets that hold the same rows under the same identifiers hold the
/// same rows as often: they differ in order at most.
pub proof fn same_map_same_rows<R: Row>(one: Seq<R>, other: Seq<R>)
    requires
        distinct_ids(one),
        distinct_ids(other),
        row_map(one) == row_map(other),
    ensures
        one.to_multiset() == other.to_multiset(),
{
    broadcast use vstd::seq_lib::to_multiset_contains;

    assert(one.no_duplicates()) by {
        assert forall|i: int, j: int| 0 <= i < one.len() && 0 <= j < one.len() && i != j implies one[i]
            != one[j] by {
            if i < j {
                assert(one[i].row_id() != one[j].row_id());
            } else {
                assert(one[j].row_id() != one[i].row_id());
            }
        }
    }
    assert(other.no_duplicates()) by {
        assert forall|i: int, j: int|
            0 <= i < other.len() && 0 <= j < other.len() && i != j implies other[i] != other[j] by {
            if i < j {
                assert(other[i].row_id() != other[j].row_id());
            } else {
                assert(other[j].row_id() != other[i].row_id());
            }
        }
    }
    one.lemma_multiset_has_no_duplicates();
    other.lemma_multiset_has_no_duplicates();
    assert forall|row: R| one.contains(row) <==> other.contains(row) by {
        if one.contains(row) {
            let i = choose|i: int| 0 <= i < one.len() && one[i] == row;
            index_of_is_unique(one, i);
            assert(row_map(one).dom().contains(row.row_id()));
            assert(row_map(other).dom().contains(row.row_id()));
            assert(row_map(other)[row.row_id()] == row);
            row_with_has_id(other, row.row_id());
        }
        if other.contains(row) {
            let i = choose|i: int| 0 <= i < other.len() && other[i] == row;
            index_of_is_unique(other, i);
            assert(row_map(other).dom().contains(row.row_id()));
            assert(row_map(one).dom().contains(row.row_id()));
            assert(row_map(one)[row.row_id()] == row);
            row_with_has_id(one, row.row_id());
        }
    }
    assert forall|row: R| one.to_multiset().count(row) == other.to_multiset().count(row) by {
        assert(one.contains(row) <==> other.contains(row));
        assert(one.contains(row) <==> one.to_multiset().count(row) > 0);
        assert(other.contains(row) <==> other.to_multiset().count(row) > 0);
        if one.contains(row) {
            assert(one.to_multiset().contains(row));
            assert(other.to_multiset().contains(row));
        }
    }
    assert(one.to_multiset() =~= other.to_multiset());
}

/// A test that every row passes keeps every row.
pub proof fn keeping_all<R: Row>(rows: Seq<R>, keep: spec_fn(R) -> bool)
    requires
        forall|i: int| 0 <= i < rows.len() ==> keep(#[trigger] rows[i]),
    ensures
        rows.filter(keep) == rows,
    decreases rows.len(),
{
    if rows.len() == 0 {
        reveal(Seq::filter);
    } else {
        let front = rows.drop_last();
        assert forall|i: int| 0 <= i < front.len() implies keep(#[trigger] front[i]) by {
            assert(front[i] == rows[i]);
        }
        keeping_all(front, keep);
        assert(rows =~= front.push(rows.last()));
        front.lemma_filter_push(rows.last(), keep);
        assert(keep(rows[rows.len() - 1]));
    }
}

/// Rows reconciled with no rows of one's own are the remote rows.
pub proof fn merged_with_none<R: Row>(remote: Seq<R>)
    ensures
        merged_rows(Seq::<R>::empty(), remote) == remote,
{
    let none = Seq::<R>::empty();
    keeping_all(remote, |row: R| !has_id(none, row.row_id()));
    assert(Seq::new(none.len(), |i: int| reconciled(none, remote, i)) =~= none);
    assert(none + remote =~= remote);
}

} // verus!
