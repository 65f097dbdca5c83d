//! The report on categories: the total of each category that has
//! transactions, income before outcome and smaller totals first.

use itertools::Itertools;
use vstd::prelude::*;

use crate::budget::Budget;
use crate::error::{Error, ErrorKind};
use crate::ledger::{
    chosen, sum, total, total_in_any_order, total_of_push, Ledger, Query, TimeWindow,
};
use crate::report::accounts::lacks_category;
use crate::report::Report;
use crate::rows::{has_live, row_with};
use crate::storage::{Category, CategoryType, Id, Transaction};

verus! {

/// One line of the report on categories.
#[derive(Debug, PartialEq, Eq)]
pub struct CategoryLine {
    pub category_id: Id,
    pub category_type: CategoryType,
    /// The name of the category.
    pub name: String,
    /// The sum of the amounts booked under the category.
    pub total: isize,
}

/// An identifier as a pair of numbers, ordered as pairs are.
pub open spec fn id_key(id: Id) -> (u64, u64) {
    (id.instance, id.serial)
}

/// Whether one pair of numbers comes before another.
pub open spec fn pair_below(one: (u64, u64), other: (u64, u64)) -> bool {
    one.0 < other.0 || (one.0 == other.0 && one.1 < other.1)
}

/// The place of a type of category in the report: income first.
pub open spec fn rank(category_type: CategoryType) -> u8 {
    match category_type {
        CategoryType::Income => 0,
        CategoryType::Outcome => 1,
    }
}

/// What the lines of the report are ordered by: the type of the category,
/// then the total.
pub open spec fn line_key(line: CategoryLine) -> (u8, isize) {
    (rank(line.category_type), line.total)
}

/// Whether one key of a line comes before another.
pub open spec fn key_below(one: (u8, isize), other: (u8, isize)) -> bool {
    one.0 < other.0 || (one.0 == other.0 && one.1 < other.1)
}

/// Whether one line comes before another in the report: by type, then by
/// total, then by the identifier of the category.
pub open spec fn precedes(one: CategoryLine, other: CategoryLine) -> bool {
    key_below(line_key(one), line_key(other)) || (line_key(one) == line_key(other) && pair_below(
        id_key(one.category_id),
        id_key(other.category_id),
    ))
}

/// Whether the transactions are in the order of their categories.
pub open spec fn in_category_order(transactions: Seq<Transaction>) -> bool {
    forall|i: int, j: int|
        0 <= i < j < transactions.len() ==> !pair_below(
            id_key((#[trigger] transactions[j]).category_id),
            id_key((#[trigger] transactions[i]).category_id),
        )
}

/// The groups one after another.
pub open spec fn joined(groups: Seq<Vec<Transaction>>) -> Seq<Transaction>
    decreases groups.len(),
{
    if groups.len() == 0 {
        Seq::empty()
    } else {
        joined(groups.drop_last()) + groups.last()@
    }
}

/// Whether the groups are the runs of one category each: none is empty,
/// the transactions of a group share a category, and neighbours do not.
pub open spec fn are_runs(groups: Seq<Vec<Transaction>>) -> bool {
    &&& forall|g: int| 0 <= g < groups.len() ==> (#[trigger] groups[g])@.len() > 0
    &&& forall|g: int, m: int|
        0 <= g < groups.len() && 0 <= m < groups[g]@.len() ==> (#[trigger] groups[g]@[m]).category_id
            == groups[g]@[0].category_id
    &&& forall|g: int|
        0 <= g && g + 1 < groups.len() ==> groups[g]@[0].category_id != (#[trigger] groups[g
            + 1])@[0].category_id
}

/// Whether `after` is `before` sorted by the key of its lines, lines with
/// equal keys in the order that they had: `origin` names for each place of
/// `after` the place in `before` that its line came from.
pub open spec fn stably_sorted(before: Seq<CategoryLine>, after: Seq<CategoryLine>, origin: Seq<int>) -> bool {
    &&& after.len() == before.len()
    &&& origin.len() == before.len()
    &&& forall|k: int|
        0 <= k < after.len() ==> 0 <= #[trigger] origin[k] < before.len() && after[k]
            == before[origin[k]]
    &&& forall|a: int, b: int|
        0 <= a < b < after.len() ==> key_below(line_key(after[a]), line_key(after[b])) || (line_key(
            after[a],
        ) == line_key(after[b]) && #[trigger] origin[a] < #[trigger] origin[b])
}

/// The category of a transaction as a pair of numbers.
pub fn category_key(transaction: &Transaction) -> (key: (u64, u64))
    ensures
        key == id_key(transaction.category_id),
{
    (transaction.category_id.instance, transaction.category_id.serial)
}

/// What a line is ordered by.
pub fn order_key(line: &CategoryLine) -> (key: (u8, isize))
    ensures
        key == line_key(*line),
{
    let rank: u8 = match line.category_type {
        CategoryType::Income => 0,
        CategoryType::Outcome => 1,
    };
    (rank, line.total)
}

/// `itertools::Itertools::sorted_unstable_by_key`, by the category of each
/// transaction.
///
/// The result holds the same transactions as often, and none comes before
/// one of a category that comes before its own. The order of transactions of
/// one category is left open.
#[verifier::external_body]
fn sort_by_category(transactions: Vec<Transaction>) -> (sorted: Vec<Transaction>)
    ensures
        sorted@.to_multiset() == transactions@.to_multiset(),
        in_category_order(sorted@),
{
    transactions.into_iter().sorted_unstable_by_key(category_key).collect()
}

/// `itertools::Itertools::group_by`, by the category of each transaction.
///
/// The result holds the transactions in their order, cut into runs: a run
/// ends where the next transaction has another category.
#[verifier::external_body]
fn group_by_category(transactions: Vec<Transaction>) -> (groups: Vec<Vec<Transaction>>)
    ensures
        joined(groups@) == transactions@,
        are_runs(groups@),
{
    let runs = transactions.into_iter().group_by(category_key);
    (&runs).into_iter().map(|(_, run)| run.collect()).collect()
}

/// `itertools::Itertools::sorted_by_key`, by the type and the total of each line.
///
/// The result holds the same lines as often, in the order of their keys,
/// and lines with equal keys in the order that they had.
#[verifier::external_body]
fn sort_by_type_and_total(lines: Vec<CategoryLine>) -> (sorted: Vec<CategoryLine>)
    ensures
        sorted@.to_multiset() == lines@.to_multiset(),
        exists|origin: Seq<int>| stably_sorted(lines@, sorted@, origin),
{
    lines.into_iter().sorted_by_key(order_key).collect()
}

/// The total over two sequences one after the other is the sum of their totals.
pub proof fn total_of_both(one: Seq<Transaction>, other: Seq<Transaction>, query: Query)
    ensures
        total(one + other, query) == total(one, query) + total(other, query),
    decreases other.len(),
{
    if other.len() == 0 {
        assert(one + other =~= one);
    } else {
        total_of_both(one, other.drop_last(), query);
        assert((one + other).drop_last() =~= one + other.drop_last());
    }
}

/// Transactions that a query does not choose add nothing to its total.
pub proof fn total_of_strangers(transactions: Seq<Transaction>, query: Query)
    requires
        forall|i: int| 0 <= i < transactions.len() ==> !query.admits(#[trigger] transactions[i]),
    ensures
        total(transactions, query) == 0,
    decreases transactions.len(),
{
    if transactions.len() > 0 {
        let front = transactions.drop_last();
        assert forall|i: int| 0 <= i < front.len() implies !query.admits(#[trigger] front[i]) by {
            assert(front[i] == transactions[i]);
        }
        total_of_strangers(front, query);
        assert(!query.admits(transactions[transactions.len() - 1]));
    }
}

/// Where the transactions of a group stand in the groups joined: one after
/// another, after what the groups before it hold.
pub proof fn joined_holds(groups: Seq<Vec<Transaction>>, g: int, m: int) -> (at: int)
    requires
        0 <= g < groups.len(),
        0 <= m < groups[g]@.len(),
    ensures
        0 <= at < joined(groups).len(),
        joined(groups)[at] == groups[g]@[m],
        at < joined(groups.take(g + 1)).len(),
        at >= joined(groups.take(g)).len(),
    decreases groups.len(),
{
    let front = groups.drop_last();
    if g == groups.len() - 1 {
        assert(groups.take(g + 1) =~= groups);
        assert(groups.take(g) =~= front);
        joined(front).len() + m
    } else {
        let at = joined_holds(front, g, m);
        assert(front.take(g + 1) =~= groups.take(g + 1));
        assert(front.take(g) =~= groups.take(g));
        at
    }
}

/// Every transaction of the groups joined stands in one of the groups.
pub proof fn joined_comes_from(groups: Seq<Vec<Transaction>>, at: int) -> (place: (int, int))
    requires
        0 <= at < joined(groups).len(),
    ensures
        0 <= place.0 < groups.len(),
        0 <= place.1 < groups[place.0]@.len(),
        groups[place.0]@[place.1] == joined(groups)[at],
    decreases groups.len(),
{
    let front = groups.drop_last();
    if at < joined(front).len() {
        joined_comes_from(front, at)
    } else {
        (groups.len() - 1, at - joined(front).len())
    }
}

/// The groups joined get longer with every group.
pub proof fn joined_grows(groups: Seq<Vec<Transaction>>, g: int, h: int)
    requires
        0 <= g <= h <= groups.len(),
    ensures
        joined(groups.take(g)).len() <= joined(groups.take(h)).len(),
    decreases h - g,
{
    if g < h {
        joined_grows(groups, g, h - 1);
        assert(groups.take(h).drop_last() =~= groups.take(h - 1));
    }
}

/// Where no transaction of any group is chosen by a query, the total of the
/// query over the groups joined is zero.
pub proof fn total_of_strange_groups(groups: Seq<Vec<Transaction>>, query: Query)
    requires
        forall|g: int, m: int|
            0 <= g < groups.len() && 0 <= m < groups[g]@.len() ==> !query.admits(
                #[trigger] groups[g]@[m],
            ),
    ensures
        total(joined(groups), query) == 0,
    decreases groups.len(),
{
    if groups.len() > 0 {
        let front = groups.drop_last();
        let last = groups.last()@;
        assert forall|g: int, m: int| 0 <= g < front.len() && 0 <= m < front[g]@.len() implies !query.admits(
            #[trigger] front[g]@[m],
        ) by {
            assert(front[g] == groups[g]);
        }
        total_of_strange_groups(front, query);
        assert forall|m: int| 0 <= m < last.len() implies !query.admits(#[trigger] last[m]) by {
            assert(last[m] == groups[groups.len() - 1]@[m]);
        }
        total_of_strangers(last, query);
        total_of_both(joined(front), last, query);
    }
}

/// Where a query chooses transactions of one group only, its total over the
/// groups joined is its total over that group.
pub proof fn total_of_one_group(groups: Seq<Vec<Transaction>>, own: int, query: Query)
    requires
        0 <= own < groups.len(),
        forall|g: int, m: int|
            0 <= g < groups.len() && g != own && 0 <= m < groups[g]@.len() ==> !query.admits(
                #[trigger] groups[g]@[m],
            ),
    ensures
        total(joined(groups), query) == total(groups[own]@, query),
    decreases groups.len(),
{
    let front = groups.drop_last();
    let last = groups.last()@;
    total_of_both(joined(front), last, query);
    if own == groups.len() - 1 {
        assert forall|g: int, m: int| 0 <= g < front.len() && 0 <= m < front[g]@.len() implies !query.admits(
            #[trigger] front[g]@[m],
        ) by {
            assert(front[g] == groups[g]);
        }
        total_of_strange_groups(front, query);
    } else {
        assert forall|g: int, m: int|
            0 <= g < front.len() && g != own && 0 <= m < front[g]@.len() implies !query.admits(
            #[trigger] front[g]@[m],
        ) by {
            assert(front[g] == groups[g]);
        }
        total_of_one_group(front, own, query);
        assert forall|m: int| 0 <= m < last.len() implies !query.admits(#[trigger] last[m]) by {
            assert(last[m] == groups[groups.len() - 1]@[m]);
        }
        total_of_strangers(last, query);
    }
}

/// The runs of transactions that are in the order of their categories are
/// in the order of their categories themselves, and no two of them share one.
pub proof fn runs_ascend(groups: Seq<Vec<Transaction>>)
    requires
        are_runs(groups),
        in_category_order(joined(groups)),
    ensures
        forall|g: int, h: int|
            0 <= g < h < groups.len() ==> pair_below(
                id_key((#[trigger] groups[g])@[0].category_id),
                id_key((#[trigger] groups[h])@[0].category_id),
            ),
{
    let all = joined(groups);
    assert forall|g: int, h: int| 0 <= g < h < groups.len() implies !pair_below(
        id_key((#[trigger] groups[h])@[0].category_id),
        id_key((#[trigger] groups[g])@[0].category_id),
    ) by {
        let low = joined_holds(groups, g, 0);
        let high = joined_holds(groups, h, 0);
        joined_grows(groups, g + 1, h);
        assert(low < high);
        assert(!pair_below(id_key(all[high].category_id), id_key(all[low].category_id)));
    }
    assert forall|g: int, h: int| 0 <= g < h < groups.len() implies pair_below(
        id_key((#[trigger] groups[g])@[0].category_id),
        id_key((#[trigger] groups[h])@[0].category_id),
    ) by {
        let first = groups[g]@[0].category_id;
        let next = groups[g + 1]@[0].category_id;
        let far = groups[h]@[0].category_id;
        assert(first != next);
        assert(!pair_below(id_key(far), id_key(first)));
        if g + 1 < h {
            assert(!pair_below(id_key(next), id_key(first)));
            assert(!pair_below(id_key(groups[h]@[0].category_id), id_key(groups[g + 1]@[0].category_id)));
        }
    }
}

/// The total of one category over the transactions that a query without a
/// category chooses is the total of the query narrowed to the category.
pub proof fn total_of_chosen(transactions: Seq<Transaction>, query: Query, category: Id)
    requires
        query.category is None,
    ensures
        total(chosen(transactions, query), Query::of_category(category)) == total(
            transactions,
            Query { category: Some(category), ..query },
        ),
    decreases transactions.len(),
{
    if transactions.len() == 0 {
        reveal(Seq::filter);
    } else {
        let front = transactions.drop_last();
        let last = transactions.last();
        assert(transactions =~= front.push(last));
        total_of_chosen(front, query, category);
        front.lemma_filter_push(last, |transaction: Transaction| query.admits(transaction));
        if query.admits(last) {
            total_of_push(chosen(front, query), last, Query::of_category(category));
        }
    }
}

/// Every transaction in the window of a report.
pub open spec fn window_query(window: Option<TimeWindow>) -> Query {
    Query { account: None, category: None, window }
}

/// The transactions of a category in the window of a report.
pub open spec fn category_query(category: Id, window: Option<TimeWindow>) -> Query {
    Query { account: None, category: Some(category), window }
}

/// Whether some of the transactions is booked under the category.
pub open spec fn is_booked(transactions: Seq<Transaction>, category: Id) -> bool {
    exists|k: int|
        0 <= k < transactions.len() && (#[trigger] transactions[k]).category_id == category
}

/// The sum of the amounts booked under a category in the window of a report.
pub open spec fn category_total(ledger: Ledger, window: Option<TimeWindow>, category: Id) -> int {
    total(ledger.transactions, category_query(category, window))
}

/// Whether the total of a category fits the type of amounts.
pub open spec fn total_fits(ledger: Ledger, window: Option<TimeWindow>, category: Id) -> bool {
    isize::MIN <= category_total(ledger, window, category) <= isize::MAX
}

/// Whether the total of the category of some transaction does not fit the
/// type of amounts.
pub open spec fn overflows(ledger: Ledger, window: Option<TimeWindow>, transactions: Seq<Transaction>) -> bool {
    exists|k: int|
        0 <= k < transactions.len() && !total_fits(
            ledger,
            window,
            (#[trigger] transactions[k]).category_id,
        )
}

/// The line of a category in the report.
pub open spec fn category_line(ledger: Ledger, window: Option<TimeWindow>, category: Id) -> CategoryLine {
    CategoryLine {
        category_id: category,
        category_type: row_with(ledger.categories, category).category_type,
        name: row_with(ledger.categories, category).name,
        total: category_total(ledger, window, category) as isize,
    }
}

/// What the report on categories has to be.
///
/// It has a line for each category under which a transaction in the window
/// is booked, and for no other; each line holds the type, the name and the
/// total of its category; and the lines are in order: by type, then by
/// total, then by the identifier of the category. It fails with
/// `EntityNotFound` where such a category does not exist or is removed, and
/// otherwise with `ValueOutOfRange` where a total does not fit the type of
/// amounts.
pub open spec fn categories_reported(
    ledger: Ledger,
    window: Option<TimeWindow>,
    result: Result<Vec<CategoryLine>, Error>,
) -> bool {
    let booked = chosen(ledger.transactions, window_query(window));
    match result {
        Ok(lines) => {
            &&& !lacks_category(ledger, booked)
            &&& !overflows(ledger, window, booked)
            &&& forall|i: int|
                0 <= i < lines@.len() ==> is_booked(booked, (#[trigger] lines@[i]).category_id)
                    && lines@[i] == category_line(ledger, window, lines@[i].category_id)
            &&& forall|k: int|
                0 <= k < booked.len() ==> exists|i: int|
                    0 <= i < lines@.len() && (#[trigger] lines@[i]).category_id == (
                    #[trigger] booked[k]).category_id
            &&& forall|i: int, j: int|
                0 <= i < j < lines@.len() ==> precedes(#[trigger] lines@[i], #[trigger] lines@[j])
        },
        Err(error) => if lacks_category(ledger, booked) {
            error.kind == ErrorKind::EntityNotFound
        } else {
            error.kind == ErrorKind::ValueOutOfRange && overflows(ledger, window, booked)
        },
    }
}

/// The category of a group: that of its first transaction.
pub open spec fn category_of(group: Vec<Transaction>) -> Id {
    group@[0].category_id
}

/// Whether the groups are what the transactions in the window of a report
/// make when they are sorted by category and cut into runs: the groups are
/// in the order of their categories, each holds every transaction of its
/// category, and each transaction is in one of them.
pub open spec fn groups_cover(
    ledger: Ledger,
    window: Option<TimeWindow>,
    groups: Seq<Vec<Transaction>>,
) -> bool {
    let booked = chosen(ledger.transactions, window_query(window));
    &&& forall|g: int, h: int|
        0 <= g < h < groups.len() ==> pair_below(
            id_key(category_of(#[trigger] groups[g])),
            id_key(category_of(#[trigger] groups[h])),
        )
    &&& forall|g: int|
        0 <= g < groups.len() ==> is_booked(booked, category_of(#[trigger] groups[g])) && total(
            groups[g]@,
            Query::of_category(category_of(groups[g])),
        ) == category_total(ledger, window, category_of(groups[g]))
    &&& forall|k: int|
        0 <= k < booked.len() ==> exists|g: int|
            0 <= g < groups.len() && category_of(#[trigger] groups[g]) == (
            #[trigger] booked[k]).category_id
}

/// Sorting by category and cutting into runs gives groups that cover the
/// transactions.
pub proof fn runs_cover(
    ledger: Ledger,
    window: Option<TimeWindow>,
    sorted: Seq<Transaction>,
    groups: Seq<Vec<Transaction>>,
)
    requires
        sorted.to_multiset() == chosen(ledger.transactions, window_query(window)).to_multiset(),
        in_category_order(sorted),
        joined(groups) == sorted,
        are_runs(groups),
    ensures
        groups_cover(ledger, window, groups),
{
    broadcast use vstd::seq_lib::to_multiset_contains;

    let query = window_query(window);
    let booked = chosen(ledger.transactions, query);
    runs_ascend(groups);
    assert forall|g: int|
        0 <= g < groups.len() implies is_booked(booked, category_of(#[trigger] groups[g])) && total(
        groups[g]@,
        Query::of_category(category_of(groups[g])),
    ) == category_total(ledger, window, category_of(groups[g])) by {
        let category = category_of(groups[g]);
        let narrow = Query::of_category(category);
        let at = joined_holds(groups, g, 0);
        assert(sorted.contains(sorted[at]));
        assert(booked.to_multiset().count(sorted[at]) > 0);
        assert(booked.contains(sorted[at]));
        let k = choose|k: int| 0 <= k < booked.len() && booked[k] == sorted[at];
        assert(booked[k].category_id == category);
        assert forall|h: int, m: int|
            0 <= h < groups.len() && h != g && 0 <= m < groups[h]@.len() implies !narrow.admits(
            #[trigger] groups[h]@[m],
        ) by {
            assert(groups[h]@[m].category_id == category_of(groups[h]));
            if h < g {
                assert(pair_below(id_key(category_of(groups[h])), id_key(category_of(groups[g]))));
            } else {
                assert(pair_below(id_key(category_of(groups[g])), id_key(category_of(groups[h]))));
            }
        }
        total_of_one_group(groups, g, narrow);
        total_in_any_order(sorted, booked, narrow);
        total_of_chosen(ledger.transactions, query, category);
        assert(Query { category: Some(category), ..query } == category_query(category, window));
    }
    assert forall|k: int| 0 <= k < booked.len() implies exists|g: int|
        0 <= g < groups.len() && category_of(#[trigger] groups[g]) == (
        #[trigger] booked[k]).category_id by {
        assert(booked.contains(booked[k]));
        assert(sorted.to_multiset().count(booked[k]) > 0);
        assert(sorted.contains(booked[k]));
        let at = choose|at: int| 0 <= at < sorted.len() && sorted[at] == booked[k];
        let place = joined_comes_from(groups, at);
        assert(groups[place.0]@[place.1].category_id == category_of(groups[place.0]));
    }
}

/// The line of a group: the line of its category, with the total of the
/// group as its total.
pub open spec fn group_line(ledger: Ledger, group: Vec<Transaction>) -> CategoryLine {
    let category = category_of(group);
    CategoryLine {
        category_id: category,
        category_type: row_with(ledger.categories, category).category_type,
        name: row_with(ledger.categories, category).name,
        total: total(group@, Query::of_category(category)) as isize,
    }
}

/// Whether the category of some group does not exist or is removed.
pub open spec fn group_lacks_category(ledger: Ledger, groups: Seq<Vec<Transaction>>) -> bool {
    exists|g: int|
        0 <= g < groups.len() && !has_live(ledger.categories, category_of(#[trigger] groups[g]))
}

/// Whether the total of a group fits the type of amounts.
pub open spec fn group_fits(group: Vec<Transaction>) -> bool {
    isize::MIN <= total(group@, Query::of_category(category_of(group))) <= isize::MAX
}

/// What the lines of the groups have to be: the line of each group, in
/// their order; the error `EntityNotFound` where the category of a group
/// does not exist or is removed; and otherwise the error `ValueOutOfRange`
/// where the total of a group does not fit the type of amounts.
pub open spec fn groups_lined(
    ledger: Ledger,
    groups: Seq<Vec<Transaction>>,
    result: Result<Vec<CategoryLine>, Error>,
) -> bool {
    match result {
        Ok(lines) => {
            &&& lines@.len() == groups.len()
            &&& forall|g: int|
                0 <= g < groups.len() ==> has_live(
                    ledger.categories,
                    category_of(#[trigger] groups[g]),
                ) && group_fits(groups[g]) && lines@[g] == group_line(ledger, groups[g])
        },
        Err(error) => if group_lacks_category(ledger, groups) {
            error.kind == ErrorKind::EntityNotFound
        } else {
            error.kind == ErrorKind::ValueOutOfRange && exists|g: int|
                0 <= g < groups.len() && !group_fits(#[trigger] groups[g])
        },
    }
}

/// Sorting the lines of groups that cover the transactions gives the report.
pub proof fn sorted_lines_are_the_report(
    ledger: Ledger,
    window: Option<TimeWindow>,
    groups: Seq<Vec<Transaction>>,
    lines: Vec<CategoryLine>,
    sorted: Vec<CategoryLine>,
)
    requires
        groups_cover(ledger, window, groups),
        groups_lined(ledger, groups, Ok(lines)),
        sorted@.to_multiset() == lines@.to_multiset(),
        exists|origin: Seq<int>| stably_sorted(lines@, sorted@, origin),
    ensures
        categories_reported(ledger, window, Ok(sorted)),
{
    broadcast use vstd::seq_lib::to_multiset_contains;

    let booked = chosen(ledger.transactions, window_query(window));
    let origin = choose|origin: Seq<int>| stably_sorted(lines@, sorted@, origin);
    assert forall|g: int| 0 <= g < groups.len() implies (#[trigger] lines@[g]).category_id
        == category_of(groups[g]) && lines@[g] == category_line(
        ledger,
        window,
        category_of(groups[g]),
    ) && total_fits(ledger, window, category_of(groups[g])) by {
        let group = groups[g];
        assert(lines@[g] == group_line(ledger, group));
        assert(group_fits(group));
    }
    assert forall|k: int| 0 <= k < booked.len() implies has_live(
        ledger.categories,
        (#[trigger] booked[k]).category_id,
    ) && total_fits(ledger, window, booked[k].category_id) && exists|i: int|
        0 <= i < sorted@.len() && (#[trigger] sorted@[i]).category_id == booked[k].category_id by {
        let g = choose|g: int|
            0 <= g < groups.len() && category_of(#[trigger] groups[g]) == booked[k].category_id;
        assert(lines@[g].category_id == booked[k].category_id);
        assert(lines@.contains(lines@[g]));
        assert(sorted@.to_multiset().count(lines@[g]) > 0);
        assert(sorted@.contains(lines@[g]));
        let i = choose|i: int| 0 <= i < sorted@.len() && sorted@[i] == lines@[g];
        assert(sorted@[i].category_id == booked[k].category_id);
    }
    assert forall|i: int| 0 <= i < sorted@.len() implies is_booked(
        booked,
        (#[trigger] sorted@[i]).category_id,
    ) && sorted@[i] == category_line(ledger, window, sorted@[i].category_id) by {
        let g = origin[i];
        assert(sorted@[i] == lines@[g]);
        assert(lines@[g].category_id == category_of(groups[g]));
    }
    assert forall|i: int, j: int| 0 <= i < j < sorted@.len() implies precedes(
        #[trigger] sorted@[i],
        #[trigger] sorted@[j],
    ) by {
        let g = origin[i];
        let h = origin[j];
        assert(sorted@[i] == lines@[g]);
        assert(sorted@[j] == lines@[h]);
        if !key_below(line_key(sorted@[i]), line_key(sorted@[j])) {
            assert(g < h);
            assert(lines@[g].category_id == category_of(groups[g]));
            assert(lines@[h].category_id == category_of(groups[h]));
            assert(pair_below(id_key(category_of(groups[g])), id_key(category_of(groups[h]))));
        }
    }
}

/// Where the lines of groups that cover the transactions fail, the report fails alike.
pub proof fn failed_lines_fail_the_report(
    ledger: Ledger,
    window: Option<TimeWindow>,
    groups: Seq<Vec<Transaction>>,
    error: Error,
)
    requires
        groups_cover(ledger, window, groups),
        groups_lined(ledger, groups, Err(error)),
    ensures
        categories_reported(ledger, window, Err(error)),
{
    let booked = chosen(ledger.transactions, window_query(window));
    if group_lacks_category(ledger, groups) {
        let g = choose|g: int|
            0 <= g < groups.len() && !has_live(ledger.categories, category_of(#[trigger] groups[g]));
        assert(is_booked(booked, category_of(groups[g])));
        let k = choose|k: int|
            0 <= k < booked.len() && (#[trigger] booked[k]).category_id == category_of(groups[g]);
        assert(!has_live(ledger.categories, booked[k].category_id));
    } else {
        if lacks_category(ledger, booked) {
            let k = choose|k: int|
                0 <= k < booked.len() && !has_live(
                    ledger.categories,
                    (#[trigger] booked[k]).category_id,
                );
            let g = choose|g: int|
                0 <= g < groups.len() && category_of(#[trigger] groups[g]) == booked[k].category_id;
            assert(!has_live(ledger.categories, category_of(groups[g])));
        }
        let g = choose|g: int| 0 <= g < groups.len() && !group_fits(#[trigger] groups[g]);
        assert(is_booked(booked, category_of(groups[g])));
        let k = choose|k: int|
            0 <= k < booked.len() && (#[trigger] booked[k]).category_id == category_of(groups[g]);
        assert(!total_fits(ledger, window, booked[k].category_id));
    }
}

impl Report {
    /// The lines of the groups, each with the type and the name of its
    /// category and the sum of its amounts.
    fn group_lines(budget: &Budget, groups: &Vec<Vec<Transaction>>) -> (result: Result<
        Vec<CategoryLine>,
        Error,
    >)
        requires
            budget.wf(),
            are_runs(groups@),
        ensures
            groups_lined(budget@, groups@, result),
    {
        let mut categories: Vec<Category> = Vec::new();
        let mut g: usize = 0;
        while g < groups.len()
            invariant
                budget.wf(),
                are_runs(groups@),
                g <= groups.len(),
                categories@.len() == g,
                forall|k: int|
                    0 <= k < g ==> has_live(budget@.categories, category_of(#[trigger] groups@[k]))
                        && categories@[k] == row_with(budget@.categories, category_of(groups@[k])),
            decreases groups.len() - g,
        {
            let group = &groups[g];
            assert(group@.len() > 0);
            match budget.category(group[0].category_id) {
                Ok(category) => categories.push(category),
                Err(error) => {
                    proof {
                        let orphan = groups@[g as int];
                        assert(!has_live(budget@.categories, category_of(orphan)));
                    }
                    return Err(error);
                },
            }
            g += 1;
        }
        let mut lines: Vec<CategoryLine> = Vec::new();
        let mut g: usize = 0;
        while g < groups.len()
            invariant
                are_runs(groups@),
                g <= groups.len(),
                categories@.len() == groups.len(),
                lines@.len() == g,
                forall|k: int|
                    0 <= k < groups.len() ==> has_live(
                        budget@.categories,
                        category_of(#[trigger] groups@[k]),
                    ) && categories@[k] == row_with(budget@.categories, category_of(groups@[k])),
                forall|k: int|
                    0 <= k < g ==> group_fits(#[trigger] groups@[k]) && lines@[k] == group_line(
                        budget@,
                        groups@[k],
                    ),
            decreases groups.len() - g,
        {
            let group = &groups[g];
            assert(group@.len() > 0);
            let category_id = group[0].category_id;
            let query = Query { account: None, category: Some(category_id), window: None };
            let total = match sum(group, &query) {
                Some(total) => total,
                None => {
                    proof {
                        let heavy = groups@[g as int];
                        assert(!group_fits(heavy));
                        assert(!group_lacks_category(budget@, groups@));
                    }
                    return Err(Error::new(ErrorKind::ValueOutOfRange));
                },
            };
            let category = &categories[g];
            lines.push(
                CategoryLine {
                    category_id,
                    category_type: category.category_type,
                    name: category.name.clone(),
                    total,
                },
            );
            g += 1;
        }
        Ok(lines)
    }

    /// The report on categories: the total of every category under which a
    /// transaction in the window is booked.
    pub fn build_categories_report(budget: &Budget, window: Option<TimeWindow>) -> (result: Result<
        Vec<CategoryLine>,
        Error,
    >)
        requires
            budget.wf(),
        ensures
            categories_reported(budget@, window, result),
    {
        let query = Query { account: None, category: None, window };
        let transactions = budget.select(&query);
        if transactions.len() == 0 {
            return Ok(Vec::new());
        }
        let sorted = sort_by_category(transactions);
        let groups = group_by_category(sorted);
        proof {
            runs_cover(budget@, window, sorted@, groups@);
        }
        match Self::group_lines(budget, &groups) {
            Ok(lines) => {
                let ordered = sort_by_type_and_total(lines);
                proof {
                    sorted_lines_are_the_report(budget@, window, groups@, lines, ordered);
                }
                Ok(ordered)
            },
            Err(error) => {
                proof {
                    failed_lines_fail_the_report(budget@, window, groups@, error);
                }
                Err(error)
            },
        }
    }
}

} // verus!
