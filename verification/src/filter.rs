//! Filters as stored rows, and the filter tree built from them.

use vstd::prelude::*;
use crate::error::{Error, FilterNoParentsDetectedItem};
use crate::model::{Filter, FilterTarget, FilterValueRange};
use vstd::multiset::Multiset;

verus! {

broadcast use vstd::multiset::group_multiset_axioms;

/// A stored filter row.
pub struct FilterRow {
    /// Primary key.
    pub rowid: i32,
    /// Id of the parent filter (only group filters are parents); `None` at the top.
    pub parent_id: Option<i32>,
    /// Position among the parent's children; the top filter has 0.
    pub in_parent_order: i32,
    /// Id of the top filter of this filter's tree.
    pub root_id: i32,
    pub target: FilterTarget,
    pub str_value: String,
    pub str_value2: String,
    pub range: FilterValueRange,
}

/// Multiset of the row ids of `rows`.
pub open spec fn row_ids(rows: Seq<FilterRow>) -> Multiset<i32>
    decreases rows.len(),
{
    if rows.len() == 0 {
        Multiset::empty()
    } else {
        row_ids(rows.drop_last()).insert(rows.last().rowid)
    }
}

/// Multiset of the ids of every filter in a forest, at any depth.
pub open spec fn forest_ids(f: Seq<Filter>) -> Multiset<i32>
    decreases f,
{
    if f.len() == 0 {
        Multiset::empty()
    } else {
        forest_ids(f.drop_last()).insert(f.last().rowid).add(forest_ids(f.last().children@))
    }
}

/// Rows of `rows` whose parent is `parent`, in order.
pub open spec fn children_rows(rows: Seq<FilterRow>, parent: i32) -> Seq<FilterRow>
    decreases rows.len(),
{
    if rows.len() == 0 {
        seq![]
    } else if rows.last().parent_id == Some(parent) {
        children_rows(rows.drop_last(), parent).push(rows.last())
    } else {
        children_rows(rows.drop_last(), parent)
    }
}

/// Rows of `rows` whose parent is not `parent`, in order.
pub open spec fn other_rows(rows: Seq<FilterRow>, parent: i32) -> Seq<FilterRow>
    decreases rows.len(),
{
    if rows.len() == 0 {
        seq![]
    } else if rows.last().parent_id == Some(parent) {
        other_rows(rows.drop_last(), parent)
    } else {
        other_rows(rows.drop_last(), parent).push(rows.last())
    }
}

/// Whether filter `f` was made from row `r`, a child of `parent`.
pub open spec fn made_from(f: Filter, r: FilterRow, parent: i32) -> bool {
    &&& r.parent_id == Some(parent)
    &&& f.rowid == r.rowid
    &&& f.target == r.target
    &&& f.str_value@ == r.str_value@
    &&& f.str_value2@ == r.str_value2@
    &&& f.range == r.range
}

/// Every filter of the forest, at any depth, was made from a row of `rows`
/// whose parent is the filter above it (`parent` for the top level).
pub open spec fn placed(f: Seq<Filter>, parent: i32, rows: Seq<FilterRow>) -> bool
    decreases f,
{
    if f.len() == 0 {
        true
    } else {
        &&& placed(f.drop_last(), parent, rows)
        &&& exists|j: int| 0 <= j < rows.len() && made_from(f.last(), #[trigger] rows[j], parent)
        &&& placed(f.last().children@, f.last().rowid, rows)
    }
}

/// No row of `rest` hangs below `parent` or below any filter of the forest.
pub open spec fn none_left_below(rest: Seq<FilterRow>, parent: i32, f: Seq<Filter>) -> bool {
    forall|i: int|
        0 <= i < rest.len() ==> {
            &&& (#[trigger] rest[i]).parent_id != Some(parent)
            &&& (rest[i].parent_id matches Some(id) ==> forest_ids(f).count(id) == 0)
        }
}

/// Every row of `sub` is a row of `rows`.
pub open spec fn rows_within(sub: Seq<FilterRow>, rows: Seq<FilterRow>) -> bool {
    forall|i: int| 0 <= i < sub.len() ==> rows.contains(#[trigger] sub[i])
}

proof fn lemma_row_ids_add(a: Seq<FilterRow>, b: Seq<FilterRow>)
    ensures
        row_ids(a + b) =~= row_ids(a).add(row_ids(b)),
    decreases b.len(),
{
    if b.len() > 0 {
        lemma_row_ids_add(a, b.drop_last());
        assert((a + b).drop_last() =~= a + b.drop_last());
    } else {
        assert(a + b =~= a);
    }
}

proof fn lemma_row_ids_len(a: Seq<FilterRow>)
    ensures
        row_ids(a).len() == a.len(),
    decreases a.len(),
{
    if a.len() > 0 {
        lemma_row_ids_len(a.drop_last());
    }
}

proof fn lemma_placed_within(f: Seq<Filter>, parent: i32, sub: Seq<FilterRow>, rows: Seq<FilterRow>)
    requires
        placed(f, parent, sub),
        rows_within(sub, rows),
    ensures
        placed(f, parent, rows),
    decreases f,
{
    if f.len() > 0 {
        lemma_placed_within(f.drop_last(), parent, sub, rows);
        lemma_placed_within(f.last().children@, f.last().rowid, sub, rows);
        let j = choose|j: int| 0 <= j < sub.len() && made_from(f.last(), #[trigger] sub[j], parent);
        assert(rows.contains(sub[j]));
        let k = choose|k: int| 0 <= k < rows.len() && rows[k] == sub[j];
        assert(made_from(f.last(), rows[k], parent));
    }
}

proof fn lemma_split_step(rows: Seq<FilterRow>, i: int)
    requires
        0 <= i < rows.len(),
    ensures
        rows.take(i + 1).drop_last() == rows.take(i),
        rows.take(i + 1).last() == rows[i],
{
    assert(rows.take(i + 1).drop_last() =~= rows.take(i));
}

proof fn lemma_split_ids(rows: Seq<FilterRow>, parent: i32)
    ensures
        row_ids(rows) =~= row_ids(children_rows(rows, parent)).add(row_ids(other_rows(rows, parent))),
        rows_within(children_rows(rows, parent), rows),
        rows_within(other_rows(rows, parent), rows),
        forall|i: int| 0 <= i < children_rows(rows, parent).len()
            ==> (#[trigger] children_rows(rows, parent)[i]).parent_id == Some(parent),
        forall|i: int| 0 <= i < other_rows(rows, parent).len()
            ==> (#[trigger] other_rows(rows, parent)[i]).parent_id != Some(parent),
    decreases rows.len(),
{
    if rows.len() > 0 {
        let d = rows.drop_last();
        lemma_split_ids(d, parent);
        let c = children_rows(rows, parent);
        let o = other_rows(rows, parent);
        let cd = children_rows(d, parent);
        let od = other_rows(d, parent);
        if rows.last().parent_id == Some(parent) {
            assert(c.drop_last() =~= cd);
            assert(o =~= od);
            assert(row_ids(c) =~= row_ids(cd).insert(rows.last().rowid));
        } else {
            assert(o.drop_last() =~= od);
            assert(c =~= cd);
            assert(row_ids(o) =~= row_ids(od).insert(rows.last().rowid));
        }
        assert forall|i: int| 0 <= i < c.len() implies rows.contains(#[trigger] c[i]) by {
            if i < children_rows(d, parent).len() {
                assert(d.contains(c[i]));
                let k = choose|k: int| 0 <= k < d.len() && d[k] == c[i];
                assert(rows[k] == c[i]);
            } else {
                assert(rows[rows.len() - 1] == c[i]);
            }
        }
        assert forall|i: int| 0 <= i < o.len() implies rows.contains(#[trigger] o[i]) by {
            if i < other_rows(d, parent).len() {
                assert(d.contains(o[i]));
                let k = choose|k: int| 0 <= k < d.len() && d[k] == o[i];
                assert(rows[k] == o[i]);
            } else {
                assert(rows[rows.len() - 1] == o[i]);
            }
        }
        assert forall|i: int| 0 <= i < c.len() implies (#[trigger] c[i]).parent_id == Some(parent) by {
            if i < children_rows(d, parent).len() {
                assert(c[i] == children_rows(d, parent)[i]);
            }
        }
        assert forall|i: int| 0 <= i < o.len() implies (#[trigger] o[i]).parent_id != Some(parent) by {
            if i < other_rows(d, parent).len() {
                assert(o[i] == other_rows(d, parent)[i]);
            }
        }
    }
}

/// The filter made from a stored row, without children yet.
pub fn filter_from_row(row: FilterRow) -> (f: Filter)
    ensures
        f.rowid == row.rowid,
        f.target == row.target,
        f.str_value@ == row.str_value@,
        f.str_value2@ == row.str_value2@,
        f.range == row.range,
        f.children@.len() == 0,
{
    Filter {
        rowid: row.rowid,
        target: row.target,
        str_value: row.str_value,
        str_value2: row.str_value2,
        range: row.range,
        children: Vec::new(),
    }
}

/// The rows of a split: those naming `parent` and the others, together as many as all.
pub proof fn lemma_split_len(rows: Seq<FilterRow>, parent: i32)
    ensures
        children_rows(rows, parent).len() + other_rows(rows, parent).len() == rows.len(),
    decreases rows.len(),
{
    if rows.len() > 0 {
        lemma_split_len(rows.drop_last(), parent);
    }
}

/// The rows of `pool` left without a place once the filters below `parent`
/// took theirs: the children of `parent` are the rows of `pool` that name it,
/// in pool order, and each in turn takes its descendants from the rows not
/// placed yet.
pub open spec fn left_after(parent: i32, pool: Seq<FilterRow>) -> Seq<FilterRow>
    decreases pool.len(), 1int, 0int,
{
    proof {
        lemma_split_len(pool, parent);
    }
    let c = children_rows(pool, parent);
    rest_after(c, other_rows(pool, parent), c.len())
}

/// The rows not placed yet once the first `n` rows of `targets` took their
/// descendants, starting from the rows `rest`.
pub open spec fn rest_after(targets: Seq<FilterRow>, rest: Seq<FilterRow>, n: nat) -> Seq<FilterRow>
    decreases targets.len() + rest.len(), 0int, n as int,
{
    if n == 0 || n > targets.len() {
        rest
    } else {
        let before = rest_after(targets, rest, (n - 1) as nat);
        let before = if before.len() <= rest.len() {
            before
        } else {
            rest
        };
        left_after(targets[n - 1].rowid, before)
    }
}

/// Whether the forest `f` is what the rows of `pool` make below `parent`:
/// one filter per row naming `parent`, in pool order, each holding its row's
/// values and, as children, the forest its row makes from the rows not placed
/// by the filters before it.
pub open spec fn arranged(f: Seq<Filter>, parent: i32, pool: Seq<FilterRow>) -> bool
    decreases f, f.len() + 1,
{
    let c = children_rows(pool, parent);
    f.len() == c.len() && arranged_first(f, c, other_rows(pool, parent), f.len())
}

/// Whether the first `n` filters of `f` are made, in order, from the first
/// `n` rows of `targets`, the rows not placed yet starting as `rest`.
pub open spec fn arranged_first(f: Seq<Filter>, targets: Seq<FilterRow>, rest: Seq<FilterRow>, n: nat) -> bool
    decreases f, n,
{
    if n == 0 {
        true
    } else if n > f.len() {
        false
    } else {
        &&& arranged_first(f, targets, rest, (n - 1) as nat)
        &&& holds_row(f[n - 1], targets[n - 1])
        &&& arranged(f[n - 1].children@, targets[n - 1].rowid, rest_after(targets, rest, (n - 1) as nat))
    }
}

proof fn lemma_arranged_first_push(f: Seq<Filter>, x: Filter, targets: Seq<FilterRow>, rest: Seq<FilterRow>, n: nat)
    requires
        n <= f.len(),
        arranged_first(f, targets, rest, n),
    ensures
        arranged_first(f.push(x), targets, rest, n),
    decreases n,
{
    if n > 0 {
        lemma_arranged_first_push(f, x, targets, rest, (n - 1) as nat);
        assert(f.push(x)[n - 1] == f[n - 1]);
    }
}

/// Builds, from the rows still without a place, the filters whose parent is
/// `parent_id`, each with its own children built the same way.
///
/// Returns the filters, in the order of their rows, and the rows that found
/// no place.
pub fn build_filter_children_recursive(parent_id: i32, remain_pool: Vec<FilterRow>) -> (res: (Vec<Filter>, Vec<FilterRow>))
    ensures
        row_ids(remain_pool@) =~= forest_ids(res.0@).add(row_ids(res.1@)),
        placed(res.0@, parent_id, remain_pool@),
        res.0@.len() == children_rows(remain_pool@, parent_id).len(),
        forall|i: int| 0 <= i < res.0@.len()
            ==> made_from(#[trigger] res.0@[i], children_rows(remain_pool@, parent_id)[i], parent_id),
        rows_within(res.1@, remain_pool@),
        none_left_below(res.1@, parent_id, res.0@),
        res.1@.len() <= remain_pool@.len(),
        arranged(res.0@, parent_id, remain_pool@),
        res.1@ == left_after(parent_id, remain_pool@),
    decreases remain_pool@.len(),
{
    let ghost pool = remain_pool@;
    let mut targets: Vec<FilterRow> = Vec::new();
    let mut others: Vec<FilterRow> = Vec::new();
    for row in it: remain_pool
        invariant
            it.seq() == pool,
            targets@ == children_rows(pool.take(it.index() as int), parent_id),
            others@ == other_rows(pool.take(it.index() as int), parent_id),
    {
        proof {
            lemma_split_step(pool, it.index() as int);
        }
        if row.parent_id == Some(parent_id) {
            targets.push(row);
        } else {
            others.push(row);
        }
    }
    assert(pool.take(pool.len() as int) =~= pool);
    proof {
        lemma_split_ids(pool, parent_id);
        lemma_row_ids_len(pool);
    }
    let ghost tseq = targets@;
    assert(tseq.skip(0) =~= tseq);
    assert(forest_ids(Seq::<Filter>::empty()) =~= Multiset::<i32>::empty());

    let ghost others0 = others@;
    let mut result_list: Vec<Filter> = Vec::new();
    let mut remain = others;
    for target in it2: targets
        invariant
            it2.seq() == tseq,
            others0 == other_rows(pool, parent_id),
            remain@ == rest_after(tseq, others0, it2.index() as nat),
            remain@.len() <= others0.len(),
            arranged_first(result_list@, tseq, others0, it2.index() as nat),
            pool == remain_pool@,
            tseq == children_rows(pool, parent_id),
            row_ids(pool) =~= row_ids(tseq).add(row_ids(other_rows(pool, parent_id))),
            row_ids(pool).len() == pool.len(),
            rows_within(tseq, pool),
            rows_within(other_rows(pool, parent_id), pool),
            forall|i: int| 0 <= i < tseq.len() ==> (#[trigger] tseq[i]).parent_id == Some(parent_id),
            forall|i: int| 0 <= i < other_rows(pool, parent_id).len()
                ==> (#[trigger] other_rows(pool, parent_id)[i]).parent_id != Some(parent_id),
            result_list@.len() == it2.index(),
            forall|i: int| 0 <= i < it2.index() ==> made_from(#[trigger] result_list@[i], tseq[i], parent_id),
            placed(result_list@, parent_id, pool),
            rows_within(remain@, pool),
            none_left_below(remain@, parent_id, result_list@),
            row_ids(pool) =~= forest_ids(result_list@).add(row_ids(tseq.skip(it2.index() as int))).add(row_ids(remain@)),
    {
        let ghost j = it2.index() as int;
        let ghost before = result_list@;
        let ghost rest_before = remain@;
        proof {
            lemma_row_ids_add(seq![tseq[j]], tseq.skip(j + 1));
            assert(seq![tseq[j]] + tseq.skip(j + 1) =~= tseq.skip(j));
            let one = seq![tseq[j]];
            assert(one.drop_last() =~= Seq::<FilterRow>::empty());
            assert(row_ids(one) =~= row_ids(one.drop_last()).insert(tseq[j].rowid));
            lemma_row_ids_len(tseq.skip(j));
            lemma_row_ids_len(remain@);
            assert(row_ids(pool).len() == forest_ids(before).len() + row_ids(tseq.skip(j)).len() + row_ids(remain@).len());
            assert(remain@.len() < pool.len());
        }
        let mut filter = filter_from_row(target);
        let tuple = build_filter_children_recursive(filter.rowid, remain);
        filter.children = tuple.0;
        remain = tuple.1;
        proof {
            lemma_placed_within(filter.children@, filter.rowid, rest_before, pool);
            assert(pool.contains(tseq[j]));
            let k = choose|k: int| 0 <= k < pool.len() && pool[k] == tseq[j];
            assert(made_from(filter, pool[k], parent_id));
        }
        result_list.push(filter);
        proof {
            let f2 = result_list@;
            assert(f2.drop_last() =~= before);
            assert(f2.last() == filter);
            assert(f2 == before.push(filter));
            lemma_arranged_first_push(before, filter, tseq, others0, j as nat);
            assert(rest_after(tseq, others0, (j + 1) as nat) == left_after(tseq[j].rowid, rest_before));
            assert(f2[j] == filter);
            assert(arranged_first(f2, tseq, others0, (j + 1) as nat));
            assert forall|i: int| 0 <= i < j + 1 implies made_from(#[trigger] f2[i], tseq[i], parent_id) by {
                if i < j {
                    assert(f2[i] == before[i]);
                }
            }
            assert forall|i: int| 0 <= i < remain@.len() implies pool.contains(#[trigger] remain@[i]) by {
                assert(rest_before.contains(remain@[i]));
                let k = choose|k: int| 0 <= k < rest_before.len() && rest_before[k] == remain@[i];
                assert(pool.contains(rest_before[k]));
            }
            assert forall|i: int| 0 <= i < remain@.len() implies {
                &&& (#[trigger] remain@[i]).parent_id != Some(parent_id)
                &&& (remain@[i].parent_id matches Some(id) ==> forest_ids(f2).count(id) == 0)
            } by {
                assert(rest_before.contains(remain@[i]));
                let k = choose|k: int| 0 <= k < rest_before.len() && rest_before[k] == remain@[i];
                assert(rest_before[k].parent_id != Some(parent_id));
            }
        }
    }
    proof {
        assert(tseq.skip(tseq.len() as int) =~= Seq::<FilterRow>::empty());
        lemma_row_ids_len(remain@);
        assert(remain@ == left_after(parent_id, pool));
    }
    (result_list, remain)
}


/// Whether filter `f` holds the values of row `r`.
pub open spec fn holds_row(f: Filter, r: FilterRow) -> bool {
    &&& f.rowid == r.rowid
    &&& f.target == r.target
    &&& f.str_value@ == r.str_value@
    &&& f.str_value2@ == r.str_value2@
    &&& f.range == r.range
}

/// Whether `k` is the top filter's row: the first row whose id is `root_id`.
pub open spec fn is_first_root_row(rows: Seq<FilterRow>, root_id: i32, k: int) -> bool {
    &&& 0 <= k < rows.len()
    &&& rows[k].rowid == root_id
    &&& forall|j: int| 0 <= j < k ==> (#[trigger] rows[j]).rowid != root_id
}

/// Whether `item` reports row `r`.
pub open spec fn reports_row(item: FilterNoParentsDetectedItem, r: FilterRow) -> bool {
    &&& item.filter_id == r.rowid
    &&& item.parent_id == r.parent_id
    &&& item.root_id == r.root_id
}

/// Index of the first row whose id is `root_id`.
fn position_of_root(rows: &Vec<FilterRow>, root_id: i32) -> (r: Option<usize>)
    ensures
        r matches Some(k) ==> is_first_root_row(rows@, root_id, k as int),
        r is None ==> forall|j: int| 0 <= j < rows@.len() ==> (#[trigger] rows@[j]).rowid != root_id,
{
    let mut i: usize = 0;
    while i < rows.len()
        invariant
            i <= rows@.len(),
            forall|j: int| 0 <= j < i ==> (#[trigger] rows@[j]).rowid != root_id,
        decreases rows@.len() - i,
    {
        if rows[i].rowid == root_id {
            return Some(i);
        }
        i = i + 1;
    }
    None
}

/// The filter tree whose top is `root_id`, from the rows of that tree.
///
/// No rows: `Ok(None)`. No row whose id is `root_id` (the top filter):
/// `RootFilterNotFound`. Otherwise that row is the top, and every other row
/// must hang below it, directly or through other rows; the rows that do not
/// are reported by `FilterNoParentsDetected`.
pub fn filter_tree_from_rows(root_id: i32, rows: Vec<FilterRow>) -> (res: Result<Option<Filter>, Error>)
    ensures
        rows@.len() == 0 <==> res matches Ok(None),
        (rows@.len() > 0 && forall|j: int| 0 <= j < rows@.len() ==> (#[trigger] rows@[j]).rowid != root_id)
            <==> res matches Err(Error::RootFilterNotFound { .. }),
        res matches Err(Error::RootFilterNotFound { root_id: r }) ==> r == root_id,
        res matches Ok(Some(root)) ==> exists|k: int| {
            &&& is_first_root_row(rows@, root_id, k)
            &&& holds_row(root, #[trigger] rows@[k])
            &&& placed(root.children@, root_id, rows@.remove(k))
            &&& forest_ids(root.children@) =~= row_ids(rows@.remove(k))
        },
        res matches Err(Error::FilterNoParentsDetected(items)) ==> items@.len() > 0 && exists|k: int, tree: Seq<Filter>, left: Seq<FilterRow>|
            #![trigger is_first_root_row(rows@, root_id, k), placed(tree, root_id, rows@.remove(k)), none_left_below(left, root_id, tree)]
        {
            &&& is_first_root_row(rows@, root_id, k)
            &&& placed(tree, root_id, rows@.remove(k))
            &&& row_ids(rows@.remove(k)) =~= forest_ids(tree).add(row_ids(left))
            &&& rows_within(left, rows@.remove(k))
            &&& none_left_below(left, root_id, tree)
            &&& left.len() == items@.len()
            &&& forall|i: int| 0 <= i < left.len() ==> reports_row(#[trigger] items@[i], left[i])
        },
        res is Err ==> (res matches Err(Error::RootFilterNotFound { .. }) || res matches Err(
            Error::FilterNoParentsDetected(_),
        )),
        forall|k: int| #[trigger] is_first_root_row(rows@, root_id, k) ==> {
            let left = left_after(root_id, rows@.remove(k));
            &&& left.len() == 0 ==> (res matches Ok(Some(root)) && holds_row(root, rows@[k]) && arranged(
                root.children@,
                root_id,
                rows@.remove(k),
            ))
            &&& left.len() > 0 ==> (res matches Err(Error::FilterNoParentsDetected(items)) && items@.len()
                == left.len() && forall|i: int| 0 <= i < left.len() ==> reports_row(#[trigger] items@[i], left[i]))
        },
{
    let mut remain_pool = rows;
    if remain_pool.len() == 0 {
        return Ok(None);
    }
    let index = match position_of_root(&remain_pool, root_id) {
        Some(k) => k,
        None => {
            return Err(Error::RootFilterNotFound { root_id });
        },
    };
    let ghost all = remain_pool@;
    let root_row = remain_pool.remove(index);
    let ghost others = remain_pool@;
    assert(others == all.remove(index as int));
    let mut root = filter_from_row(root_row);
    let tuple = build_filter_children_recursive(root_id, remain_pool);
    root.children = tuple.0;
    let rest = tuple.1;
    if rest.len() > 0 {
        let ghost left = rest@;
        let mut items: Vec<FilterNoParentsDetectedItem> = Vec::new();
        for row in it: rest
            invariant
                it.seq() == left,
                items@.len() == it.index(),
                forall|i: int| 0 <= i < it.index() ==> reports_row(#[trigger] items@[i], left[i]),
        {
            items.push(FilterNoParentsDetectedItem { filter_id: row.rowid, parent_id: row.parent_id, root_id: row.root_id });
        }
        assert(is_first_root_row(all, root_id, index as int));
        assert(placed(root.children@, root_id, all.remove(index as int)));
        assert(none_left_below(left, root_id, root.children@));
        return Err(Error::FilterNoParentsDetected(items));
    }
    proof {
        assert(tuple.1@ =~= Seq::<FilterRow>::empty());
        assert(row_ids(Seq::<FilterRow>::empty()) =~= Multiset::<i32>::empty());
        assert(forest_ids(root.children@).add(Multiset::<i32>::empty()) =~= forest_ids(root.children@));
        assert(is_first_root_row(all, root_id, index as int));
        assert(holds_row(root, all[index as int]));
    }
    Ok(Some(root))
}

} // verus!
