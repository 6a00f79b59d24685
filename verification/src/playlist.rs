//! Playlists as stored rows, and the playlist tree built from them.

use vstd::prelude::*;
use vstd::multiset::Multiset;
use crate::error::{Error, PlaylistNoParentsDetectedItem};
use crate::model::{Filter, Playlist, PlaylistType, SortType};

verus! {

broadcast use vstd::multiset::group_multiset_axioms;

/// A stored playlist row (its filter already decoded).
pub struct PlaylistRow {
    pub id: i32,
    pub playlist_type: PlaylistType,
    pub name: String,
    /// Id of the parent playlist (only folder playlists are parents); `None` at the top.
    pub parent_id: Option<i32>,
    /// Position among the parent's children.
    pub in_folder_order: i32,
    /// The filter of a filter playlist.
    pub filter: Option<Filter>,
    pub sort_type: SortType,
    pub sort_desc: bool,
    pub save_dap: bool,
    pub listuped_flag: bool,
    pub dap_changed: bool,
}

/// The names in a list of strings.
pub open spec fn names_of(v: Seq<String>) -> Seq<Seq<char>> {
    v.map_values(|s: String| s@)
}

/// Multiset of the ids of `rows`.
pub open spec fn plist_row_ids(rows: Seq<PlaylistRow>) -> Multiset<i32>
    decreases rows.len(),
{
    if rows.len() == 0 {
        Multiset::empty()
    } else {
        plist_row_ids(rows.drop_last()).insert(rows.last().id)
    }
}

/// Multiset of the ids of every playlist in a forest, at any depth.
pub open spec fn plist_forest_ids(f: Seq<Playlist>) -> Multiset<i32>
    decreases f,
{
    if f.len() == 0 {
        Multiset::empty()
    } else {
        plist_forest_ids(f.drop_last()).insert(f.last().rowid).add(plist_forest_ids(f.last().children@))
    }
}

/// Rows of `rows` whose parent is `parent`, in order.
pub open spec fn plist_children_rows(rows: Seq<PlaylistRow>, parent: Option<i32>) -> Seq<PlaylistRow>
    decreases rows.len(),
{
    if rows.len() == 0 {
        seq![]
    } else if rows.last().parent_id == parent {
        plist_children_rows(rows.drop_last(), parent).push(rows.last())
    } else {
        plist_children_rows(rows.drop_last(), parent)
    }
}

/// Rows of `rows` whose parent is not `parent`, in order.
pub open spec fn plist_other_rows(rows: Seq<PlaylistRow>, parent: Option<i32>) -> Seq<PlaylistRow>
    decreases rows.len(),
{
    if rows.len() == 0 {
        seq![]
    } else if rows.last().parent_id == parent {
        plist_other_rows(rows.drop_last(), parent)
    } else {
        plist_other_rows(rows.drop_last(), parent).push(rows.last())
    }
}

/// Whether playlist `p` holds the values of row `r`.
pub open spec fn plist_holds_row(p: Playlist, r: PlaylistRow) -> bool {
    &&& p.rowid == r.id
    &&& p.playlist_type == r.playlist_type
    &&& p.name@ == r.name@
    &&& p.parent_id == r.parent_id
    &&& p.in_folder_order == r.in_folder_order as u32
    &&& p.filter == r.filter
    &&& p.sort_type == r.sort_type
    &&& p.sort_desc == r.sort_desc
    &&& p.save_dap == r.save_dap
    &&& p.listuped_flag == r.listuped_flag
    &&& p.dap_changed == r.dap_changed
}

/// Whether playlist `p` was made from row `r`, a child of `parent`, below
/// the ancestors named `names`.
pub open spec fn plist_made_from(p: Playlist, r: PlaylistRow, parent: Option<i32>, names: Seq<Seq<char>>) -> bool {
    &&& r.parent_id == parent
    &&& plist_holds_row(p, r)
    &&& names_of(p.parent_names@) == names
}

/// Every playlist of the forest, at any depth, was made from a row of `rows`
/// whose parent is the playlist above it (`parent` at the top level), and
/// carries the names of its ancestors (`names` at the top level).
pub open spec fn plist_placed(f: Seq<Playlist>, parent: Option<i32>, names: Seq<Seq<char>>, rows: Seq<PlaylistRow>) -> bool
    decreases f,
{
    if f.len() == 0 {
        true
    } else {
        &&& plist_placed(f.drop_last(), parent, names, rows)
        &&& exists|j: int| 0 <= j < rows.len() && plist_made_from(f.last(), #[trigger] rows[j], parent, names)
        &&& plist_placed(f.last().children@, Some(f.last().rowid), names.push(f.last().name@), rows)
    }
}

/// No row of `rest` hangs below `parent` or below any playlist of the forest.
pub open spec fn plist_none_left_below(rest: Seq<PlaylistRow>, parent: Option<i32>, f: Seq<Playlist>) -> bool {
    forall|i: int|
        0 <= i < rest.len() ==> {
            &&& (#[trigger] rest[i]).parent_id != parent
            &&& (rest[i].parent_id matches Some(id) ==> plist_forest_ids(f).count(id) == 0)
        }
}

/// Every row of `sub` is a row of `rows`.
pub open spec fn plist_rows_within(sub: Seq<PlaylistRow>, rows: Seq<PlaylistRow>) -> bool {
    forall|i: int| 0 <= i < sub.len() ==> rows.contains(#[trigger] sub[i])
}

/// The parent key of the playlists below `parent` (`None` for the top level).
pub open spec fn key_below(parent: Option<&Playlist>) -> Option<i32> {
    match parent {
        Some(p) => Some(p.rowid),
        None => None,
    }
}

/// The ancestor names of the playlists below `parent`.
pub open spec fn names_below(parent: Option<&Playlist>) -> Seq<Seq<char>> {
    match parent {
        Some(p) => names_of(p.parent_names@).push(p.name@),
        None => seq![],
    }
}

proof fn lemma_plist_row_ids_add(a: Seq<PlaylistRow>, b: Seq<PlaylistRow>)
    ensures
        plist_row_ids(a + b) =~= plist_row_ids(a).add(plist_row_ids(b)),
    decreases b.len(),
{
    if b.len() > 0 {
        lemma_plist_row_ids_add(a, b.drop_last());
        assert((a + b).drop_last() =~= a + b.drop_last());
    } else {
        assert(a + b =~= a);
    }
}

proof fn lemma_plist_row_ids_len(a: Seq<PlaylistRow>)
    ensures
        plist_row_ids(a).len() == a.len(),
    decreases a.len(),
{
    if a.len() > 0 {
        lemma_plist_row_ids_len(a.drop_last());
    }
}

proof fn lemma_plist_placed_within(
    f: Seq<Playlist>,
    parent: Option<i32>,
    names: Seq<Seq<char>>,
    sub: Seq<PlaylistRow>,
    rows: Seq<PlaylistRow>,
)
    requires
        plist_placed(f, parent, names, sub),
        plist_rows_within(sub, rows),
    ensures
        plist_placed(f, parent, names, rows),
    decreases f,
{
    if f.len() > 0 {
        lemma_plist_placed_within(f.drop_last(), parent, names, sub, rows);
        lemma_plist_placed_within(f.last().children@, Some(f.last().rowid), names.push(f.last().name@), sub, rows);
        let j = choose|j: int| 0 <= j < sub.len() && plist_made_from(f.last(), #[trigger] sub[j], parent, names);
        assert(rows.contains(sub[j]));
        let k = choose|k: int| 0 <= k < rows.len() && rows[k] == sub[j];
        assert(plist_made_from(f.last(), rows[k], parent, names));
    }
}

proof fn lemma_plist_split(rows: Seq<PlaylistRow>, parent: Option<i32>)
    ensures
        plist_row_ids(rows) =~= plist_row_ids(plist_children_rows(rows, parent)).add(
            plist_row_ids(plist_other_rows(rows, parent)),
        ),
        plist_rows_within(plist_children_rows(rows, parent), rows),
        plist_rows_within(plist_other_rows(rows, parent), rows),
        forall|i: int| 0 <= i < plist_children_rows(rows, parent).len()
            ==> (#[trigger] plist_children_rows(rows, parent)[i]).parent_id == parent,
        forall|i: int| 0 <= i < plist_other_rows(rows, parent).len()
            ==> (#[trigger] plist_other_rows(rows, parent)[i]).parent_id != parent,
    decreases rows.len(),
{
    if rows.len() > 0 {
        let d = rows.drop_last();
        lemma_plist_split(d, parent);
        let c = plist_children_rows(rows, parent);
        let o = plist_other_rows(rows, parent);
        let cd = plist_children_rows(d, parent);
        let od = plist_other_rows(d, parent);
        if rows.last().parent_id == parent {
            assert(c.drop_last() =~= cd);
            assert(o =~= od);
            assert(plist_row_ids(c) =~= plist_row_ids(cd).insert(rows.last().id));
        } else {
            assert(o.drop_last() =~= od);
            assert(c =~= cd);
            assert(plist_row_ids(o) =~= plist_row_ids(od).insert(rows.last().id));
        }
        assert forall|i: int| 0 <= i < c.len() implies rows.contains(#[trigger] c[i]) by {
            if i < cd.len() {
                assert(d.contains(c[i]));
                let k = choose|k: int| 0 <= k < d.len() && d[k] == c[i];
                assert(rows[k] == c[i]);
            } else {
                assert(rows[rows.len() - 1] == c[i]);
            }
        }
        assert forall|i: int| 0 <= i < o.len() implies rows.contains(#[trigger] o[i]) by {
            if i < od.len() {
                assert(d.contains(o[i]));
                let k = choose|k: int| 0 <= k < d.len() && d[k] == o[i];
                assert(rows[k] == o[i]);
            } else {
                assert(rows[rows.len() - 1] == o[i]);
            }
        }
        assert forall|i: int| 0 <= i < c.len() implies (#[trigger] c[i]).parent_id == parent by {
            if i < cd.len() {
                assert(c[i] == cd[i]);
            }
        }
        assert forall|i: int| 0 <= i < o.len() implies (#[trigger] o[i]).parent_id != parent by {
            if i < od.len() {
                assert(o[i] == od[i]);
            }
        }
    }
}

/// The playlist made from a stored row, with no children and no ancestor names yet.
pub fn playlist_from_row(row: PlaylistRow) -> (p: Playlist)
    ensures
        plist_holds_row(p, row),
        p.children@.len() == 0,
        p.parent_names@.len() == 0,
{
    Playlist {
        rowid: row.id,
        playlist_type: row.playlist_type,
        name: row.name,
        parent_id: row.parent_id,
        in_folder_order: row.in_folder_order as u32,
        filter: row.filter,
        sort_type: row.sort_type,
        sort_desc: row.sort_desc,
        save_dap: row.save_dap,
        listuped_flag: row.listuped_flag,
        dap_changed: row.dap_changed,
        children: Vec::new(),
        parent_names: Vec::new(),
    }
}

/// The ancestor names for a child of `p`: those of `p`, then `p`'s own name.
fn child_parent_names(p: &Playlist) -> (v: Vec<String>)
    ensures
        names_of(v@) == names_of(p.parent_names@).push(p.name@),
{
    let mut v: Vec<String> = Vec::new();
    let mut i: usize = 0;
    while i < p.parent_names.len()
        invariant
            i <= p.parent_names@.len(),
            v@.len() == i,
            names_of(v@) == names_of(p.parent_names@).take(i as int),
        decreases p.parent_names@.len() - i,
    {
        let ghost old_v = v@;
        let s = p.parent_names[i].clone();
        v.push(s);
        assert forall|k: int| 0 <= k < i + 1 implies #[trigger] names_of(v@)[k] == names_of(p.parent_names@).take(i + 1)[k] by {
            if k < i {
                assert(v@[k] == old_v[k]);
                assert(names_of(old_v)[k] == old_v[k]@);
            }
        }
        assert(names_of(v@) =~= names_of(p.parent_names@).take(i + 1));
        i = i + 1;
    }
    assert(names_of(p.parent_names@).take(p.parent_names@.len() as int) =~= names_of(p.parent_names@));
    let ghost old_v = v@;
    let n = p.name.clone();
    v.push(n);
    assert forall|k: int| 0 <= k < v@.len() implies #[trigger] names_of(v@)[k] == names_of(p.parent_names@).push(p.name@)[k] by {
        if k < old_v.len() {
            assert(v@[k] == old_v[k]);
            assert(names_of(old_v)[k] == old_v[k]@);
        }
    }
    assert(names_of(v@) =~= names_of(p.parent_names@).push(p.name@));
    v
}

/// The rows of a split: those naming `parent` and the others, together as many as all.
pub proof fn lemma_plist_split_len(rows: Seq<PlaylistRow>, parent: Option<i32>)
    ensures
        plist_children_rows(rows, parent).len() + plist_other_rows(rows, parent).len() == rows.len(),
    decreases rows.len(),
{
    if rows.len() > 0 {
        lemma_plist_split_len(rows.drop_last(), parent);
    }
}

/// The rows of `pool` left without a place once the playlists below
/// `parent` took theirs: the children of `parent` are the rows of `pool` that
/// name it, in pool order, and each in turn takes its descendants from the
/// rows not placed yet.
pub open spec fn plist_left_after(parent: Option<i32>, pool: Seq<PlaylistRow>) -> Seq<PlaylistRow>
    decreases pool.len(), 1int, 0int,
{
    proof {
        lemma_plist_split_len(pool, parent);
    }
    let c = plist_children_rows(pool, parent);
    plist_rest_after(c, plist_other_rows(pool, parent), c.len())
}

/// The rows not placed yet once the first `n` rows of `targets` took their
/// descendants, starting from the rows `rest`.
pub open spec fn plist_rest_after(targets: Seq<PlaylistRow>, rest: Seq<PlaylistRow>, n: nat) -> Seq<PlaylistRow>
    decreases targets.len() + rest.len(), 0int, n as int,
{
    if n == 0 || n > targets.len() {
        rest
    } else {
        let before = plist_rest_after(targets, rest, (n - 1) as nat);
        let before = if before.len() <= rest.len() {
            before
        } else {
            rest
        };
        plist_left_after(Some(targets[n - 1].id), before)
    }
}

/// Whether the forest `f` is what the rows of `pool` make below `parent`,
/// under ancestors named `names`: one playlist per row naming `parent`, in
/// pool order, each holding its row's values and the ancestor names, and, as
/// children, the forest its row makes from the rows not placed by the
/// playlists before it.
pub open spec fn plist_arranged(f: Seq<Playlist>, parent: Option<i32>, names: Seq<Seq<char>>, pool: Seq<PlaylistRow>) -> bool
    decreases f, f.len() + 1,
{
    let c = plist_children_rows(pool, parent);
    f.len() == c.len() && plist_arranged_first(f, c, plist_other_rows(pool, parent), names, f.len())
}

/// Whether the first `n` playlists of `f` are made, in order, from the first
/// `n` rows of `targets` under ancestors named `names`, the rows not placed
/// yet starting as `rest`.
pub open spec fn plist_arranged_first(
    f: Seq<Playlist>,
    targets: Seq<PlaylistRow>,
    rest: Seq<PlaylistRow>,
    names: Seq<Seq<char>>,
    n: nat,
) -> bool
    decreases f, n,
{
    if n == 0 {
        true
    } else if n > f.len() {
        false
    } else {
        &&& plist_arranged_first(f, targets, rest, names, (n - 1) as nat)
        &&& plist_holds_row(f[n - 1], targets[n - 1])
        &&& names_of(f[n - 1].parent_names@) == names
        &&& plist_arranged(
            f[n - 1].children@,
            Some(targets[n - 1].id),
            names.push(targets[n - 1].name@),
            plist_rest_after(targets, rest, (n - 1) as nat),
        )
    }
}

proof fn lemma_plist_arranged_first_push(
    f: Seq<Playlist>,
    x: Playlist,
    targets: Seq<PlaylistRow>,
    rest: Seq<PlaylistRow>,
    names: Seq<Seq<char>>,
    n: nat,
)
    requires
        n <= f.len(),
        plist_arranged_first(f, targets, rest, names, n),
    ensures
        plist_arranged_first(f.push(x), targets, rest, names, n),
    decreases n,
{
    if n > 0 {
        lemma_plist_arranged_first_push(f, x, targets, rest, names, (n - 1) as nat);
        assert(f.push(x)[n - 1] == f[n - 1]);
    }
}

/// Builds, from the rows still without a place, the playlists whose parent
/// is `parent` (the top level when `None`), each with its own children built
/// the same way and with the names of its ancestors.
///
/// Returns the playlists, in the order of their rows, and the rows that
/// found no place.
pub fn build_plist_children_recursive(parent: Option<&Playlist>, remain_pool: Vec<PlaylistRow>) -> (res: (Vec<Playlist>, Vec<PlaylistRow>))
    ensures
        plist_row_ids(remain_pool@) =~= plist_forest_ids(res.0@).add(plist_row_ids(res.1@)),
        plist_placed(res.0@, key_below(parent), names_below(parent), remain_pool@),
        res.0@.len() == plist_children_rows(remain_pool@, key_below(parent)).len(),
        forall|i: int| 0 <= i < res.0@.len() ==> plist_made_from(
            #[trigger] res.0@[i],
            plist_children_rows(remain_pool@, key_below(parent))[i],
            key_below(parent),
            names_below(parent),
        ),
        plist_rows_within(res.1@, remain_pool@),
        plist_none_left_below(res.1@, key_below(parent), res.0@),
        res.1@.len() <= remain_pool@.len(),
        plist_arranged(res.0@, key_below(parent), names_below(parent), remain_pool@),
        res.1@ == plist_left_after(key_below(parent), remain_pool@),
    decreases remain_pool@.len(),
{
    let ghost pool = remain_pool@;
    let ghost key = key_below(parent);
    let ghost names = names_below(parent);
    let parent_key: Option<i32> = match parent {
        Some(p) => Some(p.rowid),
        None => None,
    };
    let mut targets: Vec<PlaylistRow> = Vec::new();
    let mut others: Vec<PlaylistRow> = Vec::new();
    for row in it: remain_pool
        invariant
            it.seq() == pool,
            parent_key == key,
            targets@ == plist_children_rows(pool.take(it.index() as int), key),
            others@ == plist_other_rows(pool.take(it.index() as int), key),
    {
        assert(pool.take(it.index() + 1).drop_last() =~= pool.take(it.index() as int));
        assert(pool.take(it.index() + 1).last() == row);
        if row.parent_id == parent_key {
            targets.push(row);
        } else {
            others.push(row);
        }
    }
    assert(pool.take(pool.len() as int) =~= pool);
    proof {
        lemma_plist_split(pool, key);
        lemma_plist_row_ids_len(pool);
    }
    let ghost tseq = targets@;
    assert(tseq.skip(0) =~= tseq);
    assert(plist_forest_ids(Seq::<Playlist>::empty()) =~= Multiset::<i32>::empty());

    let ghost others0 = others@;
    let mut result_list: Vec<Playlist> = Vec::new();
    let mut remain = others;
    for target in it2: targets
        invariant
            it2.seq() == tseq,
            others0 == plist_other_rows(pool, key),
            remain@ == plist_rest_after(tseq, others0, it2.index() as nat),
            remain@.len() <= others0.len(),
            plist_arranged_first(result_list@, tseq, others0, names, it2.index() as nat),
            pool == remain_pool@,
            key == key_below(parent),
            names == names_below(parent),
            tseq == plist_children_rows(pool, key),
            plist_row_ids(pool) =~= plist_row_ids(tseq).add(plist_row_ids(plist_other_rows(pool, key))),
            plist_row_ids(pool).len() == pool.len(),
            plist_rows_within(tseq, pool),
            plist_rows_within(plist_other_rows(pool, key), pool),
            forall|i: int| 0 <= i < tseq.len() ==> (#[trigger] tseq[i]).parent_id == key,
            forall|i: int| 0 <= i < plist_other_rows(pool, key).len()
                ==> (#[trigger] plist_other_rows(pool, key)[i]).parent_id != key,
            result_list@.len() == it2.index(),
            forall|i: int| 0 <= i < it2.index() ==> plist_made_from(#[trigger] result_list@[i], tseq[i], key, names),
            plist_placed(result_list@, key, names, pool),
            plist_rows_within(remain@, pool),
            plist_none_left_below(remain@, key, result_list@),
            plist_row_ids(pool) =~= plist_forest_ids(result_list@).add(plist_row_ids(tseq.skip(it2.index() as int))).add(
                plist_row_ids(remain@),
            ),
    {
        let ghost j = it2.index() as int;
        let ghost before = result_list@;
        let ghost rest_before = remain@;
        proof {
            lemma_plist_row_ids_add(seq![tseq[j]], tseq.skip(j + 1));
            assert(seq![tseq[j]] + tseq.skip(j + 1) =~= tseq.skip(j));
            let one = seq![tseq[j]];
            assert(one.drop_last() =~= Seq::<PlaylistRow>::empty());
            assert(plist_row_ids(one) =~= plist_row_ids(one.drop_last()).insert(tseq[j].id));
            lemma_plist_row_ids_len(tseq.skip(j));
            lemma_plist_row_ids_len(remain@);
            assert(remain@.len() < pool.len());
        }
        let mut plist = playlist_from_row(target);
        match parent {
            Some(p) => {
                plist.parent_names = child_parent_names(p);
            },
            None => {
                assert(names_of(plist.parent_names@) =~= Seq::<Seq<char>>::empty());
            },
        }
        let tuple = build_plist_children_recursive(Some(&plist), remain);
        plist.children = tuple.0;
        remain = tuple.1;
        proof {
            lemma_plist_placed_within(plist.children@, Some(plist.rowid), names.push(plist.name@), rest_before, pool);
            assert(pool.contains(tseq[j]));
            let k = choose|k: int| 0 <= k < pool.len() && pool[k] == tseq[j];
            assert(plist_made_from(plist, pool[k], key, names));
        }
        result_list.push(plist);
        proof {
            let f2 = result_list@;
            assert(f2.drop_last() =~= before);
            assert(f2.last() == plist);
            assert(f2 == before.push(plist));
            lemma_plist_arranged_first_push(before, plist, tseq, others0, names, j as nat);
            assert(plist_rest_after(tseq, others0, (j + 1) as nat) == plist_left_after(Some(tseq[j].id), rest_before));
            assert(f2[j] == plist);
            assert(plist_arranged_first(f2, tseq, others0, names, (j + 1) as nat));
            assert forall|i: int| 0 <= i < j + 1 implies plist_made_from(#[trigger] f2[i], tseq[i], key, names) by {
                if i < j {
                    assert(f2[i] == before[i]);
                }
            }
            assert forall|i: int| 0 <= i < remain@.len() implies pool.contains(#[trigger] remain@[i]) by {
                assert(rest_before.contains(remain@[i]));
                let k = choose|k: int| 0 <= k < rest_before.len() && rest_before[k] == remain@[i];
                assert(pool.contains(rest_before[k]));
            }
            assert forall|i: int| 0 <= i < remain@.len() implies {
                &&& (#[trigger] remain@[i]).parent_id != key
                &&& (remain@[i].parent_id matches Some(id) ==> plist_forest_ids(f2).count(id) == 0)
            } by {
                assert(rest_before.contains(remain@[i]));
                let k = choose|k: int| 0 <= k < rest_before.len() && rest_before[k] == remain@[i];
                assert(rest_before[k].parent_id != key);
            }
        }
    }
    proof {
        assert(tseq.skip(tseq.len() as int) =~= Seq::<PlaylistRow>::empty());
        lemma_plist_row_ids_len(remain@);
        assert(remain@ == plist_left_after(key, pool));
    }
    (result_list, remain)
}


/// Whether `item` reports row `r`.
pub open spec fn reports_plist_row(item: PlaylistNoParentsDetectedItem, r: PlaylistRow) -> bool {
    &&& item.playlist_id == r.id
    &&& item.name@ == r.name@
    &&& item.parent_id == r.parent_id
}

/// Whether `e` is the error that reports rows without a parent.
pub open spec fn is_no_parents_error(e: Error) -> bool {
    e matches Error::PlaylistNoParentsDetected(_)
}

/// The playlist tree: the top-level playlists, each with its descendants.
///
/// Every row must hang below the top level, directly or through other rows;
/// the rows that do not are reported by `PlaylistNoParentsDetected`.
pub fn playlist_tree_from_rows(rows: Vec<PlaylistRow>) -> (res: Result<Vec<Playlist>, Error>)
    ensures
        res matches Ok(list) ==> {
            &&& plist_placed(list@, None, seq![], rows@)
            &&& plist_forest_ids(list@) =~= plist_row_ids(rows@)
            &&& list@.len() == plist_children_rows(rows@, None).len()
            &&& forall|i: int| 0 <= i < list@.len()
                ==> plist_made_from(#[trigger] list@[i], plist_children_rows(rows@, None)[i], None, seq![])
        },
        res matches Err(e) ==> is_no_parents_error(e),
        plist_left_after(None, rows@).len() == 0 ==> (res matches Ok(list) && plist_arranged(list@, None, seq![], rows@)),
        plist_left_after(None, rows@).len() > 0 ==> (res matches Err(Error::PlaylistNoParentsDetected(items))
            && items@.len() == plist_left_after(None, rows@).len() && forall|i: int|
            0 <= i < items@.len() ==> reports_plist_row(#[trigger] items@[i], plist_left_after(None, rows@)[i])),
        res matches Err(Error::PlaylistNoParentsDetected(items)) ==> items@.len() > 0 && exists|tree: Seq<Playlist>, left: Seq<PlaylistRow>|
            #![trigger plist_placed(tree, None, seq![], rows@), plist_none_left_below(left, None, tree)]
        {
            &&& plist_placed(tree, None, seq![], rows@)
            &&& plist_row_ids(rows@) =~= plist_forest_ids(tree).add(plist_row_ids(left))
            &&& plist_rows_within(left, rows@)
            &&& plist_none_left_below(left, None, tree)
            &&& left.len() == items@.len()
            &&& forall|i: int| 0 <= i < left.len() ==> reports_plist_row(#[trigger] items@[i], left[i])
        },
{
    let tuple = build_plist_children_recursive(None, rows);
    let root_list = tuple.0;
    let remain_pool = tuple.1;
    if remain_pool.len() > 0 {
        let ghost left = remain_pool@;
        let mut items: Vec<PlaylistNoParentsDetectedItem> = Vec::new();
        for row in it: remain_pool
            invariant
                it.seq() == left,
                items@.len() == it.index(),
                forall|i: int| 0 <= i < it.index() ==> reports_plist_row(#[trigger] items@[i], left[i]),
        {
            items.push(PlaylistNoParentsDetectedItem { playlist_id: row.id, name: row.name, parent_id: row.parent_id });
        }
        assert(plist_placed(root_list@, None, seq![], rows@));
        assert(plist_none_left_below(left, None, root_list@));
        return Err(Error::PlaylistNoParentsDetected(items));
    }
    proof {
        assert(remain_pool@ =~= Seq::<PlaylistRow>::empty());
        assert(plist_row_ids(Seq::<PlaylistRow>::empty()) =~= Multiset::<i32>::empty());
        assert(plist_forest_ids(root_list@).add(Multiset::<i32>::empty()) =~= plist_forest_ids(root_list@));
    }
    Ok(root_list)
}

} // verus!
