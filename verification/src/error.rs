//! Errors of the database layer, and the text that lists rows left without
//! a parent.

use vstd::prelude::*;
use crate::model::{FilterTarget, FilterValueRange};
use crate::text::{int_decimal, push_i32_decimal};

verus! {

/// A playlist row whose parent was not found.
#[derive(Debug)]
pub struct PlaylistNoParentsDetectedItem {
    pub playlist_id: i32,
    pub name: String,
    pub parent_id: Option<i32>,
}

/// A filter row whose parent was not found.
#[derive(Debug)]
pub struct FilterNoParentsDetectedItem {
    pub filter_id: i32,
    pub parent_id: Option<i32>,
    pub root_id: i32,
}

/// Errors of the database layer.
#[derive(Debug)]
pub enum Error {
    /// A stored playlist type number that names no playlist type.
    InvalidPlaylistType { type_num: i64 },
    /// A stored sort type number that names no sort type.
    InvalidSortType { type_num: i64 },
    /// A stored filter target number that names no filter target.
    InvalidFilterTarget { type_num: i64 },
    /// A stored filter range number that names no filter range.
    InvalidFilterValueRange { type_num: i64 },
    /// Playlists whose parent is not in the store.
    PlaylistNoParentsDetected(Vec<PlaylistNoParentsDetectedItem>),
    /// A filter playlist without a filter id.
    FilterPlaylistFilterIdNone { plist_id: i32 },
    /// No filter row is the top of the requested filter tree.
    RootFilterNotFound { root_id: i32 },
    /// Filters whose parent is not in the store.
    FilterNoParentsDetected(Vec<FilterNoParentsDetectedItem>),
    /// A filter whose range does not fit its target.
    InvalidFilterRangeForTarget { filter_id: i32, target: FilterTarget, range: FilterValueRange },
    /// A filter playlist that has no filter.
    FilterPlaylistHasNoFilter { plist_id: i32 },
    /// A filter value that should be an integer and is not.
    InvalidIntValue { filter_id: i32 },
    /// A number that does not fit the column it is stored in.
    OutOfRange { value: i64 },
    /// A song is already stored at this path.
    DbSongAlreadyExists { path: String },
    /// The artwork cache could not be locked.
    ArtworkCacheLock,
}

/// Text of an optional id: its decimal digits, or `None`.
pub open spec fn optional_id_text(o: Option<i32>) -> Seq<char> {
    match o {
        Some(i) => int_decimal(i as int),
        None => "None"@,
    }
}

/// `parts` joined by `sep`.
pub open spec fn joined(parts: Seq<Seq<char>>, sep: Seq<char>) -> Seq<char>
    decreases parts.len(),
{
    if parts.len() == 0 {
        seq![]
    } else if parts.len() == 1 {
        parts[0]
    } else {
        joined(parts.drop_last(), sep) + sep + parts.last()
    }
}

/// Text of one playlist item: `{id: .., name: .., parent_id: ..}`.
pub open spec fn playlist_item_text(playlist_id: i32, name: Seq<char>, parent_id: Option<i32>) -> Seq<char> {
    "{id: "@ + int_decimal(playlist_id as int) + ", name: "@ + name + ", parent_id: "@
        + optional_id_text(parent_id) + "}"@
}

/// Text of one filter item: `{id: .., parent_id: .., root_id: ..}`.
pub open spec fn filter_item_text(item: FilterNoParentsDetectedItem) -> Seq<char> {
    "{id: "@ + int_decimal(item.filter_id as int) + ", parent_id: "@ + optional_id_text(item.parent_id)
        + ", root_id: "@ + int_decimal(item.root_id as int) + "}"@
}

fn push_optional_id(out: &mut String, o: Option<i32>)
    ensures
        final(out)@ == old(out)@ + optional_id_text(o),
{
    match o {
        Some(i) => push_i32_decimal(out, i),
        None => out.append("None"),
    }
}

/// The playlist items listed as `{id: 4, name: x, parent_id: 2}, {...}`.
pub fn diaplay_playlist_no_parents_detected(items: &[PlaylistNoParentsDetectedItem]) -> (r: String)
    ensures
        r@ == joined(
            Seq::new(items@.len(), |i: int| playlist_item_text(items@[i].playlist_id, items@[i].name@, items@[i].parent_id)),
            ", "@,
        ),
{
    let ghost texts = Seq::new(items@.len(), |i: int| playlist_item_text(items@[i].playlist_id, items@[i].name@, items@[i].parent_id));
    let mut out = String::new();
    let mut i: usize = 0;
    while i < items.len()
        invariant
            i <= items@.len(),
            texts == Seq::new(items@.len(), |i: int| playlist_item_text(items@[i].playlist_id, items@[i].name@, items@[i].parent_id)),
            out@ == joined(texts.take(i as int), ", "@),
        decreases items@.len() - i,
    {
        let ghost before = out@;
        if i > 0 {
            out.append(", ");
        }
        let item = &items[i];
        out.append("{id: ");
        push_i32_decimal(&mut out, item.playlist_id);
        out.append(", name: ");
        out.append(item.name.as_str());
        out.append(", parent_id: ");
        push_optional_id(&mut out, item.parent_id);
        out.append("}");
        proof {
            let t = texts.take(i + 1);
            assert(t.drop_last() =~= texts.take(i as int));
            assert(t.last() == texts[i as int]);
            if i == 0 {
                assert(out@ =~= before + texts[i as int]);
                assert(before =~= Seq::<char>::empty());
            } else {
                assert(out@ =~= before + ", "@ + texts[i as int]);
            }
        }
        i = i + 1;
    }
    assert(texts.take(items@.len() as int) =~= texts);
    out
}

/// The filter items listed as `{id: 4, parent_id: 2, root_id: 1}, {...}`.
pub fn diaplay_filter_no_parents_detected(items: &[FilterNoParentsDetectedItem]) -> (r: String)
    ensures
        r@ == joined(Seq::new(items@.len(), |i: int| filter_item_text(items@[i])), ", "@),
{
    let ghost texts = Seq::new(items@.len(), |i: int| filter_item_text(items@[i]));
    let mut out = String::new();
    let mut i: usize = 0;
    while i < items.len()
        invariant
            i <= items@.len(),
            texts == Seq::new(items@.len(), |i: int| filter_item_text(items@[i])),
            out@ == joined(texts.take(i as int), ", "@),
        decreases items@.len() - i,
    {
        let ghost before = out@;
        if i > 0 {
            out.append(", ");
        }
        let item = &items[i];
        out.append("{id: ");
        push_i32_decimal(&mut out, item.filter_id);
        out.append(", parent_id: ");
        push_optional_id(&mut out, item.parent_id);
        out.append(", root_id: ");
        push_i32_decimal(&mut out, item.root_id);
        out.append("}");
        proof {
            let t = texts.take(i + 1);
            assert(t.drop_last() =~= texts.take(i as int));
            assert(t.last() == texts[i as int]);
            if i == 0 {
                assert(out@ =~= before + texts[i as int]);
                assert(before =~= Seq::<char>::empty());
            } else {
                assert(out@ =~= before + ", "@ + texts[i as int]);
            }
        }
        i = i + 1;
    }
    assert(texts.take(items@.len() as int) =~= texts);
    out
}

} // verus!
