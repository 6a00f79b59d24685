//! The SQL text that lists the songs of a playlist in the playlist's order,
//! and the bookkeeping of a playlist's song list.

use vstd::prelude::*;
use crate::error::Error;
use crate::model::{Filter, Playlist, PlaylistType, SortType};
use crate::song_lister::{song_id_query_text, where_clause, SongListerFilterImpl};
use crate::text::{int_decimal, push_i32_decimal, replace_all, replace_text};

verus! {

/// Name given to the playlist position column.
pub open spec fn playlist_index_column() -> Seq<char> {
    "playlist_index"@
}

/// The ORDER BY columns of a sort type, each ascending.
pub open spec fn sort_columns(sort_type: SortType) -> Seq<char> {
    match sort_type {
        SortType::SongName => "title_order ASC, tracks.id ASC"@,
        SortType::Artist => "artist_order ASC, album_order ASC, disc_number ASC, track_number ASC, title_order ASC, tracks.id ASC"@,
        SortType::Album => "album_order ASC, artist_order ASC, disc_number ASC, track_number ASC, title_order ASC, tracks.id ASC"@,
        SortType::Genre => "genre ASC, artist_order ASC, album_order ASC, disc_number ASC, track_number ASC, title_order ASC, tracks.id ASC"@,
        SortType::Playlist => "[playlist_index] ASC"@,
        SortType::Composer => "composer_order ASC, artist_order ASC, album_order ASC, disc_number ASC, track_number ASC, title_order ASC, tracks.id ASC"@,
        SortType::Duration => "duration ASC, title_order ASC, tracks.id ASC"@,
        SortType::TrackIndex => "track_number ASC, artist_order ASC, album_order ASC, disc_number ASC, title_order ASC, tracks.id ASC"@,
        SortType::DiscIndex => "disc_number ASC, artist_order ASC, album_order ASC, track_number ASC, title_order ASC, tracks.id ASC"@,
        SortType::ReleaseDate => "release_date ASC, artist_order ASC, album_order ASC, disc_number ASC, track_number ASC, title_order ASC, tracks.id ASC"@,
        SortType::Rating => "rating ASC, artist_order ASC, album_order ASC, disc_number ASC, track_number ASC, title_order ASC, tracks.id ASC"@,
        SortType::EntryDate => "created_at ASC, path ASC"@,
        SortType::Path => "path ASC"@,
    }
}

/// The ORDER BY columns of a sort type, each ascending.
pub fn get_sort_column_query(sort_type: SortType) -> (r: &'static str)
    ensures
        r@ == sort_columns(sort_type),
{
    match sort_type {
        SortType::SongName => "title_order ASC, tracks.id ASC",
        SortType::Artist => "artist_order ASC, album_order ASC, disc_number ASC, track_number ASC, title_order ASC, tracks.id ASC",
        SortType::Album => "album_order ASC, artist_order ASC, disc_number ASC, track_number ASC, title_order ASC, tracks.id ASC",
        SortType::Genre => "genre ASC, artist_order ASC, album_order ASC, disc_number ASC, track_number ASC, title_order ASC, tracks.id ASC",
        SortType::Playlist => "[playlist_index] ASC",
        SortType::Composer => "composer_order ASC, artist_order ASC, album_order ASC, disc_number ASC, track_number ASC, title_order ASC, tracks.id ASC",
        SortType::Duration => "duration ASC, title_order ASC, tracks.id ASC",
        SortType::TrackIndex => "track_number ASC, artist_order ASC, album_order ASC, disc_number ASC, title_order ASC, tracks.id ASC",
        SortType::DiscIndex => "disc_number ASC, artist_order ASC, album_order ASC, track_number ASC, title_order ASC, tracks.id ASC",
        SortType::ReleaseDate => "release_date ASC, artist_order ASC, album_order ASC, disc_number ASC, track_number ASC, title_order ASC, tracks.id ASC",
        SortType::Rating => "rating ASC, artist_order ASC, album_order ASC, disc_number ASC, track_number ASC, title_order ASC, tracks.id ASC",
        SortType::EntryDate => "created_at ASC, path ASC",
        SortType::Path => "path ASC",
    }
}

/// The ORDER BY clause: the sort columns, with every `ASC` turned into `DESC`
/// when the order is descending.
pub open spec fn order_clause(sort_type: SortType, is_desc: bool) -> Seq<char> {
    if is_desc {
        " ORDER BY "@ + replace_all(sort_columns(sort_type), "ASC"@, "DESC"@)
    } else {
        " ORDER BY "@ + sort_columns(sort_type)
    }
}

/// The ORDER BY clause of a sort type.
pub fn get_order_query(sort_type: SortType, is_desc: bool) -> (r: String)
    ensures
        r@ == order_clause(sort_type, is_desc),
{
    let order = get_sort_column_query(sort_type);
    let mut r = String::new();
    r.append(" ORDER BY ");
    if is_desc {
        proof {
            reveal_strlit("ASC");
        }
        let desc = replace_text(order, "ASC", "DESC");
        r.append(desc.as_str());
    } else {
        r.append(order);
    }
    assert(r@ =~= order_clause(sort_type, is_desc));
    r
}

proof fn lemma_replace_after_prefix(p: Seq<char>, t: Seq<char>)
    requires
        forall|i: int| 0 <= i < p.len() ==> p[i] != 'A',
    ensures
        replace_all(p + t, "ASC"@, "DESC"@) == p + replace_all(t, "ASC"@, "DESC"@),
    decreases p.len(),
{
    reveal_strlit("ASC");
    if p.len() > 0 {
        let s = p + t;
        lemma_replace_after_prefix(p.drop_first(), t);
        assert(s.skip(1) =~= p.drop_first() + t);
        if s.len() >= 3 {
            assert(s.take(3)[0] != 'A');
            assert(s.take(3) != "ASC"@);
        } else {
            assert(t.len() < 3);
            assert(replace_all(t, "ASC"@, "DESC"@) == t);
        }
        assert(seq![s[0]] + (p.drop_first() + replace_all(t, "ASC"@, "DESC"@)) =~= p + replace_all(t, "ASC"@, "DESC"@));
    } else {
        assert(p + t =~= t);
    }
}

/// A descending ORDER BY clause is the ascending one with every `ASC`
/// turned into `DESC`.
pub proof fn law_descending_order(sort_type: SortType)
    ensures
        order_clause(sort_type, true) == replace_all(order_clause(sort_type, false), "ASC"@, "DESC"@),
{
    reveal_strlit(" ORDER BY ");
    lemma_replace_after_prefix(" ORDER BY "@, sort_columns(sort_type));
}

/// SQL text of an optional integer: its decimal digits, or `NULL`.
pub open spec fn sql_int_literal(o: Option<i32>) -> Seq<char> {
    match o {
        Some(i) => int_decimal(i as int),
        None => "NULL"@,
    }
}

/// SQL text of an optional integer.
pub fn esci(o: Option<i32>) -> (r: String)
    ensures
        r@ == sql_int_literal(o),
{
    let mut r = String::new();
    match o {
        Some(i) => push_i32_decimal(&mut r, i),
        None => r.append("NULL"),
    }
    assert(r@ =~= sql_int_literal(o));
    r
}

/// The FROM, JOIN and WHERE clauses that select the listed songs of a playlist.
pub open spec fn playlist_songs_clause(rowid: i32) -> Seq<char> {
    " FROM playlist_tracks JOIN tracks ON playlist_tracks.track_id = tracks.id WHERE playlist_tracks.playlist_id = "@
        + sql_int_literal(Some(rowid))
}

/// The FROM, JOIN and WHERE clauses that select the listed songs of a playlist.
pub fn playlist_songs_query(rowid: i32) -> (r: String)
    ensures
        r@ == playlist_songs_clause(rowid),
{
    let mut r = String::new();
    r.append(" FROM playlist_tracks JOIN tracks ON playlist_tracks.track_id = tracks.id WHERE playlist_tracks.playlist_id = ");
    let id = esci(Some(rowid));
    r.append(id.as_str());
    assert(r@ =~= playlist_songs_clause(rowid));
    r
}

/// The query for the paths of a playlist's songs, in the playlist's order;
/// a playlist sorted by position also selects the position.
pub open spec fn song_path_list_text(rowid: i32, sort_type: SortType, sort_desc: bool) -> Seq<char> {
    let columns = if sort_type == SortType::Playlist {
        "tracks.path"@ + ", playlist_tracks.order_index AS "@ + playlist_index_column()
    } else {
        "tracks.path"@
    };
    "SELECT "@ + columns + playlist_songs_clause(rowid) + order_clause(sort_type, sort_desc)
}

/// The query for the paths of a playlist's songs, in the playlist's order.
pub fn song_path_list_query(plist: &Playlist) -> (r: String)
    ensures
        r@ == song_path_list_text(plist.rowid, plist.sort_type, plist.sort_desc),
{
    let mut r = String::new();
    r.append("SELECT ");
    r.append("tracks.path");
    if plist.sort_type == SortType::Playlist {
        r.append(", playlist_tracks.order_index AS ");
        r.append("playlist_index");
    }
    let fjw = playlist_songs_query(plist.rowid);
    r.append(fjw.as_str());
    let order = get_order_query(plist.sort_type, plist.sort_desc);
    r.append(order.as_str());
    assert(r@ =~= song_path_list_text(plist.rowid, plist.sort_type, plist.sort_desc));
    r
}

/// The query for the song ids of a child playlist.
pub open spec fn child_song_ids_text(rowid: i32) -> Seq<char> {
    "SELECT tracks.id "@ + playlist_songs_clause(rowid)
}

/// The query for the song ids of a child playlist.
pub fn child_song_ids_query(rowid: i32) -> (r: String)
    ensures
        r@ == child_song_ids_text(rowid),
{
    let mut r = String::new();
    r.append("SELECT tracks.id ");
    let fjw = playlist_songs_query(rowid);
    r.append(fjw.as_str());
    assert(r@ =~= child_song_ids_text(rowid));
    r
}

/// The query for the songs of a filter playlist; a filter playlist without a
/// filter is an error.
pub fn playlist_filter_query(plist: &Playlist) -> (r: Result<String, Error>)
    ensures
        plist.filter is None ==> r == Err::<String, Error>(Error::FilterPlaylistHasNoFilter { plist_id: plist.rowid }),
        plist.filter matches Some(f) ==> {
            &&& r matches Ok(s) ==> (where_clause(f) matches Ok(w) && s@ == song_id_query_text(w))
            &&& r matches Err(e) ==> where_clause(f) == Err::<Seq<char>, Error>(e)
        },
{
    match &plist.filter {
        Some(f) => SongListerFilterImpl {}.list_song_id_query(f),
        None => Err(Error::FilterPlaylistHasNoFilter { plist_id: plist.rowid }),
    }
}

/// Number of distinct values in `s`.
pub open spec fn distinct_count(s: Seq<i32>) -> nat
    decreases s.len(),
{
    if s.len() == 0 {
        0
    } else if s.drop_last().contains(s.last()) {
        distinct_count(s.drop_last())
    } else {
        distinct_count(s.drop_last()) + 1
    }
}

fn contains_id(v: &Vec<i32>, id: i32, upto: usize) -> (r: bool)
    requires
        upto <= v@.len(),
    ensures
        r == v@.take(upto as int).contains(id),
{
    let mut i: usize = 0;
    while i < upto
        invariant
            i <= upto <= v@.len(),
            forall|k: int| 0 <= k < i ==> v@[k] != id,
        decreases upto - i,
    {
        if v[i] == id {
            assert(v@.take(upto as int)[i as int] == id);
            return true;
        }
        i = i + 1;
    }
    assert forall|k: int| 0 <= k < v@.take(upto as int).len() implies v@.take(upto as int)[k] != id by {
        assert(v@.take(upto as int)[k] == v@[k]);
    }
    false
}

/// Whether a playlist's new song list differs from the old one: the number of
/// distinct old songs differs from the number of new entries, or a new song
/// was not listed before.
pub open spec fn song_list_changed(old_ids: Seq<i32>, new_ids: Seq<i32>) -> bool {
    distinct_count(old_ids) != new_ids.len() || exists|i: int| 0 <= i < new_ids.len() && !old_ids.contains(#[trigger] new_ids[i])
}

/// Whether a playlist's song list changed (see `song_list_changed`).
pub fn is_song_list_changed(old_ids: &Vec<i32>, new_ids: &Vec<i32>) -> (r: bool)
    ensures
        r == song_list_changed(old_ids@, new_ids@),
{
    let mut distinct: usize = 0;
    let mut i: usize = 0;
    while i < old_ids.len()
        invariant
            i <= old_ids@.len(),
            distinct == distinct_count(old_ids@.take(i as int)),
            distinct <= i,
        decreases old_ids@.len() - i,
    {
        let id = old_ids[i];
        let seen = contains_id(old_ids, id, i);
        proof {
            let t = old_ids@.take(i + 1);
            assert(t.drop_last() =~= old_ids@.take(i as int));
            assert(t.last() == id);
        }
        if !seen {
            distinct = distinct + 1;
        }
        i = i + 1;
    }
    assert(old_ids@.take(old_ids@.len() as int) =~= old_ids@);
    if distinct != new_ids.len() {
        return true;
    }
    let mut j: usize = 0;
    while j < new_ids.len()
        invariant
            j <= new_ids@.len(),
            old_ids@.take(old_ids@.len() as int) == old_ids@,
            distinct_count(old_ids@) == new_ids@.len(),
            forall|k: int| 0 <= k < j ==> old_ids@.contains(#[trigger] new_ids@[k]),
        decreases new_ids@.len() - j,
    {
        let found = contains_id(old_ids, new_ids[j], old_ids.len());
        if !found {
            assert(!old_ids@.contains(new_ids@[j as int]));
            return true;
        }
        j = j + 1;
    }
    false
}

/// Song ids in the order they were seen, each once.
pub open spec fn no_duplicates_in(s: Seq<i32>) -> bool {
    forall|a: int, b: int| 0 <= a < b < s.len() ==> s[a] != s[b]
}

/// Adds to `acc` each id of `ids` that `acc` does not hold yet, in order.
pub fn add_song_ids(acc: &mut Vec<i32>, ids: &Vec<i32>)
    requires
        no_duplicates_in(old(acc)@),
    ensures
        no_duplicates_in(final(acc)@),
        forall|x: i32|
            #![trigger final(acc)@.contains(x)]
            #![trigger old(acc)@.contains(x)]
            #![trigger ids@.contains(x)]
            final(acc)@.contains(x) <==> (old(acc)@.contains(x) || ids@.contains(x)),
        final(acc)@.take(old(acc)@.len() as int) == old(acc)@,
{
    let ghost start = acc@;
    let mut j: usize = 0;
    while j < ids.len()
        invariant
            j <= ids@.len(),
            no_duplicates_in(acc@),
            start.len() <= acc@.len(),
            acc@.take(start.len() as int) == start,
            forall|x: i32| #[trigger] acc@.contains(x) <==> (start.contains(x) || ids@.take(j as int).contains(x)),
        decreases ids@.len() - j,
    {
        let id = ids[j];
        let present = contains_id(acc, id, acc.len());
        let ghost before = acc@;
        assert(before.take(before.len() as int) =~= before);
        assert(forall|x: i32| #[trigger] before.contains(x) <==> (start.contains(x) || ids@.take(j as int).contains(x)));
        if !present {
            acc.push(id);
            assert(no_duplicates_in(acc@)) by {
                assert forall|a: int, b: int| 0 <= a < b < acc@.len() implies acc@[a] != acc@[b] by {
                    if b == acc@.len() - 1 {
                        assert(acc@[a] == before[a]);
                        assert(before.contains(before[a]));
                    } else {
                        assert(acc@[a] == before[a] && acc@[b] == before[b]);
                    }
                }
            }
            assert(acc@.take(start.len() as int) =~= start) by {
                assert forall|k: int| 0 <= k < start.len() implies acc@[k] == start[k] by {
                    assert(acc@[k] == before[k]);
                    assert(before.take(start.len() as int)[k] == before[k]);
                }
            }
        }
        assert forall|x: i32| #[trigger] acc@.contains(x) <==> (start.contains(x) || ids@.take(j + 1).contains(x)) by {
            let t = ids@.take(j + 1);
            let p = ids@.take(j as int);
            assert(t =~= p.push(id));
            if acc@.contains(x) {
                let k = choose|k: int| 0 <= k < acc@.len() && acc@[k] == x;
                if k < before.len() {
                    assert(before[k] == x);
                    assert(before.contains(x));
                    if p.contains(x) {
                        let m = choose|m: int| 0 <= m < p.len() && p[m] == x;
                        assert(t[m] == x);
                    }
                } else {
                    assert(x == id);
                    assert(t[j as int] == x);
                }
            }
            if start.contains(x) || t.contains(x) {
                if start.contains(x) || p.contains(x) {
                    assert(before.contains(x));
                    let k = choose|k: int| 0 <= k < before.len() && before[k] == x;
                    assert(acc@[k] == x);
                } else {
                    let m = choose|m: int| 0 <= m < t.len() && t[m] == x;
                    if m < p.len() {
                        assert(p[m] == x);
                        assert(false);
                    }
                    assert(x == id);
                    if present {
                        let k = choose|k: int| 0 <= k < before.len() && before[k] == x;
                        assert(acc@[k] == x);
                    } else {
                        assert(acc@[acc@.len() - 1] == x);
                    }
                }
            }
        }
        j = j + 1;
    }
    assert(ids@.take(ids@.len() as int) =~= ids@);
}

/// Whether `x` is in one of the first `n` lists.
pub open spec fn in_some_list(lists: Seq<Vec<i32>>, n: int, x: i32) -> bool {
    exists|i: int| 0 <= i < n && (#[trigger] lists[i])@.contains(x)
}

/// The song ids of several lists (the songs of a folder playlist's
/// children), each once, in the order they first appear.
pub fn union_song_ids(lists: &Vec<Vec<i32>>) -> (r: Vec<i32>)
    ensures
        no_duplicates_in(r@),
        forall|x: i32| #[trigger] r@.contains(x) <==> in_some_list(lists@, lists@.len() as int, x),
{
    let mut acc: Vec<i32> = Vec::new();
    let mut k: usize = 0;
    while k < lists.len()
        invariant
            k <= lists@.len(),
            no_duplicates_in(acc@),
            forall|x: i32| #[trigger] acc@.contains(x) <==> in_some_list(lists@, k as int, x),
        decreases lists@.len() - k,
    {
        let ghost before = acc@;
        add_song_ids(&mut acc, &lists[k]);
        assert forall|x: i32| #[trigger] acc@.contains(x) <==> in_some_list(lists@, k + 1, x) by {
            if acc@.contains(x) {
                if before.contains(x) {
                    let i = choose|i: int| 0 <= i < k && (#[trigger] lists@[i])@.contains(x);
                    assert(0 <= i < k + 1 && lists@[i]@.contains(x));
                } else {
                    assert(lists@[k as int]@.contains(x));
                }
            }
            if in_some_list(lists@, k + 1, x) {
                let i = choose|i: int| 0 <= i < k + 1 && (#[trigger] lists@[i])@.contains(x);
                if i < k {
                    assert(in_some_list(lists@, k as int, x));
                    assert(before.contains(x));
                } else {
                    assert(lists@[k as int]@.contains(x));
                }
            }
        }
        k = k + 1;
    }
    acc
}

/// One entry of a playlist's song list: position and song.
pub struct PlaylistSongEntry {
    pub order: i32,
    pub song_id: i32,
}

/// The entries that store `ids` as a playlist's song list: the i-th song at
/// position i.
pub fn playlist_song_entries(ids: &Vec<i32>) -> (r: Vec<PlaylistSongEntry>)
    ensures
        r@.len() == ids@.len(),
        forall|k: int| 0 <= k < ids@.len() ==> (#[trigger] r@[k]).song_id == ids@[k] && r@[k].order == k as i32,
{
    let mut r: Vec<PlaylistSongEntry> = Vec::new();
    let mut i: usize = 0;
    while i < ids.len()
        invariant
            i <= ids@.len(),
            r@.len() == i,
            forall|k: int| 0 <= k < i ==> (#[trigger] r@[k]).song_id == ids@[k] && r@[k].order == k as i32,
        decreases ids@.len() - i,
    {
        r.push(PlaylistSongEntry { order: i as i32, song_id: ids[i] });
        i = i + 1;
    }
    r
}

/// The song list of a playlist without one song, in the same order.
pub open spec fn without_song(songs: Seq<i32>, song_id: i32) -> Seq<i32>
    decreases songs.len(),
{
    if songs.len() == 0 {
        seq![]
    } else if songs.last() == song_id {
        without_song(songs.drop_last(), song_id)
    } else {
        without_song(songs.drop_last(), song_id).push(songs.last())
    }
}

/// The song list of a playlist without one song, in the same order.
pub fn songs_without(songs: &Vec<i32>, song_id: i32) -> (r: Vec<i32>)
    ensures
        r@ == without_song(songs@, song_id),
{
    let mut r: Vec<i32> = Vec::new();
    let mut i: usize = 0;
    while i < songs.len()
        invariant
            i <= songs@.len(),
            r@ == without_song(songs@.take(i as int), song_id),
        decreases songs@.len() - i,
    {
        proof {
            let t = songs@.take(i + 1);
            assert(t.drop_last() =~= songs@.take(i as int));
            assert(t.last() == songs@[i as int]);
        }
        if songs[i] != song_id {
            r.push(songs[i]);
        }
        i = i + 1;
    }
    assert(songs@.take(songs@.len() as int) =~= songs@);
    r
}

/// A song left out of a playlist is in none of its places, and every other
/// song keeps its places, in the same order.
pub proof fn law_without_song(songs: Seq<i32>, song_id: i32)
    ensures
        !without_song(songs, song_id).contains(song_id),
        forall|x: i32|
            #![trigger without_song(songs, song_id).contains(x)]
            #![trigger songs.contains(x)]
            x != song_id ==> (without_song(songs, song_id).contains(x) <==> songs.contains(x)),
        without_song(songs, song_id).len() <= songs.len(),
        !songs.contains(song_id) ==> without_song(songs, song_id) == songs,
    decreases songs.len(),
{
    if songs.len() > 0 {
        let p = songs.drop_last();
        law_without_song(p, song_id);
        let w = without_song(p, song_id);
        assert forall|x: i32| songs.contains(x) <==> (p.contains(x) || x == songs.last()) by {
            if songs.contains(x) {
                let k = choose|k: int| 0 <= k < songs.len() && songs[k] == x;
                if k < p.len() {
                    assert(p[k] == x);
                }
            }
            if p.contains(x) {
                let k = choose|k: int| 0 <= k < p.len() && p[k] == x;
                assert(songs[k] == x);
            }
            if x == songs.last() {
                assert(songs[songs.len() - 1] == x);
            }
        }
        if songs.last() != song_id {
            let v = w.push(songs.last());
            assert forall|x: i32| v.contains(x) <==> (w.contains(x) || x == songs.last()) by {
                if v.contains(x) {
                    let k = choose|k: int| 0 <= k < v.len() && v[k] == x;
                    if k < w.len() {
                        assert(w[k] == x);
                    }
                }
                if w.contains(x) {
                    let k = choose|k: int| 0 <= k < w.len() && w[k] == x;
                    assert(v[k] == x);
                }
                if x == songs.last() {
                    assert(v[v.len() - 1] == x);
                }
            }
            if !songs.contains(song_id) {
                assert(v =~= songs);
            }
        } else {
            assert(songs.contains(song_id)) by {
                assert(songs[songs.len() - 1] == song_id);
            }
        }
    }
}

/// The entries that store a playlist's songs without one song: the others,
/// in the same order, numbered from 0.
fn entries_without(songs: &Vec<i32>, song_id: i32) -> (r: Vec<PlaylistSongEntry>)
    ensures
        r@.len() == without_song(songs@, song_id).len(),
        forall|k: int|
            0 <= k < r@.len() ==> (#[trigger] r@[k]).song_id == without_song(songs@, song_id)[k] && r@[k].order
                == k as i32,
{
    let kept = songs_without(songs, song_id);
    playlist_song_entries(&kept)
}

/// The playlist operations that remove a song from every playlist.
pub struct DbPlaylistSongRepositoryImpl {}

impl DbPlaylistSongRepositoryImpl {
    /// The operations, which hold no state.
    pub fn new() -> (r: Self) {
        DbPlaylistSongRepositoryImpl {}
    }

    /// The entries that store a playlist's songs once `song_id` is removed:
    /// the other songs, in the same order, numbered from 0.
    pub fn entries_without_song(&self, songs: &Vec<i32>, song_id: i32) -> (r: Vec<PlaylistSongEntry>)
        ensures
            r@.len() == without_song(songs@, song_id).len(),
            forall|k: int|
                0 <= k < r@.len() ==> (#[trigger] r@[k]).song_id == without_song(songs@, song_id)[k] && r@[k].order
                    == k as i32,
    {
        entries_without(songs, song_id)
    }
}

/// The playlist operations that remove a track from every playlist.
pub struct DbPlaylistTrackRepositoryImpl {}

impl DbPlaylistTrackRepositoryImpl {
    /// The operations, which hold no state.
    pub fn new() -> (r: Self) {
        DbPlaylistTrackRepositoryImpl {}
    }

    /// The entries that store a playlist's tracks once `track_id` is
    /// removed: the other tracks, in the same order, numbered from 0.
    pub fn entries_without_track(&self, tracks: &Vec<i32>, track_id: i32) -> (r: Vec<PlaylistSongEntry>)
        ensures
            r@.len() == without_song(tracks@, track_id).len(),
            forall|k: int|
                0 <= k < r@.len() ==> (#[trigger] r@[k]).song_id == without_song(tracks@, track_id)[k] && r@[k].order
                    == k as i32,
    {
        entries_without(tracks, track_id)
    }
}

// ---------------------------------------------------------------------------
// Listing a playlist's songs
// ---------------------------------------------------------------------------

/// Whether a playlist's song list is refreshed before its songs are read:
/// when it is not listed yet.
pub fn needs_listup(plist: &Playlist) -> (r: bool)
    ensures
        r == !plist.listuped_flag,
{
    !plist.listuped_flag
}

/// How the songs of a playlist are found when its list is refreshed.
pub enum SongSearch {
    /// A normal playlist keeps its stored songs.
    Unchanged,
    /// A filter playlist takes the song ids that this query returns.
    ByFilter(String),
    /// A folder playlist gathers the songs of its child playlists.
    ByChildren,
}

/// How the songs of `plist` are found: a normal playlist keeps its songs, a
/// folder playlist gathers its children's, and a filter playlist runs its
/// filter's query (a filter playlist without a filter, or with a filter that
/// gives no query, is an error).
pub fn song_search(plist: &Playlist) -> (r: Result<SongSearch, Error>)
    ensures
        plist.playlist_type == PlaylistType::Normal ==> r == Ok::<SongSearch, Error>(SongSearch::Unchanged),
        plist.playlist_type == PlaylistType::Folder ==> r == Ok::<SongSearch, Error>(SongSearch::ByChildren),
        plist.playlist_type == PlaylistType::Filter && plist.filter is None ==> r == Err::<SongSearch, Error>(
            Error::FilterPlaylistHasNoFilter { plist_id: plist.rowid },
        ),
        plist.playlist_type == PlaylistType::Filter ==> (plist.filter matches Some(f) ==> {
            &&& (r is Ok <==> where_clause(f) is Ok)
            &&& r is Ok ==> (r matches Ok(SongSearch::ByFilter(q)) && where_clause(f) matches Ok(w) && q@
                == song_id_query_text(w))
            &&& r matches Err(e) ==> where_clause(f) == Err::<Seq<char>, Error>(e)
        }),
{
    match plist.playlist_type {
        PlaylistType::Normal => Ok(SongSearch::Unchanged),
        PlaylistType::Folder => Ok(SongSearch::ByChildren),
        PlaylistType::Filter => match playlist_filter_query(plist) {
            Ok(q) => Ok(SongSearch::ByFilter(q)),
            Err(e) => Err(e),
        },
    }
}

/// What refreshing a playlist's song list writes to the store, besides
/// marking the playlist as listed.
pub struct SongListUpdate {
    /// The new song entries, replacing the stored ones; `None` keeps them.
    pub entries: Option<Vec<PlaylistSongEntry>>,
    /// Whether the playlist is marked as changed since it was last copied to
    /// the player.
    pub mark_dap_changed: bool,
}

/// What refreshing the list of a playlist of type `playlist_type` writes,
/// given its stored songs `old_ids` and the songs found now `new_ids`: a
/// normal playlist writes nothing; any other stores the new songs in order
/// and is marked changed when the list changed.
pub fn listup_update(playlist_type: PlaylistType, old_ids: &Vec<i32>, new_ids: &Vec<i32>) -> (r: SongListUpdate)
    ensures
        playlist_type == PlaylistType::Normal ==> r.entries is None && !r.mark_dap_changed,
        playlist_type != PlaylistType::Normal ==> {
            &&& r.entries matches Some(es) && es@.len() == new_ids@.len() && forall|k: int|
                0 <= k < new_ids@.len() ==> (#[trigger] es@[k]).song_id == new_ids@[k] && es@[k].order == k as i32
            &&& r.mark_dap_changed == song_list_changed(old_ids@, new_ids@)
        },
{
    if playlist_type == PlaylistType::Normal {
        SongListUpdate { entries: None, mark_dap_changed: false }
    } else {
        let entries = playlist_song_entries(new_ids);
        let changed = is_song_list_changed(old_ids, new_ids);
        SongListUpdate { entries: Some(entries), mark_dap_changed: changed }
    }
}

/// A refreshed list equal to the stored one, with no song twice, does not
/// mark the playlist as changed; one that gained a song does.
pub proof fn law_unchanged_list_not_marked(ids: Seq<i32>, other: Seq<i32>, extra: i32)
    requires
        no_duplicates_in(ids),
    ensures
        !song_list_changed(ids, ids),
        !ids.contains(extra) ==> song_list_changed(ids, ids.push(extra)),
{
    lemma_distinct_count_unique(ids);
    if !ids.contains(extra) {
        let n = ids.push(extra);
        assert(n[n.len() - 1] == extra);
        assert(!ids.contains(n[n.len() - 1]));
    }
}

proof fn lemma_distinct_count_unique(s: Seq<i32>)
    requires
        no_duplicates_in(s),
    ensures
        distinct_count(s) == s.len(),
    decreases s.len(),
{
    if s.len() > 0 {
        let p = s.drop_last();
        assert(no_duplicates_in(p)) by {
            assert forall|a: int, b: int| 0 <= a < b < p.len() implies p[a] != p[b] by {
                assert(p[a] == s[a] && p[b] == s[b]);
            }
        }
        lemma_distinct_count_unique(p);
        if p.contains(s.last()) {
            let k = choose|k: int| 0 <= k < p.len() && p[k] == s.last();
            assert(s[k] == s[s.len() - 1]);
        }
    }
}

// ---------------------------------------------------------------------------
// What the orderings mean
// ---------------------------------------------------------------------------

/// The column that a sort type orders by first: the song attribute it names
/// (the playlist position for a playlist sort, the entry date for an
/// entry-date sort).
pub open spec fn sort_key(sort_type: SortType) -> Seq<char> {
    match sort_type {
        SortType::SongName => "title_order"@,
        SortType::Artist => "artist_order"@,
        SortType::Album => "album_order"@,
        SortType::Genre => "genre"@,
        SortType::Playlist => "[playlist_index]"@,
        SortType::Composer => "composer_order"@,
        SortType::Duration => "duration"@,
        SortType::TrackIndex => "track_number"@,
        SortType::DiscIndex => "disc_number"@,
        SortType::ReleaseDate => "release_date"@,
        SortType::Rating => "rating"@,
        SortType::EntryDate => "created_at"@,
        SortType::Path => "path"@,
    }
}

/// The columns that break ties among songs of equal key when sorting by a
/// song attribute: artist, album, disc, track, title, and last the track id.
pub open spec fn attribute_ties() -> Seq<Seq<char>> {
    seq!["artist_order"@, "album_order"@, "disc_number"@, "track_number"@, "title_order"@, "tracks.id"@]
}

/// The columns a sort type orders by, in order: its key, then what breaks
/// ties. Sorting by a song attribute breaks ties by the attribute ties
/// (without the key itself); by title, by the track id; by duration, by title
/// and track id; by entry date, by path; a path or playlist-position sort
/// needs nothing more.
pub open spec fn sort_column_list(sort_type: SortType) -> Seq<Seq<char>> {
    let key = seq![sort_key(sort_type)];
    match sort_type {
        SortType::SongName => key + seq!["tracks.id"@],
        SortType::Duration => key + seq!["title_order"@, "tracks.id"@],
        SortType::EntryDate => key + seq!["path"@],
        SortType::Path | SortType::Playlist => key,
        SortType::Artist => key + attribute_ties().remove(0),
        SortType::Album => key + attribute_ties().remove(1),
        SortType::DiscIndex => key + attribute_ties().remove(2),
        SortType::TrackIndex => key + attribute_ties().remove(3),
        SortType::Genre | SortType::Composer | SortType::ReleaseDate | SortType::Rating => key + attribute_ties(),
    }
}

/// Columns listed for ORDER BY, each ascending, separated by commas.
pub open spec fn ascending_list(cols: Seq<Seq<char>>) -> Seq<char> {
    crate::error::joined(cols.map_values(|c: Seq<char>| c + " ASC"@), ", "@)
}

/// Every sort type orders first by its own key, ascending, and breaks ties
/// as `sort_column_list` says: the ORDER BY columns of a sort type are exactly
/// those columns, each ascending.
pub proof fn law_sort_columns(sort_type: SortType)
    ensures
        sort_columns(sort_type) == ascending_list(sort_column_list(sort_type)),
        sort_column_list(sort_type)[0] == sort_key(sort_type),
{
    reveal_strlit(" ASC");
    reveal_strlit(", ");
    reveal_strlit("[playlist_index]");
    reveal_strlit("album_order");
    reveal_strlit("artist_order");
    reveal_strlit("composer_order");
    reveal_strlit("created_at");
    reveal_strlit("disc_number");
    reveal_strlit("duration");
    reveal_strlit("genre");
    reveal_strlit("path");
    reveal_strlit("rating");
    reveal_strlit("release_date");
    reveal_strlit("title_order");
    reveal_strlit("track_number");
    reveal_strlit("tracks.id");
    reveal_with_fuel(crate::error::joined, 8);
    match sort_type {
        SortType::SongName => {
            reveal_strlit("title_order ASC, tracks.id ASC");
            assert(ascending_list(sort_column_list(sort_type)) =~= sort_columns(sort_type));
        },
        SortType::Artist => {
            reveal_strlit("artist_order ASC, album_order ASC, disc_number ASC, track_number ASC, title_order ASC, tracks.id ASC");
            assert(ascending_list(sort_column_list(sort_type)) =~= sort_columns(sort_type));
        },
        SortType::Album => {
            reveal_strlit("album_order ASC, artist_order ASC, disc_number ASC, track_number ASC, title_order ASC, tracks.id ASC");
            assert(ascending_list(sort_column_list(sort_type)) =~= sort_columns(sort_type));
        },
        SortType::Genre => {
            reveal_strlit("genre ASC, artist_order ASC, album_order ASC, disc_number ASC, track_number ASC, title_order ASC, tracks.id ASC");
            assert(ascending_list(sort_column_list(sort_type)) =~= sort_columns(sort_type));
        },
        SortType::Playlist => {
            reveal_strlit("[playlist_index] ASC");
            assert(ascending_list(sort_column_list(sort_type)) =~= sort_columns(sort_type));
        },
        SortType::Composer => {
            reveal_strlit("composer_order ASC, artist_order ASC, album_order ASC, disc_number ASC, track_number ASC, title_order ASC, tracks.id ASC");
            assert(ascending_list(sort_column_list(sort_type)) =~= sort_columns(sort_type));
        },
        SortType::Duration => {
            reveal_strlit("duration ASC, title_order ASC, tracks.id ASC");
            assert(ascending_list(sort_column_list(sort_type)) =~= sort_columns(sort_type));
        },
        SortType::TrackIndex => {
            reveal_strlit("track_number ASC, artist_order ASC, album_order ASC, disc_number ASC, title_order ASC, tracks.id ASC");
            assert(ascending_list(sort_column_list(sort_type)) =~= sort_columns(sort_type));
        },
        SortType::DiscIndex => {
            reveal_strlit("disc_number ASC, artist_order ASC, album_order ASC, track_number ASC, title_order ASC, tracks.id ASC");
            assert(ascending_list(sort_column_list(sort_type)) =~= sort_columns(sort_type));
        },
        SortType::ReleaseDate => {
            reveal_strlit("release_date ASC, artist_order ASC, album_order ASC, disc_number ASC, track_number ASC, title_order ASC, tracks.id ASC");
            assert(ascending_list(sort_column_list(sort_type)) =~= sort_columns(sort_type));
        },
        SortType::Rating => {
            reveal_strlit("rating ASC, artist_order ASC, album_order ASC, disc_number ASC, track_number ASC, title_order ASC, tracks.id ASC");
            assert(ascending_list(sort_column_list(sort_type)) =~= sort_columns(sort_type));
        },
        SortType::EntryDate => {
            reveal_strlit("created_at ASC, path ASC");
            assert(ascending_list(sort_column_list(sort_type)) =~= sort_columns(sort_type));
        },
        SortType::Path => {
            reveal_strlit("path ASC");
            assert(ascending_list(sort_column_list(sort_type)) =~= sort_columns(sort_type));
        },
    }
}

/// Sorting descending keeps the key first and reverses every column.
pub proof fn law_descending_keeps_key(sort_type: SortType)
    ensures
        order_clause(sort_type, false) == " ORDER BY "@ + ascending_list(sort_column_list(sort_type)),
{
    law_sort_columns(sort_type);
}

// ---------------------------------------------------------------------------
// What a changed song list is
// ---------------------------------------------------------------------------

/// A refreshed list holding a song that was not listed before is a changed list.
pub proof fn law_new_song_changes_list(old_ids: Seq<i32>, new_ids: Seq<i32>, i: int)
    requires
        0 <= i < new_ids.len(),
        !old_ids.contains(new_ids[i]),
    ensures
        song_list_changed(old_ids, new_ids),
{
}

proof fn lemma_distinct_count_is_set_len(s: Seq<i32>)
    ensures
        distinct_count(s) == s.to_set().len(),
        s.to_set().finite(),
    decreases s.len(),
{
    broadcast use vstd::set::group_set_axioms;
    broadcast use vstd::seq_lib::seq_to_set_is_finite;
    if s.len() == 0 {
        assert(s.to_set() =~= Set::<i32>::empty());
    } else {
        let p = s.drop_last();
        lemma_distinct_count_is_set_len(p);
        assert(p.push(s.last()) =~= s);
        p.lemma_push_to_set_commute(s.last());
        if p.contains(s.last()) {
            assert(p.to_set().contains(s.last()));
            assert(p.to_set().insert(s.last()) =~= p.to_set());
        } else {
            assert(!p.to_set().contains(s.last()));
        }
    }
}

/// For a refreshed list with no song twice, the playlist is marked changed
/// exactly when the set of its songs differs from the set stored before.
pub proof fn law_song_list_changed_sets(old_ids: Seq<i32>, new_ids: Seq<i32>)
    requires
        no_duplicates_in(new_ids),
    ensures
        song_list_changed(old_ids, new_ids) <==> old_ids.to_set() != new_ids.to_set(),
{
    broadcast use vstd::set::group_set_axioms;
    broadcast use vstd::seq_lib::seq_to_set_is_finite;
    lemma_distinct_count_is_set_len(old_ids);
    assert(new_ids.no_duplicates()) by {
        assert forall|i: int, j: int| 0 <= i < new_ids.len() && 0 <= j < new_ids.len() && i != j implies new_ids[i]
            != new_ids[j] by {
            if i < j {
            } else {
            }
        }
    }
    new_ids.unique_seq_to_set();
    if !song_list_changed(old_ids, new_ids) {
        assert(new_ids.to_set().subset_of(old_ids.to_set())) by {
            assert forall|x: i32| new_ids.to_set().contains(x) implies old_ids.to_set().contains(x) by {
                let i = choose|i: int| 0 <= i < new_ids.len() && new_ids[i] == x;
                assert(old_ids.contains(new_ids[i]));
            }
        }
        vstd::set_lib::lemma_subset_equality(new_ids.to_set(), old_ids.to_set());
    }
    if old_ids.to_set() == new_ids.to_set() {
        assert forall|i: int| 0 <= i < new_ids.len() implies old_ids.contains(#[trigger] new_ids[i]) by {
            assert(new_ids.to_set().contains(new_ids[i]));
        }
    }
}

// ---------------------------------------------------------------------------
// What removing a song keeps
// ---------------------------------------------------------------------------

/// Removing a song keeps exactly the other songs, in their order: the list
/// without it is the list filtered by "is not that song".
pub proof fn law_without_song_keeps_order(songs: Seq<i32>, song_id: i32)
    ensures
        without_song(songs, song_id) == songs.filter(|x: i32| x != song_id),
    decreases songs.len(),
{
    reveal(Seq::filter);
    if songs.len() > 0 {
        law_without_song_keeps_order(songs.drop_last(), song_id);
    }
}

} // verus!
