//! Songs: the values read from a song file's tags, the row written when a
//! song is registered or its tags are saved, and the queries that list the
//! songs of a directory.

use vstd::prelude::*;
use chrono::NaiveDate;
use crate::artwork::TrackArtwork;
use crate::converts::{folder_id_column, DbOptionString};
use crate::error::Error;
use crate::folder::{LibDirPath, LibSongPath};
use crate::model::FolderIdMayRoot;
use crate::text::{
    is_like_special, law_like_escape_reversible, like_escape, like_escape_needed, like_escaped, like_needs_escape,
    like_unescaped,
};

verus! {

broadcast use vstd::string::group_string_axioms;

/// A calendar date (`chrono::NaiveDate`), carried through as it is.
#[verifier::external_type_specification]
#[verifier::external_body]
pub struct ExNaiveDate(chrono::NaiveDate);

/// Whether two optional dates are the same (`PartialEq` of
/// `Option<chrono::NaiveDate>`). The date type compares its single packed
/// integer field, so equal dates are the same value.
#[verifier::external_body]
fn same_date(a: &Option<NaiveDate>, b: &Option<NaiveDate>) -> (r: bool)
    ensures
        r == (*a == *b),
{
    *a == *b
}

// ---------------------------------------------------------------------------
// Numbers between the tags and the store
// ---------------------------------------------------------------------------

/// A duration in milliseconds as the store keeps it: a signed 32-bit column;
/// a duration beyond its range is an error.
pub fn duration_to_column(duration: u32) -> (r: Result<i32, Error>)
    ensures
        duration <= i32::MAX ==> r == Ok::<i32, Error>(duration as i32),
        duration > i32::MAX ==> r == Err::<i32, Error>(Error::OutOfRange { value: duration as i64 }),
{
    if duration <= 2147483647u32 {
        Ok(duration as i32)
    } else {
        Err(Error::OutOfRange { value: duration as i64 })
    }
}

/// A stored duration read back as milliseconds; a negative one is an error.
pub fn duration_from_column(duration: i32) -> (r: Result<u32, Error>)
    ensures
        duration >= 0 ==> r == Ok::<u32, Error>(duration as u32),
        duration < 0 ==> r == Err::<u32, Error>(Error::OutOfRange { value: duration as i64 }),
{
    if duration >= 0 {
        Ok(duration as u32)
    } else {
        Err(Error::OutOfRange { value: duration as i64 })
    }
}

/// A duration that fits the column is read back unchanged.
pub proof fn law_duration_roundtrip(duration: u32)
    requires
        duration <= i32::MAX,
    ensures
        (duration as i32) >= 0,
        (duration as i32) as u32 == duration,
{
}

// ---------------------------------------------------------------------------
// Song values
// ---------------------------------------------------------------------------

/// The text of an optional value, the empty text for `None`.
pub open spec fn opt_text(o: Option<String>) -> Seq<char> {
    match o {
        Some(s) => s@,
        None => Seq::empty(),
    }
}

/// The text of an optional value, the empty text for `None`.
pub fn text_or_empty(o: &Option<String>) -> (r: String)
    ensures
        r@ == opt_text(*o),
{
    match o {
        Some(s) => s.clone(),
        None => String::new(),
    }
}

/// The values of a song that come from its file's tags.
pub struct SongSync {
    /// Length in milliseconds.
    pub duration: u32,
    pub title: Option<String>,
    pub artist: Option<String>,
    pub album: Option<String>,
    pub genre: Option<String>,
    pub album_artist: Option<String>,
    pub composer: Option<String>,
    pub track_number: Option<i32>,
    pub track_max: Option<i32>,
    pub disc_number: Option<i32>,
    pub disc_max: Option<i32>,
    pub release_date: Option<NaiveDate>,
    pub memo: Option<String>,
    pub lyrics: Option<String>,
    pub artworks: Vec<TrackArtwork>,
}

/// The texts by which songs are sorted, derived from their tags by the
/// domain layer (`None` where the tag is missing).
pub struct SongSortKeys {
    pub title_order: Option<String>,
    pub artist_order: Option<String>,
    pub album_order: Option<String>,
    pub album_artist_order: Option<String>,
    pub composer_order: Option<String>,
    pub genre_order: Option<String>,
}

/// A stored song's tag values, with its id and path.
pub struct DbSongSync {
    pub id: i32,
    pub path: LibSongPath,
    pub song_sync: SongSync,
}

/// The row written when a song is registered.
pub struct SongEntry {
    /// Length in milliseconds.
    pub duration: i32,
    pub path: String,
    pub folder_id: Option<i32>,
    pub title: String,
    pub artist: String,
    pub album: String,
    pub genre: String,
    pub album_artist: String,
    pub composer: String,
    pub track_number: Option<i32>,
    pub track_max: Option<i32>,
    pub disc_number: Option<i32>,
    pub disc_max: Option<i32>,
    pub release_date: Option<NaiveDate>,
    pub rating: i16,
    pub original_song: String,
    pub suggest_target: bool,
    pub memo: String,
    pub memo_manage: String,
    pub lyrics: String,
    pub title_order: String,
    pub artist_order: String,
    pub album_order: String,
    pub album_artist_order: String,
    pub composer_order: String,
    pub genre_order: String,
}

/// The tag values written when a stored song's tags are saved (artworks
/// are saved apart).
pub struct SongSyncEntry {
    /// Length in milliseconds.
    pub duration: i32,
    pub title: String,
    pub artist: String,
    pub album: String,
    pub genre: String,
    pub album_artist: String,
    pub composer: String,
    pub track_number: Option<i32>,
    pub track_max: Option<i32>,
    pub disc_number: Option<i32>,
    pub disc_max: Option<i32>,
    pub release_date: Option<NaiveDate>,
    pub memo: String,
    pub lyrics: String,
    pub title_order: String,
    pub artist_order: String,
    pub album_order: String,
    pub album_artist_order: String,
    pub composer_order: String,
    pub genre_order: String,
}

/// The tag columns of a stored song, as read back.
pub struct SongSyncRow {
    pub id: i32,
    /// Length in milliseconds.
    pub duration: i32,
    pub title: DbOptionString,
    pub artist: DbOptionString,
    pub album: DbOptionString,
    pub genre: DbOptionString,
    pub album_artist: DbOptionString,
    pub composer: DbOptionString,
    pub track_number: Option<i32>,
    pub track_max: Option<i32>,
    pub disc_number: Option<i32>,
    pub disc_max: Option<i32>,
    pub release_date: Option<NaiveDate>,
    pub memo: DbOptionString,
    pub lyrics: DbOptionString,
}

/// A stored song row.
pub struct SongRow {
    pub id: i32,
    /// Length in milliseconds.
    pub duration: i32,
    pub path: String,
    pub folder_id: Option<i32>,
    pub title: DbOptionString,
    pub artist: DbOptionString,
    pub album: DbOptionString,
    pub genre: DbOptionString,
    pub album_artist: DbOptionString,
    pub composer: DbOptionString,
    pub track_number: Option<i32>,
    pub track_max: Option<i32>,
    pub disc_number: Option<i32>,
    pub disc_max: Option<i32>,
    pub release_date: Option<NaiveDate>,
    pub memo: DbOptionString,
    pub rating: i16,
    pub original_track: DbOptionString,
    pub suggest_target: bool,
    pub memo_manage: DbOptionString,
    pub lyrics: DbOptionString,
    pub title_order: String,
    pub artist_order: String,
    pub album_order: String,
    pub genre_order: String,
    pub album_artist_order: String,
    pub composer_order: String,
}

/// Whether `e` is the row that registers a song at `path` in folder
/// `folder_id` with tags `sync` and sort keys `keys`: missing texts are
/// stored empty, the rating is 0, the song is a suggestion target, and the
/// original song and the managing memo are empty.
pub open spec fn is_register_entry(
    e: SongEntry,
    path: Seq<char>,
    sync: SongSync,
    keys: SongSortKeys,
    folder_id: FolderIdMayRoot,
) -> bool {
    &&& e.duration == sync.duration
    &&& e.path@ == path
    &&& e.folder_id == folder_id_column(folder_id)
    &&& e.title@ == opt_text(sync.title)
    &&& e.artist@ == opt_text(sync.artist)
    &&& e.album@ == opt_text(sync.album)
    &&& e.genre@ == opt_text(sync.genre)
    &&& e.album_artist@ == opt_text(sync.album_artist)
    &&& e.composer@ == opt_text(sync.composer)
    &&& e.track_number == sync.track_number
    &&& e.track_max == sync.track_max
    &&& e.disc_number == sync.disc_number
    &&& e.disc_max == sync.disc_max
    &&& e.release_date == sync.release_date
    &&& e.rating == 0
    &&& e.original_song@ == Seq::<char>::empty()
    &&& e.suggest_target
    &&& e.memo@ == opt_text(sync.memo)
    &&& e.memo_manage@ == Seq::<char>::empty()
    &&& e.lyrics@ == opt_text(sync.lyrics)
    &&& e.title_order@ == opt_text(keys.title_order)
    &&& e.artist_order@ == opt_text(keys.artist_order)
    &&& e.album_order@ == opt_text(keys.album_order)
    &&& e.album_artist_order@ == opt_text(keys.album_artist_order)
    &&& e.composer_order@ == opt_text(keys.composer_order)
    &&& e.genre_order@ == opt_text(keys.genre_order)
}

/// Whether `e` holds the values that save a song's tags `sync` with sort
/// keys `keys`: missing texts are stored empty.
pub open spec fn is_sync_entry(e: SongSyncEntry, sync: SongSync, keys: SongSortKeys) -> bool {
    &&& e.duration == sync.duration
    &&& e.title@ == opt_text(sync.title)
    &&& e.artist@ == opt_text(sync.artist)
    &&& e.album@ == opt_text(sync.album)
    &&& e.genre@ == opt_text(sync.genre)
    &&& e.album_artist@ == opt_text(sync.album_artist)
    &&& e.composer@ == opt_text(sync.composer)
    &&& e.track_number == sync.track_number
    &&& e.track_max == sync.track_max
    &&& e.disc_number == sync.disc_number
    &&& e.disc_max == sync.disc_max
    &&& e.release_date == sync.release_date
    &&& e.memo@ == opt_text(sync.memo)
    &&& e.lyrics@ == opt_text(sync.lyrics)
    &&& e.title_order@ == opt_text(keys.title_order)
    &&& e.artist_order@ == opt_text(keys.artist_order)
    &&& e.album_order@ == opt_text(keys.album_order)
    &&& e.album_artist_order@ == opt_text(keys.album_artist_order)
    &&& e.composer_order@ == opt_text(keys.composer_order)
    &&& e.genre_order@ == opt_text(keys.genre_order)
}

/// The optional value that a stored text stands for: `None` for the empty text.
pub open spec fn stored_option(s: Seq<char>) -> Option<Seq<char>> {
    if s.len() == 0 {
        None
    } else {
        Some(s)
    }
}

/// The view of an optional text.
pub open spec fn opt_view(o: Option<String>) -> Option<Seq<char>> {
    match o {
        Some(s) => Some(s@),
        None => None,
    }
}

/// Whether `s` holds the tag values of the stored tag columns `row`: empty
/// texts are missing values, the duration is the stored one.
pub open spec fn is_sync_of_row(s: SongSync, row: SongSyncRow) -> bool {
    &&& s.duration == row.duration
    &&& opt_view(s.title) == stored_option(row.title.0@)
    &&& opt_view(s.artist) == stored_option(row.artist.0@)
    &&& opt_view(s.album) == stored_option(row.album.0@)
    &&& opt_view(s.genre) == stored_option(row.genre.0@)
    &&& opt_view(s.album_artist) == stored_option(row.album_artist.0@)
    &&& opt_view(s.composer) == stored_option(row.composer.0@)
    &&& s.track_number == row.track_number
    &&& s.track_max == row.track_max
    &&& s.disc_number == row.disc_number
    &&& s.disc_max == row.disc_max
    &&& s.release_date == row.release_date
    &&& opt_view(s.memo) == stored_option(row.memo.0@)
    &&& opt_view(s.lyrics) == stored_option(row.lyrics.0@)
}

/// Whether the stored tag columns `row` hold what the registration row `e` wrote.
pub open spec fn columns_hold(row: SongSyncRow, e: SongEntry) -> bool {
    &&& row.duration == e.duration
    &&& row.title.0@ == e.title@
    &&& row.artist.0@ == e.artist@
    &&& row.album.0@ == e.album@
    &&& row.genre.0@ == e.genre@
    &&& row.album_artist.0@ == e.album_artist@
    &&& row.composer.0@ == e.composer@
    &&& row.track_number == e.track_number
    &&& row.track_max == e.track_max
    &&& row.disc_number == e.disc_number
    &&& row.disc_max == e.disc_max
    &&& row.release_date == e.release_date
    &&& row.memo.0@ == e.memo@
    &&& row.lyrics.0@ == e.lyrics@
}

/// Whether no present text tag of `s` is the empty text.
pub open spec fn no_empty_text(s: SongSync) -> bool {
    &&& !(s.title matches Some(t) && t@.len() == 0)
    &&& !(s.artist matches Some(t) && t@.len() == 0)
    &&& !(s.album matches Some(t) && t@.len() == 0)
    &&& !(s.genre matches Some(t) && t@.len() == 0)
    &&& !(s.album_artist matches Some(t) && t@.len() == 0)
    &&& !(s.composer matches Some(t) && t@.len() == 0)
    &&& !(s.memo matches Some(t) && t@.len() == 0)
    &&& !(s.lyrics matches Some(t) && t@.len() == 0)
}

/// Whether two songs have the same tag values (artworks aside).
pub open spec fn same_tags(a: SongSync, b: SongSync) -> bool {
    &&& a.duration == b.duration
    &&& opt_view(a.title) == opt_view(b.title)
    &&& opt_view(a.artist) == opt_view(b.artist)
    &&& opt_view(a.album) == opt_view(b.album)
    &&& opt_view(a.genre) == opt_view(b.genre)
    &&& opt_view(a.album_artist) == opt_view(b.album_artist)
    &&& opt_view(a.composer) == opt_view(b.composer)
    &&& a.track_number == b.track_number
    &&& a.track_max == b.track_max
    &&& a.disc_number == b.disc_number
    &&& a.disc_max == b.disc_max
    &&& a.release_date == b.release_date
    &&& opt_view(a.memo) == opt_view(b.memo)
    &&& opt_view(a.lyrics) == opt_view(b.lyrics)
}

/// The tags a song reads back with after it was registered, from the tags
/// `sync` it was registered with: the same values, except that a present text
/// tag that is empty reads back as no value.
pub open spec fn read_back_tags(back: SongSync, sync: SongSync) -> bool {
    &&& back.duration == sync.duration
    &&& opt_view(back.title) == stored_option(opt_text(sync.title))
    &&& opt_view(back.artist) == stored_option(opt_text(sync.artist))
    &&& opt_view(back.album) == stored_option(opt_text(sync.album))
    &&& opt_view(back.genre) == stored_option(opt_text(sync.genre))
    &&& opt_view(back.album_artist) == stored_option(opt_text(sync.album_artist))
    &&& opt_view(back.composer) == stored_option(opt_text(sync.composer))
    &&& back.track_number == sync.track_number
    &&& back.track_max == sync.track_max
    &&& back.disc_number == sync.disc_number
    &&& back.disc_max == sync.disc_max
    &&& back.release_date == sync.release_date
    &&& opt_view(back.memo) == stored_option(opt_text(sync.memo))
    &&& opt_view(back.lyrics) == stored_option(opt_text(sync.lyrics))
}

/// A registered song reads back with the tags it was registered with: when
/// the stored tag columns hold what the registration row wrote, the tags read
/// from them are the registered ones, except that an empty text tag reads
/// back as no value; with no empty text tag they are exactly the registered ones.
pub proof fn law_registered_song_reads_back(
    e: SongEntry,
    path: Seq<char>,
    sync: SongSync,
    keys: SongSortKeys,
    folder_id: FolderIdMayRoot,
    row: SongSyncRow,
    back: SongSync,
)
    requires
        is_register_entry(e, path, sync, keys, folder_id),
        columns_hold(row, e),
        is_sync_of_row(back, row),
    ensures
        read_back_tags(back, sync),
        no_empty_text(sync) ==> same_tags(back, sync),
{
}

/// The text columns of the registration row, from the tags and sort keys.
fn register_entry_of(duration: i32, song_path: &LibSongPath, song_sync: &SongSync, keys: &SongSortKeys, folder_id: FolderIdMayRoot) -> (e: SongEntry)
    requires
        duration == song_sync.duration,
    ensures
        is_register_entry(e, song_path@, *song_sync, *keys, folder_id),
{
    SongEntry {
        duration,
        path: song_path.as_str().to_string(),
        folder_id: crate::converts::db_from_folder_id_may_root(folder_id),
        title: text_or_empty(&song_sync.title),
        artist: text_or_empty(&song_sync.artist),
        album: text_or_empty(&song_sync.album),
        genre: text_or_empty(&song_sync.genre),
        album_artist: text_or_empty(&song_sync.album_artist),
        composer: text_or_empty(&song_sync.composer),
        track_number: song_sync.track_number,
        track_max: song_sync.track_max,
        disc_number: song_sync.disc_number,
        disc_max: song_sync.disc_max,
        release_date: song_sync.release_date,
        rating: 0,
        original_song: String::new(),
        suggest_target: true,
        memo: text_or_empty(&song_sync.memo),
        memo_manage: String::new(),
        lyrics: text_or_empty(&song_sync.lyrics),
        title_order: text_or_empty(&keys.title_order),
        artist_order: text_or_empty(&keys.artist_order),
        album_order: text_or_empty(&keys.album_order),
        album_artist_order: text_or_empty(&keys.album_artist_order),
        composer_order: text_or_empty(&keys.composer_order),
        genre_order: text_or_empty(&keys.genre_order),
    }
}

/// The row that registers a new song, given whether a song is already
/// stored at its path: a song already stored is an error, so is a duration
/// beyond the duration column.
pub fn register_entry(
    already_exists: bool,
    song_path: &LibSongPath,
    song_sync: &SongSync,
    keys: &SongSortKeys,
    folder_id: FolderIdMayRoot,
) -> (r: Result<SongEntry, Error>)
    ensures
        already_exists ==> (r matches Err(Error::DbSongAlreadyExists { path }) && path@ == song_path@),
        !already_exists && song_sync.duration > i32::MAX ==> r == Err::<SongEntry, Error>(
            Error::OutOfRange { value: song_sync.duration as i64 },
        ),
        !already_exists && song_sync.duration <= i32::MAX ==> (r matches Ok(e) && is_register_entry(
            e,
            song_path@,
            *song_sync,
            *keys,
            folder_id,
        )),
{
    if already_exists {
        return Err(Error::DbSongAlreadyExists { path: song_path.as_str().to_string() });
    }
    let duration = match duration_to_column(song_sync.duration) {
        Ok(d) => d,
        Err(e) => {
            return Err(e);
        },
    };
    Ok(register_entry_of(duration, song_path, song_sync, keys, folder_id))
}

/// The values that save a stored song's tags; a duration beyond the
/// duration column is an error.
pub fn sync_entry(song: &DbSongSync, keys: &SongSortKeys) -> (r: Result<SongSyncEntry, Error>)
    ensures
        song.song_sync.duration > i32::MAX ==> r == Err::<SongSyncEntry, Error>(
            Error::OutOfRange { value: song.song_sync.duration as i64 },
        ),
        song.song_sync.duration <= i32::MAX ==> (r matches Ok(e) && is_sync_entry(e, song.song_sync, *keys)),
{
    let sync = &song.song_sync;
    let duration = match duration_to_column(sync.duration) {
        Ok(d) => d,
        Err(e) => {
            return Err(e);
        },
    };
    Ok(SongSyncEntry {
        duration,
        title: text_or_empty(&sync.title),
        artist: text_or_empty(&sync.artist),
        album: text_or_empty(&sync.album),
        genre: text_or_empty(&sync.genre),
        album_artist: text_or_empty(&sync.album_artist),
        composer: text_or_empty(&sync.composer),
        track_number: sync.track_number,
        track_max: sync.track_max,
        disc_number: sync.disc_number,
        disc_max: sync.disc_max,
        release_date: sync.release_date,
        memo: text_or_empty(&sync.memo),
        lyrics: text_or_empty(&sync.lyrics),
        title_order: text_or_empty(&keys.title_order),
        artist_order: text_or_empty(&keys.artist_order),
        album_order: text_or_empty(&keys.album_order),
        album_artist_order: text_or_empty(&keys.album_artist_order),
        composer_order: text_or_empty(&keys.composer_order),
        genre_order: text_or_empty(&keys.genre_order),
    })
}

/// A stored song's tag values read back from its tag columns, with its path
/// and artworks; a negative stored duration is an error.
pub fn song_sync_from_row(row: SongSyncRow, path: &LibSongPath, artworks: Vec<TrackArtwork>) -> (r: Result<
    DbSongSync,
    Error,
>)
    ensures
        row.duration < 0 ==> r == Err::<DbSongSync, Error>(Error::OutOfRange { value: row.duration as i64 }),
        row.duration >= 0 ==> (r matches Ok(s) && s.id == row.id && s.path@ == path@ && is_sync_of_row(
            s.song_sync,
            row,
        ) && s.song_sync.artworks@ == artworks@),
{
    let duration = match duration_from_column(row.duration) {
        Ok(d) => d,
        Err(e) => {
            return Err(e);
        },
    };
    let id = row.id;
    let track_number = row.track_number;
    let track_max = row.track_max;
    let disc_number = row.disc_number;
    let disc_max = row.disc_max;
    let release_date = row.release_date;
    let song_sync = SongSync {
        duration,
        title: row.title.into_option(),
        artist: row.artist.into_option(),
        album: row.album.into_option(),
        genre: row.genre.into_option(),
        album_artist: row.album_artist.into_option(),
        composer: row.composer.into_option(),
        track_number,
        track_max,
        disc_number,
        disc_max,
        release_date,
        memo: row.memo.into_option(),
        lyrics: row.lyrics.into_option(),
        artworks,
    };
    Ok(DbSongSync { id, path: path.clone(), song_sync })
}

impl SongEntry {
    /// Whether every value of this registration row is the stored one in
    /// `row` (texts stored as nullable are compared as stored).
    pub open spec fn agrees_with(self, row: SongRow) -> bool {
        &&& self.duration == row.duration
        &&& self.path@ == row.path@
        &&& self.folder_id == row.folder_id
        &&& self.title@ == row.title.0@
        &&& self.artist@ == row.artist.0@
        &&& self.album@ == row.album.0@
        &&& self.genre@ == row.genre.0@
        &&& self.album_artist@ == row.album_artist.0@
        &&& self.composer@ == row.composer.0@
        &&& self.track_number == row.track_number
        &&& self.track_max == row.track_max
        &&& self.disc_number == row.disc_number
        &&& self.disc_max == row.disc_max
        &&& self.release_date == row.release_date
        &&& self.rating == row.rating
        &&& self.original_song@ == row.original_track.0@
        &&& self.suggest_target == row.suggest_target
        &&& self.memo@ == row.memo.0@
        &&& self.memo_manage@ == row.memo_manage.0@
        &&& self.lyrics@ == row.lyrics.0@
        &&& self.title_order@ == row.title_order@
        &&& self.artist_order@ == row.artist_order@
        &&& self.album_order@ == row.album_order@
        &&& self.album_artist_order@ == row.album_artist_order@
        &&& self.composer_order@ == row.composer_order@
        &&& self.genre_order@ == row.genre_order@
    }

    /// Checks that every value of this registration row is the stored one
    /// in `row` (the row's id and entry date are not compared). Unlike an
    /// assertion, it does not stop on a mismatch: it returns whether all the
    /// values agree, `false` where one differs.
    pub fn assert_eq_row(&self, row: &SongRow) -> (r: bool)
        ensures
            r == self.agrees_with(*row),
    {
        self.duration == row.duration && self.path == row.path && self.folder_id == row.folder_id
            && self.title == row.title.0 && self.artist == row.artist.0 && self.album == row.album.0
            && self.genre == row.genre.0 && self.album_artist == row.album_artist.0
            && self.composer == row.composer.0 && self.track_number == row.track_number
            && self.track_max == row.track_max && self.disc_number == row.disc_number
            && self.disc_max == row.disc_max && same_date(&self.release_date, &row.release_date)
            && self.rating == row.rating && self.original_song == row.original_track.0
            && self.suggest_target == row.suggest_target && self.memo == row.memo.0
            && self.memo_manage == row.memo_manage.0 && self.lyrics == row.lyrics.0
            && self.title_order == row.title_order && self.artist_order == row.artist_order
            && self.album_order == row.album_order && self.album_artist_order == row.album_artist_order
            && self.composer_order == row.composer_order && self.genre_order == row.genre_order
    }
}

// ---------------------------------------------------------------------------
// Listing the songs of a directory
// ---------------------------------------------------------------------------

/// The query that lists the paths of the songs under a directory: a LIKE
/// match on the path prefix, with `$` as escape character when the directory
/// text holds `%`, `_` or `$`.
pub open spec fn begins_directory_sql(dir: Seq<char>) -> Seq<char> {
    if like_needs_escape(dir) {
        "SELECT path FROM tracks WHERE path LIKE $1 || '%' ESCAPE '$'"@
    } else {
        "SELECT path FROM tracks WHERE path LIKE $1 || '%'"@
    }
}

/// The value bound to the prefix of that query: the directory text, escaped
/// when it needs escaping.
pub open spec fn begins_directory_value(dir: Seq<char>) -> Seq<char> {
    if like_needs_escape(dir) {
        like_escaped(dir)
    } else {
        dir
    }
}

/// The query that lists the paths of all songs.
pub open spec fn all_paths_sql() -> Seq<char> {
    "SELECT path FROM tracks"@
}

/// The store operations on the song table.
pub struct SongDaoImpl {}

impl SongDaoImpl {
    /// The operations, which hold no state.
    pub fn new() -> (r: Self) {
        SongDaoImpl {}
    }

    /// The query that lists the paths under `path`, and the value bound to it.
    pub fn path_begins_directory_query(&self, path: &LibDirPath) -> (r: (String, String))
        ensures
            r.0@ == begins_directory_sql(path@),
            r.1@ == begins_directory_value(path@),
    {
        let path_str = path.as_str();
        if like_escape_needed(path_str) {
            let sql = "SELECT path FROM tracks WHERE path LIKE $1 || '%' ESCAPE '$'".to_string();
            (sql, like_escape(path_str))
        } else {
            let sql = "SELECT path FROM tracks WHERE path LIKE $1 || '%'".to_string();
            (sql, path_str.to_string())
        }
    }
}

/// The song operations of the store.
pub struct DbSongRepositoryImpl {}

impl DbSongRepositoryImpl {
    /// The operations, which hold no state.
    pub fn new() -> (r: Self) {
        DbSongRepositoryImpl {}
    }

    /// The songs that a path text names: those of the directory it names
    /// (`dir_songs`), then the song file it names (`song_path`) when that is
    /// stored.
    pub fn paths_of_path_str(&self, dir_songs: Vec<LibSongPath>, song_exists: bool, song_path: LibSongPath) -> (r: Vec<LibSongPath>)
        ensures
            song_exists ==> r@ == dir_songs@.push(song_path),
            !song_exists ==> r@ == dir_songs@,
    {
        let mut list = dir_songs;
        if song_exists {
            list.push(song_path);
        }
        list
    }

    /// The query that lists the songs of a directory, and the value bound to
    /// it: every song for the library root, else those whose path begins with
    /// the directory.
    pub fn directory_query(&self, path: &LibDirPath) -> (r: (String, Option<String>))
        ensures
            path@.len() == 0 ==> (r.0@ == all_paths_sql() && r.1 is None),
            path@.len() > 0 ==> r.0@ == begins_directory_sql(path@),
            path@.len() > 0 ==> (r.1 matches Some(v) && v@ == begins_directory_value(path@)),
    {
        if path.is_root() {
            ("SELECT path FROM tracks".to_string(), None)
        } else {
            let dao = SongDaoImpl {};
            let (sql, value) = dao.path_begins_directory_query(path);
            (sql, Some(value))
        }
    }
}

/// The prefix bound to a directory query stands for the directory text
/// itself: an escaped prefix reads back to the directory, and a prefix left
/// unescaped holds no character that LIKE treats specially.
pub proof fn law_directory_pattern(dir: Seq<char>)
    ensures
        like_needs_escape(dir) ==> like_unescaped(begins_directory_value(dir)) == dir,
        !like_needs_escape(dir) ==> begins_directory_value(dir) == dir && forall|i: int|
            0 <= i < dir.len() ==> !is_like_special(#[trigger] dir[i]),
{
    law_like_escape_reversible(dir);
}

} // verus!
