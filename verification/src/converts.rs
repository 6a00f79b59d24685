//! Conversions between stored values and domain values.

use vstd::prelude::*;
use crate::error::Error;
use crate::model::{FilterTarget, FilterValueRange, FolderIdMayRoot, PlaylistType, SortType};

verus! {

// ---------------------------------------------------------------------------
// Text columns where the empty string stands for "no value"
// ---------------------------------------------------------------------------

/// A nullable text value stored as non-null text: the empty string means `None`.
pub struct DbOptionString(pub String);

impl DbOptionString {
    /// The stored form of "no value": the empty string.
    pub fn none() -> (r: Self)
        ensures
            r.0@ == Seq::<char>::empty(),
    {
        DbOptionString(String::new())
    }

    /// The stored text as it is (empty for "no value").
    pub fn as_nonnull_str(&self) -> (r: &str)
        ensures
            r@ == self.0@,
    {
        self.0.as_str()
    }

    /// The value that the stored text stands for: `None` for the empty string.
    pub fn into_option(self) -> (r: Option<String>)
        ensures
            self.0@.len() == 0 ==> r is None,
            self.0@.len() > 0 ==> (r matches Some(s) && s@ == self.0@),
    {
        if self.0.unicode_len() == 0 {
            None
        } else {
            Some(self.0)
        }
    }
}

impl Default for DbOptionString {
    /// The stored form of "no value": the empty string.
    fn default() -> (r: Self)
        ensures
            r.0@ == Seq::<char>::empty(),
    {
        DbOptionString(String::new())
    }
}

impl DbOptionString {
    /// The stored form of an optional text: the text, or the empty string.
    pub fn from_option(s: Option<String>) -> (r: Self)
        ensures
            s matches Some(v) ==> r.0@ == v@,
            s is None ==> r.0@ == Seq::<char>::empty(),
    {
        match s {
            Some(v) => DbOptionString(v),
            None => DbOptionString(String::new()),
        }
    }

    /// The stored form of a text: the text itself.
    pub fn from_string(s: String) -> (r: Self)
        ensures
            r.0@ == s@,
    {
        DbOptionString(s)
    }
}

/// Storing an optional text and reading it back gives it again, as long as a
/// present text is not empty.
pub proof fn law_option_string_roundtrip(o: Option<Seq<char>>)
    requires
        o matches Some(v) ==> v.len() > 0,
    ensures
        stored_text(o).len() == 0 <==> o is None,
        o matches Some(v) ==> stored_text(o) == v,
{
}

/// The stored text of an optional text.
pub open spec fn stored_text(o: Option<Seq<char>>) -> Seq<char> {
    match o {
        Some(v) => v,
        None => Seq::empty(),
    }
}

// ---------------------------------------------------------------------------
// Folder ids: the library root is stored as NULL
// ---------------------------------------------------------------------------

/// The stored column value of a folder id: `None` for the root.
pub open spec fn folder_id_column(value: FolderIdMayRoot) -> Option<i32> {
    match value {
        FolderIdMayRoot::Folder(i) => Some(i),
        FolderIdMayRoot::Root => None,
    }
}

/// The folder id that a stored column value stands for.
pub open spec fn folder_id_of_column(value: Option<i32>) -> FolderIdMayRoot {
    match value {
        Some(i) => FolderIdMayRoot::Folder(i),
        None => FolderIdMayRoot::Root,
    }
}

/// The stored column value of a folder id: `None` for the root.
pub fn db_from_folder_id_may_root(value: FolderIdMayRoot) -> (r: Option<i32>)
    ensures
        r == folder_id_column(value),
{
    match value {
        FolderIdMayRoot::Folder(i) => Some(i),
        FolderIdMayRoot::Root => None,
    }
}

/// The folder id that a stored column value stands for: NULL is the root.
pub fn db_into_folder_id_may_root(value: Option<i32>) -> (r: FolderIdMayRoot)
    ensures
        r == folder_id_of_column(value),
{
    match value {
        Some(i) => FolderIdMayRoot::Folder(i),
        None => FolderIdMayRoot::Root,
    }
}

/// Storing a folder id and reading it back gives the same folder id, and
/// reading a column value and storing it again gives the same column value.
pub proof fn law_folder_id_roundtrip(id: FolderIdMayRoot, column: Option<i32>)
    ensures
        folder_id_of_column(folder_id_column(id)) == id,
        folder_id_column(folder_id_of_column(column)) == column,
{
}


// ---------------------------------------------------------------------------
// Enumerations stored as integers: each variant is stored as its position in
// the declaration, counting from zero.
// ---------------------------------------------------------------------------

/// The stored number of a playlist type.
pub open spec fn playlist_type_number(v: PlaylistType) -> i64 {
    match v {
        PlaylistType::Normal => 0,
        PlaylistType::Filter => 1,
        PlaylistType::Folder => 2,
    }
}

/// A playlist type as it is stored: an integer column.
#[derive(PartialEq, Eq, Structural, Clone, Copy, Debug)]
pub struct DbPlaylistType(pub PlaylistType);

impl DbPlaylistType {
    /// The playlist type that a stored number names; a number that names none is
    /// an error carrying that number.
    pub fn from_number(num: i64) -> (r: Result<Self, Error>)
        ensures
            0 <= num < 3 ==> (r matches Ok(v) && playlist_type_number(v.0) == num),
            !(0 <= num < 3) ==> r == Err::<Self, Error>(Error::InvalidPlaylistType { type_num: num }),
    {
        match num {
            0 => Ok(DbPlaylistType(PlaylistType::Normal)),
            1 => Ok(DbPlaylistType(PlaylistType::Filter)),
            2 => Ok(DbPlaylistType(PlaylistType::Folder)),
            _ => Err(Error::InvalidPlaylistType { type_num: num }),
        }
    }

    /// The number under which this playlist type is stored.
    pub fn number(&self) -> (r: i64)
        ensures
            r == playlist_type_number(self.0),
    {
        match self.0 {
            PlaylistType::Normal => 0,
            PlaylistType::Filter => 1,
            PlaylistType::Folder => 2,
        }
    }
}

/// Every playlist type is stored under its own number, from 0 up to 2.
pub proof fn law_playlist_type_number_roundtrip(v: PlaylistType, w: PlaylistType)
    ensures
        0 <= playlist_type_number(v) < 3,
        playlist_type_number(v) == playlist_type_number(w) ==> v == w,
{
}

/// The stored number of a sort type.
pub open spec fn sort_type_number(v: SortType) -> i64 {
    match v {
        SortType::SongName => 0,
        SortType::Artist => 1,
        SortType::Album => 2,
        SortType::Genre => 3,
        SortType::Playlist => 4,
        SortType::Composer => 5,
        SortType::Duration => 6,
        SortType::TrackIndex => 7,
        SortType::DiscIndex => 8,
        SortType::ReleaseDate => 9,
        SortType::Rating => 10,
        SortType::EntryDate => 11,
        SortType::Path => 12,
    }
}

/// A sort type as it is stored: an integer column.
#[derive(PartialEq, Eq, Structural, Clone, Copy, Debug)]
pub struct DbSortType(pub SortType);

impl DbSortType {
    /// The sort type that a stored number names; a number that names none is
    /// an error carrying that number.
    pub fn from_number(num: i64) -> (r: Result<Self, Error>)
        ensures
            0 <= num < 13 ==> (r matches Ok(v) && sort_type_number(v.0) == num),
            !(0 <= num < 13) ==> r == Err::<Self, Error>(Error::InvalidSortType { type_num: num }),
    {
        match num {
            0 => Ok(DbSortType(SortType::SongName)),
            1 => Ok(DbSortType(SortType::Artist)),
            2 => Ok(DbSortType(SortType::Album)),
            3 => Ok(DbSortType(SortType::Genre)),
            4 => Ok(DbSortType(SortType::Playlist)),
            5 => Ok(DbSortType(SortType::Composer)),
            6 => Ok(DbSortType(SortType::Duration)),
            7 => Ok(DbSortType(SortType::TrackIndex)),
            8 => Ok(DbSortType(SortType::DiscIndex)),
            9 => Ok(DbSortType(SortType::ReleaseDate)),
            10 => Ok(DbSortType(SortType::Rating)),
            11 => Ok(DbSortType(SortType::EntryDate)),
            12 => Ok(DbSortType(SortType::Path)),
            _ => Err(Error::InvalidSortType { type_num: num }),
        }
    }

    /// The number under which this sort type is stored.
    pub fn number(&self) -> (r: i64)
        ensures
            r == sort_type_number(self.0),
    {
        match self.0 {
            SortType::SongName => 0,
            SortType::Artist => 1,
            SortType::Album => 2,
            SortType::Genre => 3,
            SortType::Playlist => 4,
            SortType::Composer => 5,
            SortType::Duration => 6,
            SortType::TrackIndex => 7,
            SortType::DiscIndex => 8,
            SortType::ReleaseDate => 9,
            SortType::Rating => 10,
            SortType::EntryDate => 11,
            SortType::Path => 12,
        }
    }
}

/// Every sort type is stored under its own number, from 0 up to 12.
pub proof fn law_sort_type_number_roundtrip(v: SortType, w: SortType)
    ensures
        0 <= sort_type_number(v) < 13,
        sort_type_number(v) == sort_type_number(w) ==> v == w,
{
}

/// The stored number of a filter target.
pub open spec fn filter_target_number(v: FilterTarget) -> i64 {
    match v {
        FilterTarget::Title => 0,
        FilterTarget::Artist => 1,
        FilterTarget::Album => 2,
        FilterTarget::Genre => 3,
        FilterTarget::Albumartist => 4,
        FilterTarget::Composer => 5,
        FilterTarget::TrackNumber => 6,
        FilterTarget::TrackMax => 7,
        FilterTarget::DiscNumber => 8,
        FilterTarget::DiscMax => 9,
        FilterTarget::ReleaseDate => 10,
        FilterTarget::Rating => 11,
        FilterTarget::Duration => 12,
        FilterTarget::Memo => 13,
        FilterTarget::MemoManage => 14,
        FilterTarget::EntryDate => 15,
        FilterTarget::OriginalSong => 16,
        FilterTarget::SuggestTarget => 17,
        FilterTarget::FilterGroup => 18,
        FilterTarget::Tags => 19,
        FilterTarget::Artwork => 20,
    }
}

/// A filter target as it is stored: an integer column.
#[derive(PartialEq, Eq, Structural, Clone, Copy, Debug)]
pub struct DbFilterTarget(pub FilterTarget);

impl DbFilterTarget {
    /// The filter target that a stored number names; a number that names none is
    /// an error carrying that number.
    pub fn from_number(num: i64) -> (r: Result<Self, Error>)
        ensures
            0 <= num < 21 ==> (r matches Ok(v) && filter_target_number(v.0) == num),
            !(0 <= num < 21) ==> r == Err::<Self, Error>(Error::InvalidFilterTarget { type_num: num }),
    {
        match num {
            0 => Ok(DbFilterTarget(FilterTarget::Title)),
            1 => Ok(DbFilterTarget(FilterTarget::Artist)),
            2 => Ok(DbFilterTarget(FilterTarget::Album)),
            3 => Ok(DbFilterTarget(FilterTarget::Genre)),
            4 => Ok(DbFilterTarget(FilterTarget::Albumartist)),
            5 => Ok(DbFilterTarget(FilterTarget::Composer)),
            6 => Ok(DbFilterTarget(FilterTarget::TrackNumber)),
            7 => Ok(DbFilterTarget(FilterTarget::TrackMax)),
            8 => Ok(DbFilterTarget(FilterTarget::DiscNumber)),
            9 => Ok(DbFilterTarget(FilterTarget::DiscMax)),
            10 => Ok(DbFilterTarget(FilterTarget::ReleaseDate)),
            11 => Ok(DbFilterTarget(FilterTarget::Rating)),
            12 => Ok(DbFilterTarget(FilterTarget::Duration)),
            13 => Ok(DbFilterTarget(FilterTarget::Memo)),
            14 => Ok(DbFilterTarget(FilterTarget::MemoManage)),
            15 => Ok(DbFilterTarget(FilterTarget::EntryDate)),
            16 => Ok(DbFilterTarget(FilterTarget::OriginalSong)),
            17 => Ok(DbFilterTarget(FilterTarget::SuggestTarget)),
            18 => Ok(DbFilterTarget(FilterTarget::FilterGroup)),
            19 => Ok(DbFilterTarget(FilterTarget::Tags)),
            20 => Ok(DbFilterTarget(FilterTarget::Artwork)),
            _ => Err(Error::InvalidFilterTarget { type_num: num }),
        }
    }

    /// The number under which this filter target is stored.
    pub fn number(&self) -> (r: i64)
        ensures
            r == filter_target_number(self.0),
    {
        match self.0 {
            FilterTarget::Title => 0,
            FilterTarget::Artist => 1,
            FilterTarget::Album => 2,
            FilterTarget::Genre => 3,
            FilterTarget::Albumartist => 4,
            FilterTarget::Composer => 5,
            FilterTarget::TrackNumber => 6,
            FilterTarget::TrackMax => 7,
            FilterTarget::DiscNumber => 8,
            FilterTarget::DiscMax => 9,
            FilterTarget::ReleaseDate => 10,
            FilterTarget::Rating => 11,
            FilterTarget::Duration => 12,
            FilterTarget::Memo => 13,
            FilterTarget::MemoManage => 14,
            FilterTarget::EntryDate => 15,
            FilterTarget::OriginalSong => 16,
            FilterTarget::SuggestTarget => 17,
            FilterTarget::FilterGroup => 18,
            FilterTarget::Tags => 19,
            FilterTarget::Artwork => 20,
        }
    }
}

/// Every filter target is stored under its own number, from 0 up to 20.
pub proof fn law_filter_target_number_roundtrip(v: FilterTarget, w: FilterTarget)
    ensures
        0 <= filter_target_number(v) < 21,
        filter_target_number(v) == filter_target_number(w) ==> v == w,
{
}

/// The stored number of a filter range.
pub open spec fn filter_value_range_number(v: FilterValueRange) -> i64 {
    match v {
        FilterValueRange::GroupAnd => 0,
        FilterValueRange::GroupOr => 1,
        FilterValueRange::StrEqual => 2,
        FilterValueRange::StrNotEqual => 3,
        FilterValueRange::StrContain => 4,
        FilterValueRange::StrNotContain => 5,
        FilterValueRange::StrStart => 6,
        FilterValueRange::StrEnd => 7,
        FilterValueRange::IntEqual => 8,
        FilterValueRange::IntNotEqual => 9,
        FilterValueRange::IntLargeEqual => 10,
        FilterValueRange::IntSmallEqual => 11,
        FilterValueRange::IntRangeIn => 12,
        FilterValueRange::IntRangeOut => 13,
        FilterValueRange::IdValid => 14,
        FilterValueRange::IdInvalid => 15,
        FilterValueRange::TagContain => 16,
        FilterValueRange::TagNotContain => 17,
        FilterValueRange::TagNone => 18,
        FilterValueRange::BoolTrue => 19,
        FilterValueRange::BoolFalse => 20,
        FilterValueRange::ArtworkHas => 21,
        FilterValueRange::ArtworkNone => 22,
        FilterValueRange::DateEqual => 23,
        FilterValueRange::DateNotEqual => 24,
        FilterValueRange::DateBefore => 25,
        FilterValueRange::DateAfter => 26,
        FilterValueRange::DateNone => 27,
    }
}

/// A filter range as it is stored: an integer column.
#[derive(PartialEq, Eq, Structural, Clone, Copy, Debug)]
pub struct DbFilterValueRange(pub FilterValueRange);

impl DbFilterValueRange {
    /// The filter range that a stored number names; a number that names none is
    /// an error carrying that number.
    pub fn from_number(num: i64) -> (r: Result<Self, Error>)
        ensures
            0 <= num < 28 ==> (r matches Ok(v) && filter_value_range_number(v.0) == num),
            !(0 <= num < 28) ==> r == Err::<Self, Error>(Error::InvalidFilterValueRange { type_num: num }),
    {
        match num {
            0 => Ok(DbFilterValueRange(FilterValueRange::GroupAnd)),
            1 => Ok(DbFilterValueRange(FilterValueRange::GroupOr)),
            2 => Ok(DbFilterValueRange(FilterValueRange::StrEqual)),
            3 => Ok(DbFilterValueRange(FilterValueRange::StrNotEqual)),
            4 => Ok(DbFilterValueRange(FilterValueRange::StrContain)),
            5 => Ok(DbFilterValueRange(FilterValueRange::StrNotContain)),
            6 => Ok(DbFilterValueRange(FilterValueRange::StrStart)),
            7 => Ok(DbFilterValueRange(FilterValueRange::StrEnd)),
            8 => Ok(DbFilterValueRange(FilterValueRange::IntEqual)),
            9 => Ok(DbFilterValueRange(FilterValueRange::IntNotEqual)),
            10 => Ok(DbFilterValueRange(FilterValueRange::IntLargeEqual)),
            11 => Ok(DbFilterValueRange(FilterValueRange::IntSmallEqual)),
            12 => Ok(DbFilterValueRange(FilterValueRange::IntRangeIn)),
            13 => Ok(DbFilterValueRange(FilterValueRange::IntRangeOut)),
            14 => Ok(DbFilterValueRange(FilterValueRange::IdValid)),
            15 => Ok(DbFilterValueRange(FilterValueRange::IdInvalid)),
            16 => Ok(DbFilterValueRange(FilterValueRange::TagContain)),
            17 => Ok(DbFilterValueRange(FilterValueRange::TagNotContain)),
            18 => Ok(DbFilterValueRange(FilterValueRange::TagNone)),
            19 => Ok(DbFilterValueRange(FilterValueRange::BoolTrue)),
            20 => Ok(DbFilterValueRange(FilterValueRange::BoolFalse)),
            21 => Ok(DbFilterValueRange(FilterValueRange::ArtworkHas)),
            22 => Ok(DbFilterValueRange(FilterValueRange::ArtworkNone)),
            23 => Ok(DbFilterValueRange(FilterValueRange::DateEqual)),
            24 => Ok(DbFilterValueRange(FilterValueRange::DateNotEqual)),
            25 => Ok(DbFilterValueRange(FilterValueRange::DateBefore)),
            26 => Ok(DbFilterValueRange(FilterValueRange::DateAfter)),
            27 => Ok(DbFilterValueRange(FilterValueRange::DateNone)),
            _ => Err(Error::InvalidFilterValueRange { type_num: num }),
        }
    }

    /// The number under which this filter range is stored.
    pub fn number(&self) -> (r: i64)
        ensures
            r == filter_value_range_number(self.0),
    {
        match self.0 {
            FilterValueRange::GroupAnd => 0,
            FilterValueRange::GroupOr => 1,
            FilterValueRange::StrEqual => 2,
            FilterValueRange::StrNotEqual => 3,
            FilterValueRange::StrContain => 4,
            FilterValueRange::StrNotContain => 5,
            FilterValueRange::StrStart => 6,
            FilterValueRange::StrEnd => 7,
            FilterValueRange::IntEqual => 8,
            FilterValueRange::IntNotEqual => 9,
            FilterValueRange::IntLargeEqual => 10,
            FilterValueRange::IntSmallEqual => 11,
            FilterValueRange::IntRangeIn => 12,
            FilterValueRange::IntRangeOut => 13,
            FilterValueRange::IdValid => 14,
            FilterValueRange::IdInvalid => 15,
            FilterValueRange::TagContain => 16,
            FilterValueRange::TagNotContain => 17,
            FilterValueRange::TagNone => 18,
            FilterValueRange::BoolTrue => 19,
            FilterValueRange::BoolFalse => 20,
            FilterValueRange::ArtworkHas => 21,
            FilterValueRange::ArtworkNone => 22,
            FilterValueRange::DateEqual => 23,
            FilterValueRange::DateNotEqual => 24,
            FilterValueRange::DateBefore => 25,
            FilterValueRange::DateAfter => 26,
            FilterValueRange::DateNone => 27,
        }
    }
}

/// Every filter range is stored under its own number, from 0 up to 27.
pub proof fn law_filter_value_range_number_roundtrip(v: FilterValueRange, w: FilterValueRange)
    ensures
        0 <= filter_value_range_number(v) < 28,
        filter_value_range_number(v) == filter_value_range_number(w) ==> v == w,
{
}


// ---------------------------------------------------------------------------
// The stored numbers are the declaration positions
// ---------------------------------------------------------------------------

/// The playlist types in the order of their declaration.
pub open spec fn playlist_types_declared() -> Seq<PlaylistType> {
    seq![PlaylistType::Normal, PlaylistType::Filter, PlaylistType::Folder]
}

/// Each of the playlist types is stored under its position in the declaration,
/// counting from zero, and every one of them is in that list.
pub proof fn law_playlist_type_number_is_position(v: PlaylistType)
    ensures
        forall|i: int| 0 <= i < playlist_types_declared().len() ==> playlist_type_number(#[trigger] playlist_types_declared()[i]) == i,
        playlist_types_declared()[playlist_type_number(v) as int] == v,
{
    assert(forall|i: int| 0 <= i < playlist_types_declared().len() ==> playlist_type_number(#[trigger] playlist_types_declared()[i]) == i) by {
        assert forall|i: int| 0 <= i < playlist_types_declared().len() implies playlist_type_number(#[trigger] playlist_types_declared()[i]) == i by {
            if i == 0 { assert(playlist_types_declared()[0] == PlaylistType::Normal); }
            if i == 1 { assert(playlist_types_declared()[1] == PlaylistType::Filter); }
            if i == 2 { assert(playlist_types_declared()[2] == PlaylistType::Folder); }
        }
    }
}

/// The sort types in the order of their declaration.
pub open spec fn sort_types_declared() -> Seq<SortType> {
    seq![SortType::SongName, SortType::Artist, SortType::Album, SortType::Genre, SortType::Playlist, SortType::Composer, SortType::Duration, SortType::TrackIndex, SortType::DiscIndex, SortType::ReleaseDate, SortType::Rating, SortType::EntryDate, SortType::Path]
}

/// Each of the sort types is stored under its position in the declaration,
/// counting from zero, and every one of them is in that list.
pub proof fn law_sort_type_number_is_position(v: SortType)
    ensures
        forall|i: int| 0 <= i < sort_types_declared().len() ==> sort_type_number(#[trigger] sort_types_declared()[i]) == i,
        sort_types_declared()[sort_type_number(v) as int] == v,
{
    assert(forall|i: int| 0 <= i < sort_types_declared().len() ==> sort_type_number(#[trigger] sort_types_declared()[i]) == i) by {
        assert forall|i: int| 0 <= i < sort_types_declared().len() implies sort_type_number(#[trigger] sort_types_declared()[i]) == i by {
            if i == 0 { assert(sort_types_declared()[0] == SortType::SongName); }
            if i == 1 { assert(sort_types_declared()[1] == SortType::Artist); }
            if i == 2 { assert(sort_types_declared()[2] == SortType::Album); }
            if i == 3 { assert(sort_types_declared()[3] == SortType::Genre); }
            if i == 4 { assert(sort_types_declared()[4] == SortType::Playlist); }
            if i == 5 { assert(sort_types_declared()[5] == SortType::Composer); }
            if i == 6 { assert(sort_types_declared()[6] == SortType::Duration); }
            if i == 7 { assert(sort_types_declared()[7] == SortType::TrackIndex); }
            if i == 8 { assert(sort_types_declared()[8] == SortType::DiscIndex); }
            if i == 9 { assert(sort_types_declared()[9] == SortType::ReleaseDate); }
            if i == 10 { assert(sort_types_declared()[10] == SortType::Rating); }
            if i == 11 { assert(sort_types_declared()[11] == SortType::EntryDate); }
            if i == 12 { assert(sort_types_declared()[12] == SortType::Path); }
        }
    }
}

/// The filter targets in the order of their declaration.
pub open spec fn filter_targets_declared() -> Seq<FilterTarget> {
    seq![FilterTarget::Title, FilterTarget::Artist, FilterTarget::Album, FilterTarget::Genre, FilterTarget::Albumartist, FilterTarget::Composer, FilterTarget::TrackNumber, FilterTarget::TrackMax, FilterTarget::DiscNumber, FilterTarget::DiscMax, FilterTarget::ReleaseDate, FilterTarget::Rating, FilterTarget::Duration, FilterTarget::Memo, FilterTarget::MemoManage, FilterTarget::EntryDate, FilterTarget::OriginalSong, FilterTarget::SuggestTarget, FilterTarget::FilterGroup, FilterTarget::Tags, FilterTarget::Artwork]
}

/// Each of the filter targets is stored under its position in the declaration,
/// counting from zero, and every one of them is in that list.
pub proof fn law_filter_target_number_is_position(v: FilterTarget)
    ensures
        forall|i: int| 0 <= i < filter_targets_declared().len() ==> filter_target_number(#[trigger] filter_targets_declared()[i]) == i,
        filter_targets_declared()[filter_target_number(v) as int] == v,
{
    assert(forall|i: int| 0 <= i < filter_targets_declared().len() ==> filter_target_number(#[trigger] filter_targets_declared()[i]) == i) by {
        assert forall|i: int| 0 <= i < filter_targets_declared().len() implies filter_target_number(#[trigger] filter_targets_declared()[i]) == i by {
            if i == 0 { assert(filter_targets_declared()[0] == FilterTarget::Title); }
            if i == 1 { assert(filter_targets_declared()[1] == FilterTarget::Artist); }
            if i == 2 { assert(filter_targets_declared()[2] == FilterTarget::Album); }
            if i == 3 { assert(filter_targets_declared()[3] == FilterTarget::Genre); }
            if i == 4 { assert(filter_targets_declared()[4] == FilterTarget::Albumartist); }
            if i == 5 { assert(filter_targets_declared()[5] == FilterTarget::Composer); }
            if i == 6 { assert(filter_targets_declared()[6] == FilterTarget::TrackNumber); }
            if i == 7 { assert(filter_targets_declared()[7] == FilterTarget::TrackMax); }
            if i == 8 { assert(filter_targets_declared()[8] == FilterTarget::DiscNumber); }
            if i == 9 { assert(filter_targets_declared()[9] == FilterTarget::DiscMax); }
            if i == 10 { assert(filter_targets_declared()[10] == FilterTarget::ReleaseDate); }
            if i == 11 { assert(filter_targets_declared()[11] == FilterTarget::Rating); }
            if i == 12 { assert(filter_targets_declared()[12] == FilterTarget::Duration); }
            if i == 13 { assert(filter_targets_declared()[13] == FilterTarget::Memo); }
            if i == 14 { assert(filter_targets_declared()[14] == FilterTarget::MemoManage); }
            if i == 15 { assert(filter_targets_declared()[15] == FilterTarget::EntryDate); }
            if i == 16 { assert(filter_targets_declared()[16] == FilterTarget::OriginalSong); }
            if i == 17 { assert(filter_targets_declared()[17] == FilterTarget::SuggestTarget); }
            if i == 18 { assert(filter_targets_declared()[18] == FilterTarget::FilterGroup); }
            if i == 19 { assert(filter_targets_declared()[19] == FilterTarget::Tags); }
            if i == 20 { assert(filter_targets_declared()[20] == FilterTarget::Artwork); }
        }
    }
}

/// The filter ranges in the order of their declaration.
pub open spec fn filter_ranges_declared() -> Seq<FilterValueRange> {
    seq![FilterValueRange::GroupAnd, FilterValueRange::GroupOr, FilterValueRange::StrEqual, FilterValueRange::StrNotEqual, FilterValueRange::StrContain, FilterValueRange::StrNotContain, FilterValueRange::StrStart, FilterValueRange::StrEnd, FilterValueRange::IntEqual, FilterValueRange::IntNotEqual, FilterValueRange::IntLargeEqual, FilterValueRange::IntSmallEqual, FilterValueRange::IntRangeIn, FilterValueRange::IntRangeOut, FilterValueRange::IdValid, FilterValueRange::IdInvalid, FilterValueRange::TagContain, FilterValueRange::TagNotContain, FilterValueRange::TagNone, FilterValueRange::BoolTrue, FilterValueRange::BoolFalse, FilterValueRange::ArtworkHas, FilterValueRange::ArtworkNone, FilterValueRange::DateEqual, FilterValueRange::DateNotEqual, FilterValueRange::DateBefore, FilterValueRange::DateAfter, FilterValueRange::DateNone]
}

/// Each of the filter ranges is stored under its position in the declaration,
/// counting from zero, and every one of them is in that list.
pub proof fn law_filter_value_range_number_is_position(v: FilterValueRange)
    ensures
        forall|i: int| 0 <= i < filter_ranges_declared().len() ==> filter_value_range_number(#[trigger] filter_ranges_declared()[i]) == i,
        filter_ranges_declared()[filter_value_range_number(v) as int] == v,
{
    assert(forall|i: int| 0 <= i < filter_ranges_declared().len() ==> filter_value_range_number(#[trigger] filter_ranges_declared()[i]) == i) by {
        assert forall|i: int| 0 <= i < filter_ranges_declared().len() implies filter_value_range_number(#[trigger] filter_ranges_declared()[i]) == i by {
            if i == 0 { assert(filter_ranges_declared()[0] == FilterValueRange::GroupAnd); }
            if i == 1 { assert(filter_ranges_declared()[1] == FilterValueRange::GroupOr); }
            if i == 2 { assert(filter_ranges_declared()[2] == FilterValueRange::StrEqual); }
            if i == 3 { assert(filter_ranges_declared()[3] == FilterValueRange::StrNotEqual); }
            if i == 4 { assert(filter_ranges_declared()[4] == FilterValueRange::StrContain); }
            if i == 5 { assert(filter_ranges_declared()[5] == FilterValueRange::StrNotContain); }
            if i == 6 { assert(filter_ranges_declared()[6] == FilterValueRange::StrStart); }
            if i == 7 { assert(filter_ranges_declared()[7] == FilterValueRange::StrEnd); }
            if i == 8 { assert(filter_ranges_declared()[8] == FilterValueRange::IntEqual); }
            if i == 9 { assert(filter_ranges_declared()[9] == FilterValueRange::IntNotEqual); }
            if i == 10 { assert(filter_ranges_declared()[10] == FilterValueRange::IntLargeEqual); }
            if i == 11 { assert(filter_ranges_declared()[11] == FilterValueRange::IntSmallEqual); }
            if i == 12 { assert(filter_ranges_declared()[12] == FilterValueRange::IntRangeIn); }
            if i == 13 { assert(filter_ranges_declared()[13] == FilterValueRange::IntRangeOut); }
            if i == 14 { assert(filter_ranges_declared()[14] == FilterValueRange::IdValid); }
            if i == 15 { assert(filter_ranges_declared()[15] == FilterValueRange::IdInvalid); }
            if i == 16 { assert(filter_ranges_declared()[16] == FilterValueRange::TagContain); }
            if i == 17 { assert(filter_ranges_declared()[17] == FilterValueRange::TagNotContain); }
            if i == 18 { assert(filter_ranges_declared()[18] == FilterValueRange::TagNone); }
            if i == 19 { assert(filter_ranges_declared()[19] == FilterValueRange::BoolTrue); }
            if i == 20 { assert(filter_ranges_declared()[20] == FilterValueRange::BoolFalse); }
            if i == 21 { assert(filter_ranges_declared()[21] == FilterValueRange::ArtworkHas); }
            if i == 22 { assert(filter_ranges_declared()[22] == FilterValueRange::ArtworkNone); }
            if i == 23 { assert(filter_ranges_declared()[23] == FilterValueRange::DateEqual); }
            if i == 24 { assert(filter_ranges_declared()[24] == FilterValueRange::DateNotEqual); }
            if i == 25 { assert(filter_ranges_declared()[25] == FilterValueRange::DateBefore); }
            if i == 26 { assert(filter_ranges_declared()[26] == FilterValueRange::DateAfter); }
            if i == 27 { assert(filter_ranges_declared()[27] == FilterValueRange::DateNone); }
        }
    }
}

} // verus!
