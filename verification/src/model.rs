//! The domain values that the database layer reads and writes: playlists,
//! filters, folders and library paths.

use vstd::prelude::*;

verus! {

/// Kind of a playlist.
#[derive(PartialEq, Eq, Structural, Clone, Copy, Debug)]
pub enum PlaylistType {
    /// A list whose songs are chosen by hand.
    Normal,
    /// A list whose songs are chosen by a filter.
    Filter,
    /// A list holding the songs of its child playlists.
    Folder,
}

/// Order of the songs of a playlist.
#[derive(PartialEq, Eq, Structural, Clone, Copy, Debug)]
pub enum SortType {
    SongName,
    Artist,
    Album,
    Genre,
    Playlist,
    Composer,
    Duration,
    TrackIndex,
    DiscIndex,
    ReleaseDate,
    Rating,
    EntryDate,
    Path,
}

/// What a filter compares.
#[derive(PartialEq, Eq, Structural, Clone, Copy, Debug)]
pub enum FilterTarget {
    Title,
    Artist,
    Album,
    Genre,
    Albumartist,
    Composer,
    TrackNumber,
    TrackMax,
    DiscNumber,
    DiscMax,
    ReleaseDate,
    Rating,
    Duration,
    Memo,
    MemoManage,
    EntryDate,
    OriginalSong,
    SuggestTarget,
    FilterGroup,
    Tags,
    Artwork,
}

/// The kind of value a filter target holds.
#[derive(PartialEq, Eq, Structural, Clone, Copy, Debug)]
pub enum FilterValueType {
    FilterGroup,
    String,
    Int,
    Id,
    Tags,
    Bool,
    Artwork,
    Date,
}

/// How a filter compares its value.
#[derive(PartialEq, Eq, Structural, Clone, Copy, Debug)]
pub enum FilterValueRange {
    GroupAnd,
    GroupOr,
    StrEqual,
    StrNotEqual,
    StrContain,
    StrNotContain,
    StrStart,
    StrEnd,
    IntEqual,
    IntNotEqual,
    IntLargeEqual,
    IntSmallEqual,
    IntRangeIn,
    IntRangeOut,
    IdValid,
    IdInvalid,
    TagContain,
    TagNotContain,
    TagNone,
    BoolTrue,
    BoolFalse,
    ArtworkHas,
    ArtworkNone,
    DateEqual,
    DateNotEqual,
    DateBefore,
    DateAfter,
    DateNone,
}

/// The value type of each filter target.
pub open spec fn value_type_of(target: FilterTarget) -> FilterValueType {
    match target {
        FilterTarget::FilterGroup => FilterValueType::FilterGroup,
        FilterTarget::Title | FilterTarget::Artist | FilterTarget::Album | FilterTarget::Genre
        | FilterTarget::Albumartist | FilterTarget::Composer | FilterTarget::Memo
        | FilterTarget::MemoManage | FilterTarget::OriginalSong => FilterValueType::String,
        FilterTarget::TrackNumber | FilterTarget::TrackMax | FilterTarget::DiscNumber
        | FilterTarget::DiscMax | FilterTarget::Rating | FilterTarget::Duration => FilterValueType::Int,
        FilterTarget::ReleaseDate | FilterTarget::EntryDate => FilterValueType::Date,
        FilterTarget::SuggestTarget => FilterValueType::Bool,
        FilterTarget::Tags => FilterValueType::Tags,
        FilterTarget::Artwork => FilterValueType::Artwork,
    }
}

impl FilterTarget {
    /// The kind of value this target holds.
    pub fn value_type(&self) -> (r: FilterValueType)
        ensures
            r == value_type_of(*self),
    {
        match self {
            FilterTarget::FilterGroup => FilterValueType::FilterGroup,
            FilterTarget::Title | FilterTarget::Artist | FilterTarget::Album | FilterTarget::Genre
            | FilterTarget::Albumartist | FilterTarget::Composer | FilterTarget::Memo
            | FilterTarget::MemoManage | FilterTarget::OriginalSong => FilterValueType::String,
            FilterTarget::TrackNumber | FilterTarget::TrackMax | FilterTarget::DiscNumber
            | FilterTarget::DiscMax | FilterTarget::Rating | FilterTarget::Duration => FilterValueType::Int,
            FilterTarget::ReleaseDate | FilterTarget::EntryDate => FilterValueType::Date,
            FilterTarget::SuggestTarget => FilterValueType::Bool,
            FilterTarget::Tags => FilterValueType::Tags,
            FilterTarget::Artwork => FilterValueType::Artwork,
        }
    }
}

/// A song filter; a group filter combines its children.
pub struct Filter {
    pub rowid: i32,
    pub target: FilterTarget,
    pub str_value: String,
    pub str_value2: String,
    pub range: FilterValueRange,
    pub children: Vec<Filter>,
}

/// A playlist with its place in the playlist tree.
pub struct Playlist {
    pub rowid: i32,
    pub playlist_type: PlaylistType,
    pub name: String,
    pub parent_id: Option<i32>,
    pub in_folder_order: u32,
    pub filter: Option<Filter>,
    pub sort_type: SortType,
    pub sort_desc: bool,
    pub save_dap: bool,
    pub listuped_flag: bool,
    pub dap_changed: bool,
    pub children: Vec<Playlist>,
    /// Names of the ancestors, outermost first.
    pub parent_names: Vec<String>,
}

/// A folder id, or the library root.
#[derive(PartialEq, Eq, Structural, Clone, Copy, Debug)]
pub enum FolderIdMayRoot {
    Root,
    Folder(i32),
}

} // verus!
