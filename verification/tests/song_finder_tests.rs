use data_db::error::Error;
use data_db::model::{Filter, FilterTarget, FilterValueRange, Playlist, PlaylistType, SortType};
use data_db::song_finder::{
    add_song_ids, child_song_ids_query, esci, get_order_query, get_sort_column_query, is_song_list_changed,
    listup_update, needs_listup, playlist_song_entries, union_song_ids, playlist_songs_query, song_path_list_query, song_search, songs_without,
    DbPlaylistSongRepositoryImpl, DbPlaylistTrackRepositoryImpl, SongSearch,
};

fn playlist(rowid: i32, playlist_type: PlaylistType, sort_type: SortType, sort_desc: bool) -> Playlist {
    Playlist {
        rowid,
        playlist_type,
        name: "p".to_owned(),
        parent_id: None,
        in_folder_order: 0,
        filter: None,
        sort_type,
        sort_desc,
        save_dap: false,
        listuped_flag: false,
        dap_changed: false,
        children: vec![],
        parent_names: vec![],
    }
}

#[test]
fn sort_columns() {
    assert_eq!(get_sort_column_query(SortType::SongName), "title_order ASC, tracks.id ASC");
    assert_eq!(get_sort_column_query(SortType::Playlist), "[playlist_index] ASC");
    assert_eq!(get_sort_column_query(SortType::Path), "path ASC");
}

#[test]
fn order_clauses() {
    assert_eq!(get_order_query(SortType::Duration, false), " ORDER BY duration ASC, title_order ASC, tracks.id ASC");
    assert_eq!(get_order_query(SortType::Duration, true), " ORDER BY duration DESC, title_order DESC, tracks.id DESC");
    assert_eq!(get_order_query(SortType::EntryDate, true), " ORDER BY created_at DESC, path DESC");
}

#[test]
fn integer_literals() {
    assert_eq!(esci(Some(12)), "12");
    assert_eq!(esci(Some(-3)), "-3");
    assert_eq!(esci(None), "NULL");
}

#[test]
fn playlist_song_queries() {
    assert_eq!(
        playlist_songs_query(7),
        " FROM playlist_tracks JOIN tracks ON playlist_tracks.track_id = tracks.id WHERE playlist_tracks.playlist_id = 7"
    );
    assert_eq!(
        child_song_ids_query(7),
        "SELECT tracks.id  FROM playlist_tracks JOIN tracks ON playlist_tracks.track_id = tracks.id WHERE playlist_tracks.playlist_id = 7"
    );
    assert_eq!(
        song_path_list_query(&playlist(3, PlaylistType::Normal, SortType::Path, true)),
        "SELECT tracks.path FROM playlist_tracks JOIN tracks ON playlist_tracks.track_id = tracks.id \
         WHERE playlist_tracks.playlist_id = 3 ORDER BY path DESC"
    );
    assert_eq!(
        song_path_list_query(&playlist(3, PlaylistType::Normal, SortType::Playlist, false)),
        "SELECT tracks.path, playlist_tracks.order_index AS playlist_index FROM playlist_tracks JOIN tracks \
         ON playlist_tracks.track_id = tracks.id WHERE playlist_tracks.playlist_id = 3 ORDER BY [playlist_index] ASC"
    );
}

#[test]
fn song_search_by_type() {
    assert!(matches!(song_search(&playlist(1, PlaylistType::Normal, SortType::Path, false)), Ok(SongSearch::Unchanged)));
    assert!(matches!(song_search(&playlist(1, PlaylistType::Folder, SortType::Path, false)), Ok(SongSearch::ByChildren)));
    assert!(matches!(
        song_search(&playlist(4, PlaylistType::Filter, SortType::Path, false)),
        Err(Error::FilterPlaylistHasNoFilter { plist_id: 4 })
    ));
    let mut p = playlist(4, PlaylistType::Filter, SortType::Path, false);
    p.filter = Some(Filter {
        rowid: 2,
        target: FilterTarget::Rating,
        str_value: "5".to_owned(),
        str_value2: String::new(),
        range: FilterValueRange::IntLargeEqual,
        children: vec![],
    });
    match song_search(&p) {
        Ok(SongSearch::ByFilter(q)) => assert_eq!(q, "select [song].[rowid] from [song] where [rating] >= 5"),
        _ => panic!("a filter playlist with a filter runs its query"),
    }
}

#[test]
fn song_list_changes() {
    assert!(!is_song_list_changed(&vec![1, 2, 3], &vec![3, 1, 2]));
    assert!(is_song_list_changed(&vec![1, 2, 3], &vec![1, 2]));
    assert!(is_song_list_changed(&vec![1, 2], &vec![1, 4]));
    assert!(!is_song_list_changed(&vec![1, 1, 2], &vec![2, 1]));
    assert!(!is_song_list_changed(&vec![], &vec![]));
    assert!(is_song_list_changed(&vec![], &vec![9]));
}

#[test]
fn listup_updates() {
    let normal = listup_update(PlaylistType::Normal, &vec![1], &vec![2]);
    assert!(normal.entries.is_none());
    assert!(!normal.mark_dap_changed);
    let filter = listup_update(PlaylistType::Filter, &vec![1, 2], &vec![2, 5]);
    let entries = filter.entries.expect("a filter playlist stores its songs");
    assert_eq!(entries.len(), 2);
    assert_eq!((entries[0].order, entries[0].song_id), (0, 2));
    assert_eq!((entries[1].order, entries[1].song_id), (1, 5));
    assert!(filter.mark_dap_changed);
    let same = listup_update(PlaylistType::Folder, &vec![5, 2], &vec![2, 5]);
    assert!(!same.mark_dap_changed);
}

#[test]
fn gathering_song_ids() {
    let mut acc = vec![];
    add_song_ids(&mut acc, &vec![3, 1, 3]);
    add_song_ids(&mut acc, &vec![2, 1, 4]);
    assert_eq!(acc, vec![3, 1, 2, 4]);
}

#[test]
fn entries_numbered_in_order() {
    let entries = playlist_song_entries(&vec![9, 8, 7]);
    let pairs: Vec<(i32, i32)> = entries.iter().map(|e| (e.order, e.song_id)).collect();
    assert_eq!(pairs, vec![(0, 9), (1, 8), (2, 7)]);
}

#[test]
fn removing_a_song_everywhere() {
    assert_eq!(songs_without(&vec![4, 2, 4, 5], 4), vec![2, 5]);
    assert_eq!(songs_without(&vec![1, 2], 9), vec![1, 2]);
    let song_repo = DbPlaylistSongRepositoryImpl::new();
    let entries = song_repo.entries_without_song(&vec![4, 2, 4, 5], 4);
    let pairs: Vec<(i32, i32)> = entries.iter().map(|e| (e.order, e.song_id)).collect();
    assert_eq!(pairs, vec![(0, 2), (1, 5)]);
    let track_repo = DbPlaylistTrackRepositoryImpl::new();
    let entries = track_repo.entries_without_track(&vec![7, 7], 7);
    assert!(entries.is_empty());
}

#[test]
fn genre_sort_ends_with_track_id() {
    assert_eq!(
        get_sort_column_query(SortType::Genre),
        "genre ASC, artist_order ASC, album_order ASC, disc_number ASC, track_number ASC, title_order ASC, tracks.id ASC"
    );
    assert_eq!(
        get_order_query(SortType::Genre, true),
        " ORDER BY genre DESC, artist_order DESC, album_order DESC, disc_number DESC, track_number DESC, \
         title_order DESC, tracks.id DESC"
    );
}

#[test]
fn union_of_child_lists() {
    assert_eq!(union_song_ids(&vec![vec![3, 1], vec![1, 4, 3], vec![], vec![2, 2]]), vec![3, 1, 4, 2]);
    assert!(union_song_ids(&vec![]).is_empty());
}

#[test]
fn listing_up_only_when_not_listed() {
    let mut p = playlist(1, PlaylistType::Filter, SortType::Path, false);
    assert!(needs_listup(&p));
    p.listuped_flag = true;
    assert!(!needs_listup(&p));
}
