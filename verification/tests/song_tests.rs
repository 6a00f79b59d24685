use chrono::NaiveDate;
use data_db::artwork::{Picture, TrackArtwork};
use data_db::converts::DbOptionString;
use data_db::error::Error;
use data_db::folder::{LibDirPath, LibSongPath};
use data_db::model::FolderIdMayRoot;
use data_db::song::{
    duration_from_column, duration_to_column, register_entry, song_sync_from_row, sync_entry, text_or_empty,
    DbSongRepositoryImpl, DbSongSync, SongDaoImpl, SongRow, SongSortKeys, SongSync, SongSyncRow,
};

fn date() -> Option<NaiveDate> {
    NaiveDate::from_ymd_opt(2021, 1, 26)
}

fn sync() -> SongSync {
    SongSync {
        duration: 183000,
        title: Some("title".to_owned()),
        artist: Some("taro".to_owned()),
        album: None,
        genre: Some("rock".to_owned()),
        album_artist: None,
        composer: Some("jiro".to_owned()),
        track_number: Some(3),
        track_max: Some(12),
        disc_number: None,
        disc_max: None,
        release_date: date(),
        memo: None,
        lyrics: Some("la la".to_owned()),
        artworks: vec![],
    }
}

fn keys() -> SongSortKeys {
    SongSortKeys {
        title_order: Some("title".to_owned()),
        artist_order: Some("taro".to_owned()),
        album_order: None,
        album_artist_order: None,
        composer_order: Some("jiro".to_owned()),
        genre_order: Some("rock".to_owned()),
    }
}

#[test]
fn durations() {
    assert!(matches!(duration_to_column(183000), Ok(183000)));
    assert!(matches!(duration_to_column(u32::MAX), Err(Error::OutOfRange { value: 4294967295 })));
    assert!(matches!(duration_to_column(2147483647), Ok(2147483647)));
    assert!(matches!(duration_from_column(5), Ok(5)));
    assert!(matches!(duration_from_column(-1), Err(Error::OutOfRange { value: -1 })));
    assert_eq!(text_or_empty(&None), "");
    assert_eq!(text_or_empty(&Some("x".to_owned())), "x");
}

#[test]
fn registering_a_song() {
    let path = LibSongPath::new("test/hoge/song1.mp3");
    let e = match register_entry(false, &path, &sync(), &keys(), FolderIdMayRoot::Folder(4)) {
        Ok(e) => e,
        Err(_) => panic!("a new song with a valid duration is registered"),
    };
    assert_eq!(e.duration, 183000);
    assert_eq!(e.path, "test/hoge/song1.mp3");
    assert_eq!(e.folder_id, Some(4));
    assert_eq!(e.title, "title");
    assert_eq!(e.album, "");
    assert_eq!(e.album_artist, "");
    assert_eq!(e.track_number, Some(3));
    assert_eq!(e.disc_number, None);
    assert_eq!(e.release_date, date());
    assert_eq!(e.rating, 0);
    assert_eq!(e.original_song, "");
    assert!(e.suggest_target);
    assert_eq!(e.memo, "");
    assert_eq!(e.memo_manage, "");
    assert_eq!(e.lyrics, "la la");
    assert_eq!(e.album_order, "");
    assert_eq!(e.genre_order, "rock");
    let root = register_entry(false, &path, &sync(), &keys(), FolderIdMayRoot::Root);
    assert!(matches!(root, Ok(e) if e.folder_id.is_none()));
}

#[test]
fn registering_a_known_song_fails() {
    let path = LibSongPath::new("a.mp3");
    match register_entry(true, &path, &sync(), &keys(), FolderIdMayRoot::Root) {
        Err(Error::DbSongAlreadyExists { path }) => assert_eq!(path, "a.mp3"),
        _ => panic!("a song already stored is not registered again"),
    }
    let mut long = sync();
    long.duration = 3000000000;
    assert!(matches!(
        register_entry(false, &path, &long, &keys(), FolderIdMayRoot::Root),
        Err(Error::OutOfRange { value: 3000000000 })
    ));
}

#[test]
fn saving_tags() {
    let song = DbSongSync { id: 5, path: LibSongPath::new("a.mp3"), song_sync: sync() };
    let e = match sync_entry(&song, &keys()) {
        Ok(e) => e,
        Err(_) => panic!("the duration fits"),
    };
    assert_eq!(e.duration, 183000);
    assert_eq!(e.artist, "taro");
    assert_eq!(e.album, "");
    assert_eq!(e.release_date, date());
    assert_eq!(e.title_order, "title");
    assert_eq!(e.album_artist_order, "");
}

fn sync_row(duration: i32) -> SongSyncRow {
    SongSyncRow {
        id: 8,
        duration,
        title: DbOptionString("t".to_owned()),
        artist: DbOptionString::none(),
        album: DbOptionString("al".to_owned()),
        genre: DbOptionString::none(),
        album_artist: DbOptionString::none(),
        composer: DbOptionString::none(),
        track_number: Some(1),
        track_max: None,
        disc_number: Some(2),
        disc_max: Some(2),
        release_date: None,
        memo: DbOptionString("m".to_owned()),
        lyrics: DbOptionString::none(),
    }
}

#[test]
fn reading_a_stored_song() {
    let art = TrackArtwork {
        picture: Picture { bytes: vec![1, 2], mime_type: "image/png".to_owned() },
        picture_type: 3,
        description: "front".to_owned(),
    };
    let s = match song_sync_from_row(sync_row(2000), &LibSongPath::new("x/y.flac"), vec![art]) {
        Ok(s) => s,
        Err(_) => panic!("the stored duration is valid"),
    };
    assert_eq!(s.id, 8);
    assert_eq!(s.path.as_str(), "x/y.flac");
    assert_eq!(s.song_sync.duration, 2000);
    assert_eq!(s.song_sync.title.as_deref(), Some("t"));
    assert_eq!(s.song_sync.artist, None);
    assert_eq!(s.song_sync.album.as_deref(), Some("al"));
    assert_eq!(s.song_sync.memo.as_deref(), Some("m"));
    assert_eq!(s.song_sync.lyrics, None);
    assert_eq!(s.song_sync.disc_max, Some(2));
    assert_eq!(s.song_sync.artworks.len(), 1);
    assert_eq!(s.song_sync.artworks[0].description, "front");
    assert!(matches!(
        song_sync_from_row(sync_row(-5), &LibSongPath::new("x"), vec![]),
        Err(Error::OutOfRange { value: -5 })
    ));
}

#[test]
fn entry_against_stored_row() {
    let path = LibSongPath::new("p.mp3");
    let e = match register_entry(false, &path, &sync(), &keys(), FolderIdMayRoot::Folder(2)) {
        Ok(e) => e,
        Err(_) => panic!("registrable"),
    };
    let mut row = SongRow {
        id: 1,
        duration: 183000,
        path: "p.mp3".to_owned(),
        folder_id: Some(2),
        title: DbOptionString("title".to_owned()),
        artist: DbOptionString("taro".to_owned()),
        album: DbOptionString::none(),
        genre: DbOptionString("rock".to_owned()),
        album_artist: DbOptionString::none(),
        composer: DbOptionString("jiro".to_owned()),
        track_number: Some(3),
        track_max: Some(12),
        disc_number: None,
        disc_max: None,
        release_date: date(),
        memo: DbOptionString::none(),
        rating: 0,
        original_track: DbOptionString::none(),
        suggest_target: true,
        memo_manage: DbOptionString::none(),
        lyrics: DbOptionString("la la".to_owned()),
        title_order: "title".to_owned(),
        artist_order: "taro".to_owned(),
        album_order: String::new(),
        genre_order: "rock".to_owned(),
        album_artist_order: String::new(),
        composer_order: "jiro".to_owned(),
    };
    assert!(e.assert_eq_row(&row));
    row.release_date = NaiveDate::from_ymd_opt(2021, 1, 27);
    assert!(!e.assert_eq_row(&row));
    row.release_date = date();
    row.rating = 1;
    assert!(!e.assert_eq_row(&row));
}

#[test]
fn directory_queries() {
    let repo = DbSongRepositoryImpl::new();
    let (sql, value) = repo.directory_query(&LibDirPath::root());
    assert_eq!(sql, "SELECT path FROM tracks");
    assert!(value.is_none());
    let (sql, value) = repo.directory_query(&LibDirPath::new("test/hoge"));
    assert_eq!(sql, "SELECT path FROM tracks WHERE path LIKE $1 || '%'");
    assert_eq!(value.as_deref(), Some("test/hoge/"));
    let (sql, value) = repo.directory_query(&LibDirPath::new("test/d%i_r$"));
    assert_eq!(sql, "SELECT path FROM tracks WHERE path LIKE $1 || '%' ESCAPE '$'");
    assert_eq!(value.as_deref(), Some("test/d$%i$_r$$/"));
    let dao = SongDaoImpl::new();
    let (sql, value) = dao.path_begins_directory_query(&LibDirPath::new("test"));
    assert_eq!(sql, "SELECT path FROM tracks WHERE path LIKE $1 || '%'");
    assert_eq!(value, "test/");
}

#[test]
fn duration_roundtrip_on_values() {
    for d in [0u32, 1, 183000, 2147483647] {
        let stored = duration_to_column(d).ok().expect("fits the column");
        assert!(matches!(duration_from_column(stored), Ok(v) if v == d));
    }
}

#[test]
fn path_text_songs() {
    let repo = DbSongRepositoryImpl::new();
    let dir = vec![LibSongPath::new("a/x.mp3")];
    let with = repo.paths_of_path_str(dir, true, LibSongPath::new("a"));
    let texts: Vec<&str> = with.iter().map(|p| p.as_str()).collect();
    assert_eq!(texts, vec!["a/x.mp3", "a"]);
    let without = repo.paths_of_path_str(vec![], false, LibSongPath::new("a"));
    assert!(without.is_empty());
}
