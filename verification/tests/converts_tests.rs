use data_db::converts::{
    db_from_folder_id_may_root, db_into_folder_id_may_root, DbFilterTarget, DbFilterValueRange, DbOptionString,
    DbPlaylistType, DbSortType,
};
use data_db::error::Error;
use data_db::model::{FilterTarget, FilterValueRange, FolderIdMayRoot, PlaylistType, SortType};

#[test]
fn option_strings() {
    assert_eq!(DbOptionString::none().as_nonnull_str(), "");
    assert_eq!(DbOptionString::from_option(Some("a".to_owned())).as_nonnull_str(), "a");
    assert_eq!(DbOptionString::from_option(None).as_nonnull_str(), "");
    assert_eq!(DbOptionString::from_string("b".to_owned()).as_nonnull_str(), "b");
    assert_eq!(DbOptionString("x".to_owned()).into_option(), Some("x".to_owned()));
    assert_eq!(DbOptionString::none().into_option(), None);
    assert_eq!(DbOptionString::from_option(Some("v".to_owned())).into_option(), Some("v".to_owned()));
}

#[test]
fn folder_ids() {
    assert_eq!(db_from_folder_id_may_root(FolderIdMayRoot::Folder(3)), Some(3));
    assert_eq!(db_from_folder_id_may_root(FolderIdMayRoot::Root), None);
    assert_eq!(db_into_folder_id_may_root(Some(3)), FolderIdMayRoot::Folder(3));
    assert_eq!(db_into_folder_id_may_root(None), FolderIdMayRoot::Root);
    for id in [FolderIdMayRoot::Root, FolderIdMayRoot::Folder(-1), FolderIdMayRoot::Folder(12)] {
        assert_eq!(db_into_folder_id_may_root(db_from_folder_id_may_root(id)), id);
    }
}

#[test]
fn stored_enum_numbers() {
    assert!(matches!(DbPlaylistType::from_number(2), Ok(DbPlaylistType(PlaylistType::Folder))));
    assert!(matches!(DbPlaylistType::from_number(3), Err(Error::InvalidPlaylistType { type_num: 3 })));
    assert!(matches!(DbSortType::from_number(-1), Err(Error::InvalidSortType { type_num: -1 })));
    assert!(matches!(DbSortType::from_number(12), Ok(DbSortType(SortType::Path))));
    assert!(matches!(DbFilterTarget::from_number(21), Err(Error::InvalidFilterTarget { type_num: 21 })));
    assert!(matches!(DbFilterTarget::from_number(0), Ok(DbFilterTarget(FilterTarget::Title))));
    assert!(matches!(DbFilterValueRange::from_number(28), Err(Error::InvalidFilterValueRange { type_num: 28 })));
    assert_eq!(DbFilterValueRange(FilterValueRange::DateNone).number(), 27);
    assert_eq!(DbFilterTarget(FilterTarget::Artwork).number(), 20);
}

#[test]
fn stored_enum_roundtrip() {
    for n in 0..28i64 {
        match DbFilterValueRange::from_number(n) {
            Ok(v) => assert_eq!(v.number(), n),
            Err(_) => panic!("every number below 28 names a range"),
        }
    }
    for n in 0..21i64 {
        let v = DbFilterTarget::from_number(n).ok().expect("a target");
        assert_eq!(v.number(), n);
    }
    for n in 0..13i64 {
        let v = DbSortType::from_number(n).ok().expect("a sort type");
        assert_eq!(v.number(), n);
    }
    for n in 0..3i64 {
        let v = DbPlaylistType::from_number(n).ok().expect("a playlist type");
        assert_eq!(DbPlaylistType::from_number(v.number()).ok().map(|w| w.0), Some(v.0));
    }
}

#[test]
fn default_option_string_is_none() {
    assert_eq!(DbOptionString::default().as_nonnull_str(), "");
    assert_eq!(DbOptionString::default().into_option(), None);
}
