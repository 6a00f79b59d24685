use std::collections::HashMap;

use data_db::folder::{
    DbFolderRepositoryImpl, FolderPathDaoImpl, FolderRegistration, FolderStep, LibDirPath, LibPathStr, LibSongPath,
};
use data_db::model::FolderIdMayRoot;

#[test]
fn directory_paths() {
    assert_eq!(LibDirPath::new("test/hoge/fuga").as_str(), "test/hoge/fuga/");
    assert_eq!(LibDirPath::new("test/").as_str(), "test/");
    assert!(LibDirPath::new("").is_root());
    assert!(LibDirPath::root().is_root());
    assert!(!LibDirPath::new("test").is_root());
}

#[test]
fn parents_and_names() {
    let p = LibDirPath::new("test/hoge/fuga");
    let parent = p.parent().expect("a folder has a parent");
    assert_eq!(parent.as_str(), "test/hoge/");
    assert_eq!(p.dir_name().as_deref(), Some("fuga"));
    let top = LibDirPath::new("test");
    let root = top.parent().expect("a top folder has the root as parent");
    assert!(root.is_root());
    assert_eq!(top.dir_name().as_deref(), Some("test"));
    assert!(root.parent().is_none());
    assert!(root.dir_name().is_none());
}

#[test]
fn split_law_on_values() {
    for s in ["a/", "test/hoge/", "x/y/z/", "d%i_r$/"] {
        let p = LibDirPath::new(s);
        let parent = p.parent().expect("not the root");
        let name = p.dir_name().expect("not the root");
        assert_eq!(format!("{}{}/", parent.as_str(), name), s);
    }
}

#[test]
fn path_texts() {
    let s = LibPathStr::new("test/hoge.flac");
    assert_eq!(s.to_dir_path().as_str(), "test/hoge.flac/");
    assert_eq!(s.to_song_path().as_str(), "test/hoge.flac");
    assert_eq!(LibSongPath::new("a/b.mp3").as_str(), "a/b.mp3");
}

/// Runs a registration against a store of folders (path -> id, parent id).
fn run(store: &mut HashMap<String, (i32, Option<i32>)>, next_id: &mut i32, path: &str) -> FolderIdMayRoot {
    let repo = DbFolderRepositoryImpl::new();
    let (mut reg, mut step): (FolderRegistration, FolderStep) = repo.register_not_exists(&LibDirPath::new(path));
    loop {
        step = match step {
            FolderStep::Done(id) => return id,
            FolderStep::LookUp(p) => {
                let found = store.get(p.as_str()).map(|e| e.0);
                reg.on_found(found)
            }
            FolderStep::Insert { path, name, parent } => {
                let parent_id = match parent {
                    FolderIdMayRoot::Root => None,
                    FolderIdMayRoot::Folder(i) => Some(i),
                };
                assert!(path.as_str().ends_with(&format!("{name}/")));
                let id = *next_id;
                *next_id += 1;
                store.insert(path.as_str().to_owned(), (id, parent_id));
                reg.on_inserted(id)
            }
        };
    }
}

#[test]
fn register_two_missing_levels() {
    let mut store = HashMap::new();
    store.insert("test/".to_owned(), (1, None));
    let mut next = 10;
    let r = run(&mut store, &mut next, "test/hoge/fuga");
    assert_eq!(r, FolderIdMayRoot::Folder(11));
    assert_eq!(store.get("test/hoge/"), Some(&(10, Some(1))));
    assert_eq!(store.get("test/hoge/fuga/"), Some(&(11, Some(10))));
    assert_eq!(store.get("test/"), Some(&(1, None)));
    assert_eq!(store.len(), 3);
}

#[test]
fn register_directly_under_root() {
    let mut store = HashMap::new();
    let mut next = 1;
    let r = run(&mut store, &mut next, "test");
    assert_eq!(r, FolderIdMayRoot::Folder(1));
    assert_eq!(store.get("test/"), Some(&(1, None)));
}

#[test]
fn register_existing_folder() {
    let mut store = HashMap::new();
    store.insert("test/".to_owned(), (10, None));
    store.insert("test/hoge/".to_owned(), (11, Some(10)));
    store.insert("test/hoge/fuga/".to_owned(), (12, Some(11)));
    let mut next = 100;
    let r = run(&mut store, &mut next, "test/hoge/fuga");
    assert_eq!(r, FolderIdMayRoot::Folder(12));
    assert_eq!(store.len(), 3);
    assert_eq!(next, 100);
}

#[test]
fn register_root() {
    let mut store = HashMap::new();
    let mut next = 1;
    assert_eq!(run(&mut store, &mut next, ""), FolderIdMayRoot::Root);
    assert!(store.is_empty());
}

#[test]
fn register_steps_in_order() {
    let (mut reg, step) = FolderRegistration::start(&LibDirPath::new("a/b"));
    match step {
        FolderStep::LookUp(p) => assert_eq!(p.as_str(), "a/b/"),
        _ => panic!("a folder is first looked up"),
    }
    match reg.on_found(None) {
        FolderStep::LookUp(p) => assert_eq!(p.as_str(), "a/"),
        _ => panic!("a missing folder's parent is looked up next"),
    }
    match reg.on_found(None) {
        FolderStep::Insert { path, name, parent } => {
            assert_eq!(path.as_str(), "a/");
            assert_eq!(name, "a");
            assert_eq!(parent, FolderIdMayRoot::Root);
        }
        _ => panic!("the top folder is stored under the root"),
    }
    match reg.on_inserted(5) {
        FolderStep::Insert { path, name, parent } => {
            assert_eq!(path.as_str(), "a/b/");
            assert_eq!(name, "b");
            assert_eq!(parent, FolderIdMayRoot::Folder(5));
        }
        _ => panic!("then the folder below it"),
    }
    assert!(matches!(reg.on_inserted(6), FolderStep::Done(FolderIdMayRoot::Folder(6))));
}

#[test]
fn folder_row_values() {
    let dao = FolderPathDaoImpl::new();
    let v = dao.insert_values(&LibDirPath::new("test/hoge"), "hoge", FolderIdMayRoot::Folder(3));
    assert_eq!(v.path, "test/hoge/");
    assert_eq!(v.name, "hoge");
    assert_eq!(v.parent_id, Some(3));
    let top = dao.insert_values(&LibDirPath::new("test"), "test", FolderIdMayRoot::Root);
    assert_eq!(top.parent_id, None);
}

#[test]
fn register_same_folder_twice() {
    let mut store = HashMap::new();
    let mut next = 1;
    let first = run(&mut store, &mut next, "a/b");
    let size = store.len();
    let second = run(&mut store, &mut next, "a/b/");
    assert_eq!(first, second);
    assert_eq!(store.len(), size);
}
