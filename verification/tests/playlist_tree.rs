use data_db::error::Error;
use data_db::model::{Playlist, PlaylistType, SortType};
use data_db::playlist::{playlist_from_row, playlist_tree_from_rows, PlaylistRow};

fn tree_test_row(id: i32, name: &str, parent_id: Option<i32>) -> PlaylistRow {
    PlaylistRow {
        id,
        name: name.to_owned(),
        parent_id,
        playlist_type: PlaylistType::Normal,
        in_folder_order: 0,
        filter: None,
        sort_type: SortType::Artist,
        sort_desc: false,
        save_dap: true,
        listuped_flag: false,
        dap_changed: true,
    }
}

/// A playlist tree written out: `id:name(parent)[parent names]{children}`.
fn describe(list: &[Playlist]) -> String {
    let mut out = String::new();
    for (i, p) in list.iter().enumerate() {
        if i > 0 {
            out.push_str(", ");
        }
        let parent = match p.parent_id {
            Some(id) => id.to_string(),
            None => "-".to_owned(),
        };
        out.push_str(&format!(
            "{}:{}({})[{}]{{{}}}",
            p.rowid,
            p.name,
            parent,
            p.parent_names.join("/"),
            describe(&p.children)
        ));
        assert_eq!(p.playlist_type, PlaylistType::Normal);
        assert_eq!(p.in_folder_order, 0);
        assert!(p.filter.is_none());
        assert_eq!(p.sort_type, SortType::Artist);
        assert!(!p.sort_desc);
        assert!(p.save_dap);
        assert!(!p.listuped_flag);
        assert!(p.dap_changed);
    }
    out
}

#[test]
fn test_get_playlist_tree_empty() {
    let result = playlist_tree_from_rows(vec![]);
    match result {
        Ok(list) => assert!(list.is_empty()),
        Err(_) => panic!("an empty store is an empty tree"),
    }
}

#[test]
fn test_get_playlist_tree_flat() {
    let result = playlist_tree_from_rows(vec![
        tree_test_row(3, "one", None),
        tree_test_row(5, "two", None),
        tree_test_row(2, "three", None),
    ]);
    match result {
        Ok(list) => assert_eq!(describe(&list), "3:one(-)[]{}, 5:two(-)[]{}, 2:three(-)[]{}"),
        Err(_) => panic!("every row is at the top"),
    }
}

#[test]
fn test_get_playlist_tree_treed() {
    let result = playlist_tree_from_rows(vec![
        tree_test_row(3, "1-1", Some(5)),
        tree_test_row(5, "root1", None),
        tree_test_row(9, "1-2-1", Some(2)),
        tree_test_row(2, "1-2", Some(5)),
        tree_test_row(35, "root2", None),
        tree_test_row(75, "2-1", Some(35)),
        tree_test_row(98, "1-2-2", Some(2)),
        tree_test_row(1, "1-3", Some(5)),
    ]);
    match result {
        Ok(list) => assert_eq!(
            describe(&list),
            "5:root1(-)[]{3:1-1(5)[root1]{}, 2:1-2(5)[root1]{9:1-2-1(2)[root1/1-2]{}, \
             98:1-2-2(2)[root1/1-2]{}}, 1:1-3(5)[root1]{}}, 35:root2(-)[]{75:2-1(35)[root2]{}}"
        ),
        Err(_) => panic!("every row hangs below the top"),
    }
}

#[test]
fn playlist_tree_reports_rows_without_parent() {
    let result = playlist_tree_from_rows(vec![
        tree_test_row(5, "root1", None),
        tree_test_row(4, "test1", Some(2)),
        tree_test_row(6, "child", Some(5)),
        tree_test_row(15, "hoge", Some(4)),
    ]);
    match result {
        Err(Error::PlaylistNoParentsDetected(items)) => {
            assert_eq!(items.len(), 2);
            assert_eq!(items[0].playlist_id, 4);
            assert_eq!(items[0].name, "test1");
            assert_eq!(items[0].parent_id, Some(2));
            assert_eq!(items[1].playlist_id, 15);
            assert_eq!(items[1].name, "hoge");
            assert_eq!(items[1].parent_id, Some(4));
        }
        _ => panic!("rows 4 and 15 have no parent in the store"),
    }
}

#[test]
fn playlist_tree_cycle_is_reported() {
    let result = playlist_tree_from_rows(vec![tree_test_row(1, "a", Some(2)), tree_test_row(2, "b", Some(1))]);
    match result {
        Err(Error::PlaylistNoParentsDetected(items)) => assert_eq!(items.len(), 2),
        _ => panic!("rows in a cycle never reach the top"),
    }
}

#[test]
fn playlist_from_row_wraps_negative_order() {
    let mut row = tree_test_row(7, "x", None);
    row.in_folder_order = -1;
    let p = playlist_from_row(row);
    assert_eq!(p.in_folder_order, u32::MAX);
    assert!(p.children.is_empty());
    assert!(p.parent_names.is_empty());
}
