use data_db::error::{
    diaplay_filter_no_parents_detected, diaplay_playlist_no_parents_detected,
    FilterNoParentsDetectedItem, PlaylistNoParentsDetectedItem,
};

#[test]
fn error_test_diaplay_playlist_no_parents_detected() {
    assert_eq!(
        &diaplay_playlist_no_parents_detected(&[
            PlaylistNoParentsDetectedItem {
                playlist_id: 4,
                name: "test1".to_owned(),
                parent_id: Some(2),
            },
            PlaylistNoParentsDetectedItem {
                playlist_id: 15,
                name: "hoge".to_owned(),
                parent_id: None,
            }
        ]),
        "{id: 4, name: test1, parent_id: 2}, {id: 15, name: hoge, parent_id: None}"
    )
}

#[test]
fn playlist_error_test_diaplay_playlist_no_parents_detected() {
    let first_name: String = "test1".to_string();
    let second_name: String = "hoge".to_string();
    assert_eq!(
        &diaplay_playlist_no_parents_detected(&[
            PlaylistNoParentsDetectedItem {
                playlist_id: 4,
                name: first_name,
                parent_id: Some(2),
            },
            PlaylistNoParentsDetectedItem {
                playlist_id: 15,
                name: second_name,
                parent_id: None,
            }
        ]),
        "{id: 4, name: test1, parent_id: 2}, {id: 15, name: hoge, parent_id: None}"
    );
}

#[test]
fn playlist_items_text_empty_and_negative() {
    assert_eq!(diaplay_playlist_no_parents_detected(&[]), "");
    assert_eq!(
        diaplay_playlist_no_parents_detected(&[PlaylistNoParentsDetectedItem {
            playlist_id: -7,
            name: String::new(),
            parent_id: Some(-2147483648),
        }]),
        "{id: -7, name: , parent_id: -2147483648}"
    );
}

#[test]
fn filter_items_text() {
    assert_eq!(
        diaplay_filter_no_parents_detected(&[
            FilterNoParentsDetectedItem {
                filter_id: 4,
                parent_id: Some(2),
                root_id: 1,
            },
            FilterNoParentsDetectedItem {
                filter_id: 15,
                parent_id: None,
                root_id: 1,
            },
        ]),
        "{id: 4, parent_id: 2, root_id: 1}, {id: 15, parent_id: None, root_id: 1}"
    );
    assert_eq!(diaplay_filter_no_parents_detected(&[]), "");
}
