use std::sync::{Arc, Mutex};

use data_db::error::Error;

use data_db::artwork::{
    after_use_count, picture_type_from_column, ArtworkAction, find_same_image, same_bytes, track_artwork_row, ArtworkCache, ArtworkImageRow, DbArtworkRepositoryImpl, Picture,
    TrackArtwork,
};

fn picture(bytes: &[u8]) -> Picture {
    Picture { bytes: bytes.to_vec(), mime_type: "image/jpeg".to_owned() }
}

fn row(id: i32, bytes: &[u8]) -> ArtworkImageRow {
    ArtworkImageRow { id, image: bytes.to_vec(), mime_type: format!("type{id}") }
}

#[test]
fn byte_comparison() {
    assert!(same_bytes(&[1, 2, 3], &[1, 2, 3]));
    assert!(!same_bytes(&[1, 2, 3], &[1, 2]));
    assert!(!same_bytes(&[1, 2, 3], &[1, 2, 4]));
    assert!(same_bytes(&[], &[]));
}

#[test]
fn finding_the_same_image() {
    let rows = vec![row(1, &[9]), row(2, &[1, 2]), row(3, &[1, 2])];
    assert_eq!(find_same_image(&rows, &[1, 2]), Some(1));
    assert_eq!(find_same_image(&rows, &[7]), None);
    assert_eq!(find_same_image(&vec![], &[7]), None);
}

#[test]
fn cache_gives_back_what_was_registered() {
    let mut cache = ArtworkCache::new();
    assert_eq!(cache.cached_id(&picture(&[1, 2])), None);
    cache.remember_new(5, picture(&[1, 2]));
    assert_eq!(cache.cached_id(&picture(&[1, 2])), Some(5));
    assert_eq!(cache.cached_id(&picture(&[1, 3])), None);
}

#[test]
fn cache_adopts_stored_image() {
    let mut cache = ArtworkCache::new();
    cache.remember_new(1, picture(&[0]));
    let id = cache.adopt_stored(vec![row(7, &[4]), row(8, &[5, 6])], &picture(&[5, 6]));
    assert_eq!(id, Some(8));
    assert_eq!(cache.cached_id(&picture(&[5, 6])), Some(8));
    match &cache.cache {
        Some(c) => assert_eq!(c.picture.mime_type, "type8"),
        None => panic!("the adopted artwork is cached"),
    }
    let none = cache.adopt_stored(vec![row(9, &[1])], &picture(&[2]));
    assert_eq!(none, None);
    assert_eq!(cache.cached_id(&picture(&[5, 6])), Some(8));
}

#[test]
fn cache_forgets_deleted_artwork() {
    let mut cache = ArtworkCache::new();
    cache.remember_new(5, picture(&[1]));
    cache.forget(6);
    assert_eq!(cache.cached_id(&picture(&[1])), Some(5));
    cache.forget(5);
    assert_eq!(cache.cached_id(&picture(&[1])), None);
    assert!(cache.cache.is_none());
}

#[test]
fn track_artwork_rows() {
    let art = TrackArtwork { picture: picture(&[1]), picture_type: 3, description: "front".to_owned() };
    let r = track_artwork_row(4, 2, 99, &art);
    assert_eq!((r.track_id, r.order_index, r.artwork_id, r.picture_type), (4, 2, 99, 3));
    assert_eq!(r.description, "front");
}

#[test]
fn shared_cache_through_the_repository() {
    let shared = Arc::new(Mutex::new(ArtworkCache::new()));
    let first = DbArtworkRepositoryImpl::new(Arc::clone(&shared));
    let second = DbArtworkRepositoryImpl::new(Arc::clone(&shared));
    first.artwork_cache().lock().expect("an unpoisoned cache").remember_new(3, picture(&[8, 8]));
    let cache = second.artwork_cache().lock().expect("an unpoisoned cache");
    assert_eq!(cache.cached_id(&picture(&[8, 8])), Some(3));
}

#[test]
fn picture_types_read_back() {
    assert!(matches!(picture_type_from_column(3), Ok(3)));
    assert!(matches!(picture_type_from_column(255), Ok(255)));
    assert!(matches!(picture_type_from_column(256), Err(Error::OutOfRange { value: 256 })));
    assert!(matches!(picture_type_from_column(-1), Err(Error::OutOfRange { value: -1 })));
    let art = TrackArtwork { picture: picture(&[1]), picture_type: 20, description: "d".to_owned() };
    let r = track_artwork_row(1, 0, 2, &art);
    assert!(matches!(picture_type_from_column(r.picture_type), Ok(20)));
}

#[test]
fn unused_artwork_is_deleted() {
    assert!(matches!(after_use_count(0, 7), ArtworkAction::Delete(7)));
    assert!(matches!(after_use_count(2, 7), ArtworkAction::Keep));
}
