//! Artworks: the cache of the artwork registered last, the choice among
//! stored images of the one equal to a new image, and the rows that tie a
//! track to its artworks.

use vstd::prelude::*;
use std::sync::{Arc, Mutex};
use crate::error::Error;

verus! {

/// A mutual-exclusion lock (`std::sync::Mutex`).
#[verifier::external_type_specification]
#[verifier::external_body]
#[verifier::reject_recursive_types(T)]
pub struct ExMutex<T: ?Sized>(std::sync::Mutex<T>);

/// An image: its bytes and MIME type.
pub struct Picture {
    pub bytes: Vec<u8>,
    pub mime_type: String,
}

/// An artwork of a track: the image, its picture type as stored, and its
/// description.
pub struct TrackArtwork {
    pub picture: Picture,
    pub picture_type: u8,
    pub description: String,
}

/// The image columns of a stored artwork.
pub struct ArtworkImageRow {
    pub id: i32,
    pub image: Vec<u8>,
    pub mime_type: String,
}

/// The artwork registered last: its id and image.
pub struct ArtworkCachedData {
    pub artwork_id: i32,
    pub picture: Picture,
}

/// Keeps the artwork registered last, so that registering the same image
/// again needs no look-up in the store.
pub struct ArtworkCache {
    pub cache: Option<ArtworkCachedData>,
}

/// The id that the cache gives for an image with bytes `bytes`: the cached
/// id when the cached image has exactly these bytes.
pub open spec fn cache_hit(cache: Option<ArtworkCachedData>, bytes: Seq<u8>) -> Option<i32> {
    match cache {
        Some(c) => if c.picture.bytes@ == bytes {
            Some(c.artwork_id)
        } else {
            None
        },
        None => None,
    }
}

/// The cache after the artwork `artwork_id` left the store: emptied when it
/// held that artwork, else unchanged.
pub open spec fn cache_without(cache: Option<ArtworkCachedData>, artwork_id: i32) -> Option<ArtworkCachedData> {
    match cache {
        Some(c) => if c.artwork_id == artwork_id {
            None
        } else {
            cache
        },
        None => None,
    }
}

/// Index of the first row whose image has exactly the bytes `bytes`.
pub open spec fn first_same_image(rows: Seq<ArtworkImageRow>, bytes: Seq<u8>) -> Option<int>
    decreases rows.len(),
{
    if rows.len() == 0 {
        None
    } else {
        match first_same_image(rows.drop_last(), bytes) {
            Some(k) => Some(k),
            None => if rows.last().image@ == bytes {
                Some(rows.len() - 1)
            } else {
                None
            },
        }
    }
}

/// Whether two byte strings are equal.
pub fn same_bytes(a: &[u8], b: &[u8]) -> (r: bool)
    ensures
        r == (a@ == b@),
{
    if a.len() != b.len() {
        return false;
    }
    let mut i: usize = 0;
    while i < a.len()
        invariant
            i <= a@.len(),
            a@.len() == b@.len(),
            forall|k: int| 0 <= k < i ==> a@[k] == b@[k],
        decreases a@.len() - i,
    {
        if a[i] != b[i] {
            return false;
        }
        i = i + 1;
    }
    assert(a@ =~= b@);
    true
}

/// The first stored image equal to `bytes`.
pub fn find_same_image(rows: &Vec<ArtworkImageRow>, bytes: &[u8]) -> (r: Option<usize>)
    ensures
        r is None ==> first_same_image(rows@, bytes@) is None,
        r matches Some(k) ==> first_same_image(rows@, bytes@) == Some(k as int),
{
    let mut i: usize = 0;
    while i < rows.len()
        invariant
            i <= rows@.len(),
            first_same_image(rows@.take(i as int), bytes@) is None,
        decreases rows@.len() - i,
    {
        let ghost t = rows@.take(i + 1);
        assert(t.drop_last() =~= rows@.take(i as int));
        if same_bytes(rows[i].image.as_slice(), bytes) {
            proof {
                lemma_first_same_image_prefix(rows@, bytes@, i + 1);
            }
            return Some(i);
        }
        i = i + 1;
    }
    assert(rows@.take(rows@.len() as int) =~= rows@);
    None
}

proof fn lemma_first_same_image_prefix(rows: Seq<ArtworkImageRow>, bytes: Seq<u8>, n: int)
    requires
        0 <= n <= rows.len(),
        first_same_image(rows.take(n), bytes) is Some,
    ensures
        first_same_image(rows, bytes) == first_same_image(rows.take(n), bytes),
    decreases rows.len(),
{
    if n < rows.len() {
        assert(rows.drop_last().take(n) =~= rows.take(n));
        lemma_first_same_image_prefix(rows.drop_last(), bytes, n);
    } else {
        assert(rows.take(n) =~= rows);
    }
}

/// The first image found equal is one of the rows, and it has the bytes sought.
pub proof fn law_first_same_image(rows: Seq<ArtworkImageRow>, bytes: Seq<u8>)
    ensures
        first_same_image(rows, bytes) matches Some(k) ==> 0 <= k < rows.len() && rows[k].image@ == bytes
            && forall|j: int| 0 <= j < k ==> rows[j].image@ != bytes,
        first_same_image(rows, bytes) is None ==> forall|j: int| 0 <= j < rows.len() ==> rows[j].image@ != bytes,
    decreases rows.len(),
{
    if rows.len() > 0 {
        law_first_same_image(rows.drop_last(), bytes);
        assert forall|j: int| 0 <= j < rows.len() - 1 implies rows[j] == rows.drop_last()[j] by {}
    }
}

impl ArtworkCache {
    /// An empty cache.
    pub fn new() -> (r: Self)
        ensures
            r.cache is None,
    {
        ArtworkCache { cache: None }
    }

    /// The id of the cached artwork, when its image has the bytes of `picture`.
    pub fn cached_id(&self, picture: &Picture) -> (r: Option<i32>)
        ensures
            r == cache_hit(self.cache, picture.bytes@),
    {
        match &self.cache {
            Some(c) => if same_bytes(c.picture.bytes.as_slice(), picture.bytes.as_slice()) {
                Some(c.artwork_id)
            } else {
                None
            },
            None => None,
        }
    }

    /// After the store was searched for images with the same hash as
    /// `picture`: the first of `rows` whose image is equal to it becomes the
    /// cached artwork and its id is returned; with none, the cache is kept.
    pub fn adopt_stored(&mut self, rows: Vec<ArtworkImageRow>, picture: &Picture) -> (r: Option<i32>)
        ensures
            first_same_image(rows@, picture.bytes@) is None ==> r is None && final(self).cache == old(self).cache,
            first_same_image(rows@, picture.bytes@) matches Some(k) ==> {
                &&& r == Some(rows@[k].id)
                &&& final(self).cache matches Some(c) && c.artwork_id == rows@[k].id && c.picture.bytes@ == rows@[k].image@
                    && c.picture.mime_type@ == rows@[k].mime_type@
                &&& cache_hit(final(self).cache, picture.bytes@) == r
            },
    {
        let found = find_same_image(&rows, picture.bytes.as_slice());
        proof {
            law_first_same_image(rows@, picture.bytes@);
        }
        match found {
            None => None,
            Some(k) => {
                let mut rows = rows;
                let row = rows.swap_remove(k);
                let id = row.id;
                self.cache = Some(
                    ArtworkCachedData { artwork_id: id, picture: Picture { bytes: row.image, mime_type: row.mime_type } },
                );
                Some(id)
            },
        }
    }

    /// After a new artwork was stored with id `artwork_id`: it becomes the
    /// cached artwork.
    pub fn remember_new(&mut self, artwork_id: i32, picture: Picture)
        ensures
            final(self).cache == Some(ArtworkCachedData { artwork_id, picture }),
    {
        self.cache = Some(ArtworkCachedData { artwork_id, picture });
    }

    /// After the artwork `artwork_id` was deleted from the store: the cache
    /// forgets it if it held it.
    pub fn forget(&mut self, artwork_id: i32)
        ensures
            final(self).cache == cache_without(old(self).cache, artwork_id),
    {
        let held = match &self.cache {
            Some(c) => c.artwork_id == artwork_id,
            None => false,
        };
        if held {
            self.cache = None;
        }
    }
}

/// Registering an artwork caches it: the same image is then found in the
/// cache with that id, and a different image is not.
pub proof fn law_cache_gives_back_remembered(artwork_id: i32, picture: Picture, bytes: Seq<u8>)
    ensures
        cache_hit(Some(ArtworkCachedData { artwork_id, picture }), picture.bytes@) == Some(artwork_id),
        bytes != picture.bytes@ ==> cache_hit(Some(ArtworkCachedData { artwork_id, picture }), bytes) is None,
{
}

/// A deleted artwork is never found in the cache afterwards, and deleting
/// another artwork leaves the cache as it was.
pub proof fn law_cache_forgets_deleted(cache: Option<ArtworkCachedData>, artwork_id: i32, bytes: Seq<u8>)
    ensures
        cache_hit(cache_without(cache, artwork_id), bytes) != Some(artwork_id),
        (cache matches Some(c) && c.artwork_id != artwork_id) ==> cache_without(cache, artwork_id) == cache,
{
}

/// Registering the same image twice gives the same id the second time:
/// once an image was registered under `artwork_id` (stored anew, or found
/// among the stored images), the cache answers the next registration of the
/// same bytes with that id.
pub proof fn law_same_image_twice(artwork_id: i32, picture: Picture, cache: Option<ArtworkCachedData>)
    requires
        cache matches Some(c) && c.artwork_id == artwork_id && c.picture.bytes@ == picture.bytes@,
    ensures
        cache_hit(cache, picture.bytes@) == Some(artwork_id),
{
}

/// A stored image is found again by a later registration of the same
/// bytes: when the rows looked up hold it, and no row before it holds the
/// same bytes, it is the image chosen.
pub proof fn law_stored_image_found_again(rows: Seq<ArtworkImageRow>, bytes: Seq<u8>, k: int)
    requires
        0 <= k < rows.len(),
        rows[k].image@ == bytes,
        forall|j: int| 0 <= j < k ==> (#[trigger] rows[j]).image@ != bytes,
    ensures
        first_same_image(rows, bytes) == Some(k),
    decreases rows.len(),
{
    if k < rows.len() - 1 {
        law_stored_image_found_again(rows.drop_last(), bytes, k);
    } else {
        law_first_same_image(rows.drop_last(), bytes);
        assert forall|j: int| 0 <= j < rows.len() - 1 implies rows.drop_last()[j].image@ != bytes by {
            assert(rows.drop_last()[j] == rows[j]);
        }
    }
}

/// A stored picture type read back: a value beyond the picture-type range is an error.
pub fn picture_type_from_column(value: i32) -> (r: Result<u8, Error>)
    ensures
        0 <= value <= 255 ==> r == Ok::<u8, Error>(value as u8),
        !(0 <= value <= 255) ==> r == Err::<u8, Error>(Error::OutOfRange { value: value as i64 }),
{
    if 0 <= value && value <= 255 {
        Ok(value as u8)
    } else {
        Err(Error::OutOfRange { value: value as i64 })
    }
}

/// The artworks of a track read back from the rows written for them give
/// their positions, picture types and descriptions again.
pub proof fn law_track_artwork_row_reads_back(track_id: i32, index: usize, artwork_id: i32, art: TrackArtwork, row: TrackArtworkRow)
    requires
        index <= i32::MAX,
        row.track_id == track_id,
        row.order_index == index as i32,
        row.artwork_id == artwork_id,
        row.picture_type == art.picture_type as i32,
        row.description@ == art.description@,
    ensures
        row.order_index as int == index as int,
        0 <= row.picture_type <= 255 && row.picture_type as u8 == art.picture_type,
        row.description@ == art.description@,
{
}

/// What becomes of an artwork once a track no longer uses it.
pub enum ArtworkAction {
    /// No track uses the artwork any more: delete it (and forget it in the cache).
    Delete(i32),
    /// Other tracks still use the artwork: keep it.
    Keep,
}

/// What becomes of artwork `artwork_id` when `use_count` tracks still use
/// it: it is deleted when none does.
pub fn after_use_count(use_count: i64, artwork_id: i32) -> (a: ArtworkAction)
    ensures
        use_count == 0 <==> a == ArtworkAction::Delete(artwork_id),
        use_count != 0 <==> a == ArtworkAction::Keep,
{
    if use_count == 0 {
        ArtworkAction::Delete(artwork_id)
    } else {
        ArtworkAction::Keep
    }
}

/// A row that ties a track to one of its artworks.
pub struct TrackArtworkRow {
    pub track_id: i32,
    pub order_index: i32,
    pub artwork_id: i32,
    pub picture_type: i32,
    pub description: String,
}

/// The row that ties track `track_id` to its artwork at position `index`,
/// stored under `artwork_id`.
pub fn track_artwork_row(track_id: i32, index: usize, artwork_id: i32, artwork: &TrackArtwork) -> (r: TrackArtworkRow)
    ensures
        r.track_id == track_id,
        r.order_index == index as i32,
        r.artwork_id == artwork_id,
        r.picture_type == artwork.picture_type as i32,
        r.description@ == artwork.description@,
{
    TrackArtworkRow {
        track_id,
        order_index: index as i32,
        artwork_id,
        picture_type: artwork.picture_type as i32,
        description: artwork.description.clone(),
    }
}

/// The artwork operations of the store, sharing one artwork cache.
pub struct DbArtworkRepositoryImpl {
    artwork_cache: Arc<Mutex<ArtworkCache>>,
}

impl DbArtworkRepositoryImpl {
    /// The shared cache this repository works with.
    pub closed spec fn shared_cache(&self) -> Arc<Mutex<ArtworkCache>> {
        self.artwork_cache
    }

    /// A repository working with the shared cache `artwork_cache`.
    pub fn new(artwork_cache: Arc<Mutex<ArtworkCache>>) -> (r: Self)
        ensures
            r.shared_cache() == artwork_cache,
    {
        DbArtworkRepositoryImpl { artwork_cache }
    }

    /// The shared cache this repository works with; whoever locks it gets
    /// the cache value that the `ArtworkCache` operations work on.
    pub fn artwork_cache(&self) -> (r: &Arc<Mutex<ArtworkCache>>)
        ensures
            *r == self.shared_cache(),
    {
        &self.artwork_cache
    }
}

} // verus!
