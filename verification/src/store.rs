//! The content store: items, their image records, and the operations that
//! capture, query and delete them. One store value is the single point
//! through which every operation goes, one at a time.

use crate::artifacts::{original_path, original_path_of, thumbnail_path, thumbnail_path_of};
use crate::clipboard::{ClipboardEntry, decode_lossy, is_image_mime, mime_ext, title_from_text};
use crate::error::ErrorKind;
use crate::lemmas::{
    lemma_delete_keeps_valid, lemma_has_id, lemma_insert_keeps_valid, lemma_star_keeps_valid,
    lemma_touch_keeps_valid,
};
use crate::model::{
    after_capture, after_delete, after_insert_image, after_insert_text, after_set_starred,
    after_touch, all_unstarred, any_of, by_ids, can_insert, Doom, doomed, dropped_hashes,
    dropped_items, expired, has_hash, has_id, has_image, hashes_of, ids_of, ImageView,
    item_by_hash, item_by_id, ItemView, kept_images, kept_items, next_id_after, only, refreshes,
    StoreView, valid, with_item,
};
use crate::text::{first_index, lemma_first_index_is, str_eq, texts_of};
use vstd::prelude::*;
use vstd::slice::slice_to_vec;

verus! {

/// One clipboard-history entry.
#[derive(Debug)]
pub struct Item {
    /// Identity, assigned by the store.
    pub id: i64,
    /// When the content was first seen, in seconds.
    pub created_at: i64,
    /// When the row was last changed, in seconds.
    pub updated_at: i64,
    /// When the content was last seen or used, in seconds.
    pub last_used: i64,
    /// The pin that exempts the item from retention and bulk deletion.
    pub starred: bool,
    /// A short label.
    pub title: String,
    /// The full text; empty for an image.
    pub body: String,
    /// The content hash: the deduplication key.
    pub hash: String,
}

/// The image record of an image item.
#[derive(Debug)]
pub struct ImageRow {
    /// The item that owns this record.
    pub item_id: i64,
    /// When the image was captured, in seconds.
    pub created_at: i64,
    /// The MIME type of the payload.
    pub mime: String,
    /// The raw image bytes.
    pub bytes: Vec<u8>,
}

impl View for Item {
    type V = ItemView;

    open spec fn view(&self) -> ItemView {
        ItemView {
            id: self.id as int,
            created_at: self.created_at as int,
            updated_at: self.updated_at as int,
            last_used: self.last_used as int,
            starred: self.starred,
            title: self.title@,
            body: self.body@,
            hash: self.hash@,
        }
    }
}

impl View for ImageRow {
    type V = ImageView;

    open spec fn view(&self) -> ImageView {
        ImageView {
            item_id: self.item_id as int,
            created_at: self.created_at as int,
            mime: self.mime@,
            bytes: self.bytes@,
        }
    }
}

/// The views of a list of items.
pub open spec fn item_views(items: Seq<Item>) -> Seq<ItemView> {
    Seq::new(items.len(), |i: int| items[i]@)
}

/// The views of a list of image records.
pub open spec fn image_views(images: Seq<ImageRow>) -> Seq<ImageView> {
    Seq::new(images.len(), |i: int| images[i]@)
}

/// What a capture has to do before the store may take the entry.
#[derive(Debug)]
pub enum CapturePlan {
    /// The content is stored already: refresh the item with this id.
    Refresh { id: i64 },
    /// Insert a text item; nothing is to be written first.
    InsertText,
    /// Insert an image item, once the original has been written to
    /// `original` and the thumbnail to `thumbnail`.
    InsertImage { original: String, thumbnail: String },
}

/// A capture plan as a mathematical value.
pub enum PlanView {
    Refresh { id: int },
    InsertText,
    InsertImage { original: Seq<char>, thumbnail: Seq<char> },
}

impl View for CapturePlan {
    type V = PlanView;

    open spec fn view(&self) -> PlanView {
        match self {
            CapturePlan::Refresh { id } => PlanView::Refresh { id: *id as int },
            CapturePlan::InsertText => PlanView::InsertText,
            CapturePlan::InsertImage { original, thumbnail } => PlanView::InsertImage {
                original: original@,
                thumbnail: thumbnail@,
            },
        }
    }
}

/// The plan of a capture: what `capture` will do with the entry, and for
/// an image the artifact files that must be written before it. An image
/// cannot be captured where the data directory is not known.
pub open spec fn plan_of(
    s: StoreView,
    mime: Seq<char>,
    hash: Seq<char>,
    dedupe: bool,
) -> Result<PlanView, ErrorKind> {
    if refreshes(s, hash, dedupe) {
        Ok(PlanView::Refresh { id: item_by_hash(s, hash).id })
    } else if has_hash(s, hash) {
        Err(ErrorKind::Conflict)
    } else if s.next_id >= i64::MAX {
        Err(ErrorKind::StoreFailure)
    } else if !is_image_mime(mime) {
        Ok(PlanView::InsertText)
    } else if s.data_dir is None {
        Err(ErrorKind::ArtifactFailure)
    } else {
        Ok(
            PlanView::InsertImage {
                original: original_path_of(s.data_dir->0, hash, mime_ext(mime)),
                thumbnail: thumbnail_path_of(s.data_dir->0, hash),
            },
        )
    }
}

/// What a capture did.
#[derive(Debug, Clone, Copy, PartialEq, Eq, Structural)]
pub enum Captured {
    /// The content was known: the item with this id had its `last_used`
    /// refreshed.
    Refreshed(i64),
    /// A text item was inserted under this id.
    InsertedText(i64),
    /// An image item and its image record were inserted under this id.
    InsertedImage(i64),
}

/// Whether a capture would insert an image whose artifact files were not
/// written.
pub open spec fn lacks_artifacts(
    s: StoreView,
    mime: Seq<char>,
    hash: Seq<char>,
    artifacts_written: bool,
) -> bool {
    !artifacts_written && is_image_mime(mime) && can_insert(s, hash)
}

/// What a capture that was handed over after its plan reports.
pub open spec fn commit_result(
    s: StoreView,
    mime: Seq<char>,
    hash: Seq<char>,
    dedupe: bool,
    artifacts_written: bool,
) -> Result<Captured, ErrorKind> {
    if lacks_artifacts(s, mime, hash, artifacts_written) {
        Err(ErrorKind::ArtifactFailure)
    } else {
        capture_result(s, mime, hash, dedupe)
    }
}

/// The store after a capture that was handed over after its plan.
pub open spec fn after_commit(
    s: StoreView,
    mime: Seq<char>,
    data: Seq<u8>,
    hash: Seq<char>,
    dedupe: bool,
    now: int,
    artifacts_written: bool,
) -> StoreView {
    if lacks_artifacts(s, mime, hash, artifacts_written) {
        s
    } else {
        after_capture(s, mime, data, hash, dedupe, now)
    }
}

/// What a capture reports.
pub open spec fn capture_result(
    s: StoreView,
    mime: Seq<char>,
    hash: Seq<char>,
    dedupe: bool,
) -> Result<Captured, ErrorKind> {
    if refreshes(s, hash, dedupe) {
        Ok(Captured::Refreshed(item_by_hash(s, hash).id as i64))
    } else if has_hash(s, hash) {
        Err(ErrorKind::Conflict)
    } else if s.next_id >= i64::MAX {
        Err(ErrorKind::StoreFailure)
    } else if is_image_mime(mime) {
        Ok(Captured::InsertedImage(s.next_id as i64))
    } else {
        Ok(Captured::InsertedText(s.next_id as i64))
    }
}

/// The rule of a deletion, from what the caller hands over.
pub open spec fn rule_of(ids: Option<&[i64]>, before: Option<i64>, spare_starred: bool) -> Doom {
    Doom {
        ids: match ids {
            Some(list) => Some(list@),
            None => None,
        },
        before: match before {
            Some(cutoff) => Some(cutoff as int),
            None => None,
        },
        spare_starred,
    }
}

/// What a deletion took.
#[derive(Debug)]
pub struct Removal {
    /// The number of items deleted.
    pub deleted_items: u64,
    /// The number of image records deleted with them.
    pub deleted_images: u64,
    /// The hashes of the deleted items, in store order: the artifact files
    /// to remove once the deletion is done.
    pub hashes: Vec<String>,
}

/// Whether `removal` is what the deletion by `rule` took from `s`.
pub open spec fn is_removal(removal: Removal, s: StoreView, rule: Doom) -> bool {
    &&& removal.deleted_items == dropped_items(s.items, rule).len()
    &&& removal.deleted_images == s.images.len() - kept_images(s, s.images, rule).len()
    &&& texts_of(removal.hashes@) == dropped_hashes(s, rule)
}

fn takes(item: &Item, ids: Option<&[i64]>, before: Option<i64>, spare_starred: bool) -> (yes: bool)
    ensures
        yes == doomed(rule_of(ids, before, spare_starred), item@),
{
    if spare_starred && item.starred {
        return false;
    }
    if let Some(cutoff) = before {
        if item.created_at >= cutoff {
            return false;
        }
    }
    match ids {
        None => true,
        Some(list) => {
            let mut k: usize = 0;
            while k < list.len()
                invariant
                    k <= list.len(),
                    ids == Some(list),
                    spare_starred ==> !item.starred,
                    before matches Some(cutoff) ==> item.created_at < cutoff,
                    forall|j: int| 0 <= j < k ==> list@[j] != item.id,
                decreases list.len() - k,
            {
                if list[k] == item.id {
                    return true;
                }
                k += 1;
            }
            false
        },
    }
}

/// The store that rows kept elsewhere make.
pub open spec fn restored(
    data_dir: Option<String>,
    items: Seq<Item>,
    images: Seq<ImageRow>,
) -> StoreView {
    StoreView {
        items: item_views(items),
        images: image_views(images),
        next_id: next_id_after(item_views(items)),
        data_dir: match data_dir {
            Some(dir) => Some(dir@),
            None => None,
        },
    }
}

/// The content store.
#[derive(Debug)]
pub struct Store {
    items: Vec<Item>,
    images: Vec<ImageRow>,
    next_id: i64,
    data_dir: Option<String>,
}

impl View for Store {
    type V = StoreView;

    closed spec fn view(&self) -> StoreView {
        StoreView {
            items: item_views(self.items@),
            images: image_views(self.images@),
            next_id: self.next_id as int,
            data_dir: match self.data_dir {
                Some(dir) => Some(dir@),
                None => None,
            },
        }
    }
}

impl Store {
    /// The store keeps its invariant.
    pub open spec fn well_formed(&self) -> bool {
        valid(self@)
    }

    /// An empty store whose artifacts lie under `data_dir`.
    pub fn new(data_dir: Option<String>) -> (store: Self)
        ensures
            store.well_formed(),
            store@.items.len() == 0,
            store@.images.len() == 0,
            store@.next_id == 1,
            store@.data_dir == match data_dir {
                Some(dir) => Some(dir@),
                None => None,
            },
    {
        Store { items: Vec::new(), images: Vec::new(), next_id: 1, data_dir }
    }

    /// Rebuilds a store from rows that were kept elsewhere, the items in
    /// the order of their ids. Rows that break the store's invariant are
    /// refused: an id below one or out of order, a hash that occurs twice,
    /// an image record without its item, or no id left for the next insert.
    pub fn restore(data_dir: Option<String>, items: Vec<Item>, images: Vec<ImageRow>) -> (result:
        Result<Store, ErrorKind>)
        ensures
            result is Ok <==> valid(restored(data_dir, items@, images@)),
            result matches Ok(store) ==> store.well_formed() && store@ == restored(
                data_dir,
                items@,
                images@,
            ),
            result matches Err(kind) ==> kind == ErrorKind::StoreFailure,
    {
        let ghost target = restored(data_dir, items@, images@);
        let n = items.len();
        let mut i: usize = 0;
        while i < n
            invariant
                i <= n,
                n == items@.len(),
                target == restored(data_dir, items@, images@),
                forall|a: int| 0 <= a < i ==> 1 <= (#[trigger] target.items[a]).id,
                forall|a: int, b: int|
                    0 <= a < b < i ==> (#[trigger] target.items[a]).id < (
                    #[trigger] target.items[b]).id,
                forall|a: int, b: int|
                    0 <= a < b < i ==> (#[trigger] target.items[a]).hash != (
                    #[trigger] target.items[b]).hash,
            decreases n - i,
        {
            assert(target.items[i as int] == items@[i as int]@);
            if items[i].id < 1 {
                return Err(ErrorKind::StoreFailure);
            }
            if i > 0 {
                assert(target.items[i - 1] == items@[i - 1]@);
                if items[i - 1].id >= items[i].id {
                    return Err(ErrorKind::StoreFailure);
                }
            }
            let mut j: usize = 0;
            while j < i
                invariant
                    j <= i < n,
                    n == items@.len(),
                    target == restored(data_dir, items@, images@),
                    forall|a: int|
                        0 <= a < j ==> (#[trigger] target.items[a]).hash
                            != target.items[i as int].hash,
                decreases i - j,
            {
                assert(target.items[j as int] == items@[j as int]@);
                assert(target.items[i as int] == items@[i as int]@);
                if str_eq(items[j].hash.as_str(), items[i].hash.as_str()) {
                    return Err(ErrorKind::StoreFailure);
                }
                j += 1;
            }
            i += 1;
        }
        if n > 0 {
            assert(target.items[n - 1] == items@[n - 1]@);
            if items[n - 1].id == i64::MAX {
                return Err(ErrorKind::StoreFailure);
            }
        }
        let next_id = if n == 0 {
            1
        } else {
            items[n - 1].id + 1
        };
        let store = Store { items, images, next_id, data_dir };
        let mut k: usize = 0;
        while k < store.images.len()
            invariant
                k <= store.images.len(),
                store@ == target,
                target == restored(data_dir, items@, images@),
                forall|a: int| 0 <= a < k ==> has_id(target, (#[trigger] target.images[a]).item_id),
            decreases store.images.len() - k,
        {
            if store.position_of(store.images[k].item_id) >= store.items.len() {
                assert(!has_id(target, target.images[k as int].item_id));
                return Err(ErrorKind::StoreFailure);
            }
            k += 1;
        }
        Ok(store)
    }

    /// The number of items.
    pub fn len(&self) -> (n: usize)
        ensures
            n == self@.items.len(),
    {
        self.items.len()
    }

    /// The number of image records.
    pub fn image_count(&self) -> (n: usize)
        ensures
            n == self@.images.len(),
    {
        self.images.len()
    }

    fn position_of_hash(&self, hash: &str) -> (at: usize)
        ensures
            at == first_index(hashes_of(self@), hash@),
            at <= self@.items.len(),
            at < self@.items.len() ==> self.items@[at as int]@.hash == hash@,
    {
        let mut i: usize = 0;
        while i < self.items.len()
            invariant
                i <= self.items.len(),
                forall|j: int| 0 <= j < i ==> hashes_of(self@)[j] != hash@,
            decreases self.items.len() - i,
        {
            if str_eq(self.items[i].hash.as_str(), hash) {
                proof {
                    lemma_first_index_is(hashes_of(self@), hash@, i as int);
                }
                return i;
            }
            i += 1;
        }
        proof {
            lemma_first_index_is(hashes_of(self@), hash@, i as int);
        }
        i
    }

    /// The position of the item with this id, or the number of items where
    /// none has it.
    pub fn position_of(&self, id: i64) -> (at: usize)
        ensures
            at == first_index(ids_of(self@), id as int),
            at <= self@.items.len(),
            at < self@.items.len() <==> has_id(self@, id as int),
            at < self@.items.len() ==> self@.items[at as int] == item_by_id(self@, id as int),
            at < self@.items.len() ==> self@.items[at as int].id == id,
    {
        let mut i: usize = 0;
        while i < self.items.len()
            invariant
                i <= self.items.len(),
                forall|j: int| 0 <= j < i ==> ids_of(self@)[j] != id,
            decreases self.items.len() - i,
        {
            if self.items[i].id == id {
                proof {
                    lemma_first_index_is(ids_of(self@), id as int, i as int);
                }
                return i;
            }
            i += 1;
        }
        proof {
            lemma_first_index_is(ids_of(self@), id as int, i as int);
        }
        i
    }

    /// Inserts a text item for new content, with the title taken from the
    /// first line of `body`. Content whose hash is already stored is a
    /// conflict; a store that has given out every id fails. Either way the
    /// store is then left as it was.
    pub fn insert_text(&mut self, body: &str, hash: &str, now: i64) -> (result: Result<
        i64,
        ErrorKind,
    >)
        requires
            old(self).well_formed(),
        ensures
            final(self).well_formed(),
            result is Ok <==> can_insert(old(self)@, hash@),
            result matches Ok(id) ==> id == old(self)@.next_id && final(self)@ == after_insert_text(
                old(self)@,
                body@,
                hash@,
                now as int,
            ),
            result is Err ==> final(self)@ == old(self)@,
            result matches Err(kind) ==> kind == (if has_hash(old(self)@, hash@) {
                ErrorKind::Conflict
            } else {
                ErrorKind::StoreFailure
            }),
    {
        let at = self.position_of_hash(hash);
        if at < self.items.len() {
            return Err(ErrorKind::Conflict);
        }
        if self.next_id == i64::MAX {
            return Err(ErrorKind::StoreFailure);
        }
        let id = self.next_id;
        let item = Item {
            id,
            created_at: now,
            updated_at: now,
            last_used: now,
            starred: false,
            title: title_from_text(body),
            body: body.to_owned(),
            hash: hash.to_owned(),
        };
        proof {
            lemma_insert_keeps_valid(self@, item@);
        }
        self.items.push(item);
        self.next_id = id + 1;
        assert(final(self)@.items == old(self)@.items.push(item@));
        Ok(id)
    }

    /// Inserts an image item for new content, together with its image
    /// record: both or neither. The conditions are those of `insert_text`.
    pub fn insert_image(&mut self, mime: &str, bytes: &[u8], hash: &str, now: i64) -> (result:
        Result<i64, ErrorKind>)
        requires
            old(self).well_formed(),
        ensures
            final(self).well_formed(),
            result is Ok <==> can_insert(old(self)@, hash@),
            result matches Ok(id) ==> id == old(self)@.next_id && final(self)@
                == after_insert_image(old(self)@, mime@, bytes@, hash@, now as int),
            result is Err ==> final(self)@ == old(self)@,
            result matches Err(kind) ==> kind == (if has_hash(old(self)@, hash@) {
                ErrorKind::Conflict
            } else {
                ErrorKind::StoreFailure
            }),
    {
        let at = self.position_of_hash(hash);
        if at < self.items.len() {
            return Err(ErrorKind::Conflict);
        }
        if self.next_id == i64::MAX {
            return Err(ErrorKind::StoreFailure);
        }
        let id = self.next_id;
        let mut title = "Image: ".to_owned();
        title.append(hash);
        let item = Item {
            id,
            created_at: now,
            updated_at: now,
            last_used: now,
            starred: false,
            title,
            body: String::new(),
            hash: hash.to_owned(),
        };
        let image = ImageRow {
            item_id: id,
            created_at: now,
            mime: mime.to_owned(),
            bytes: slice_to_vec(bytes),
        };
        proof {
            lemma_insert_keeps_valid(self@, item@);
            let grown = with_item(self@, item@);
            assert(grown.items[grown.items.len() - 1].id == id);
            lemma_has_id(grown, id as int);
        }
        self.items.push(item);
        self.images.push(image);
        self.next_id = id + 1;
        assert(final(self)@.items == old(self)@.items.push(item@));
        assert(final(self)@.images == old(self)@.images.push(image@));
        Ok(id)
    }

    /// Records that the item with this id was seen or used at `now`. Nothing
    /// but its `last_used` changes. Returns the number of items changed.
    pub fn touch_last_used(&mut self, id: i64, now: i64) -> (updated: u64)
        requires
            old(self).well_formed(),
        ensures
            final(self).well_formed(),
            final(self)@ == after_touch(old(self)@, id as int, now as int),
            updated == (if has_id(old(self)@, id as int) {
                1int
            } else {
                0int
            }),
    {
        let at = self.position_of(id);
        proof {
            lemma_touch_keeps_valid(self@, id as int, now as int);
        }
        if at >= self.items.len() {
            proof {
                lemma_has_id(self@, id as int);
            }
            assert(final(self)@.items == after_touch(old(self)@, id as int, now as int).items);
            return 0;
        }
        self.items[at].last_used = now;
        assert(final(self)@.items == after_touch(old(self)@, id as int, now as int).items) by {
        }
        1
    }

    /// Sets or clears the pin of the item with this id. Returns the number
    /// of items changed.
    pub fn set_starred(&mut self, id: i64, value: bool) -> (updated: u64)
        requires
            old(self).well_formed(),
        ensures
            final(self).well_formed(),
            final(self)@ == after_set_starred(old(self)@, id as int, value),
            updated == (if has_id(old(self)@, id as int) {
                1int
            } else {
                0int
            }),
    {
        let at = self.position_of(id);
        proof {
            lemma_star_keeps_valid(self@, id as int, value);
        }
        if at >= self.items.len() {
            proof {
                lemma_has_id(self@, id as int);
            }
            assert(final(self)@.items == after_set_starred(old(self)@, id as int, value).items);
            return 0;
        }
        self.items[at].starred = value;
        assert(final(self)@.items == after_set_starred(old(self)@, id as int, value).items) by {
        }
        1
    }

    /// Deletes the items that the rule takes, and with each its image
    /// records, in one step.
    fn remove_doomed(
        &mut self,
        ids: Option<&[i64]>,
        before: Option<i64>,
        spare_starred: bool,
    ) -> (removal: Removal)
        requires
            old(self).well_formed(),
        ensures
            final(self).well_formed(),
            final(self)@ == after_delete(old(self)@, rule_of(ids, before, spare_starred)),
            is_removal(removal, old(self)@, rule_of(ids, before, spare_starred)),
    {
        let ghost s0 = self@;
        let ghost rule = rule_of(ids, before, spare_starred);
        let ghost mut seen: int = 0;
        assert(s0.images.len() == self.images.len() && s0.items.len() == self.items.len());
        let mut deleted_images: u64 = 0;
        let mut k: usize = 0;
        while k < self.images.len()
            invariant
                self@.items == s0.items,
                self.items@ == old(self).items@,
                s0.items.len() <= usize::MAX,
                self@.next_id == s0.next_id,
                self@.data_dir == s0.data_dir,
                rule == rule_of(ids, before, spare_starred),
                valid(s0),
                0 <= seen <= s0.images.len() <= usize::MAX,
                self@.images == kept_images(s0, s0.images.take(seen), rule) + s0.images.skip(seen),
                k == kept_images(s0, s0.images.take(seen), rule).len(),
                deleted_images == seen - k,
            decreases s0.images.len() - seen,
        {
            assert(self@.images[k as int] == s0.images.skip(seen)[0]);
            assert(s0.images.take(seen + 1).drop_last() == s0.images.take(seen));
            let owner = self.images[k].item_id;
            let at = self.position_of(owner);
            let gone = at < self.items.len() && takes(&self.items[at], ids, before, spare_starred);
            let ghost before_images = self@.images;
            if gone {
                self.images.remove(k);
                deleted_images += 1;
                assert(self@.images == before_images.remove(k as int));
            } else {
                k += 1;
            }
            proof {
                seen = seen + 1;
            }
        }
        assert(s0.images.take(seen) == s0.images);
        let ghost mut done: int = 0;
        let mut deleted_items: u64 = 0;
        let mut hashes: Vec<String> = Vec::new();
        let mut i: usize = 0;
        while i < self.items.len()
            invariant
                self@.images == kept_images(s0, s0.images, rule),
                self@.next_id == s0.next_id,
                self@.data_dir == s0.data_dir,
                rule == rule_of(ids, before, spare_starred),
                0 <= done <= s0.items.len() <= usize::MAX,
                self@.items == kept_items(s0.items.take(done), rule) + s0.items.skip(done),
                i == kept_items(s0.items.take(done), rule).len(),
                deleted_items == dropped_items(s0.items.take(done), rule).len(),
                deleted_items == done - i,
                hashes@.len() == deleted_items,
                forall|j: int|
                    0 <= j < hashes@.len() ==> (#[trigger] hashes@[j])@ == dropped_items(
                        s0.items.take(done),
                        rule,
                    )[j].hash,
            decreases s0.items.len() - done,
        {
            assert(self@.items[i as int] == s0.items.skip(done)[0]);
            assert(s0.items.take(done + 1).drop_last() == s0.items.take(done));
            let gone = takes(&self.items[i], ids, before, spare_starred);
            let ghost before_items = self@.items;
            if gone {
                let taken = self.items.remove(i);
                hashes.push(taken.hash);
                deleted_items += 1;
                assert(self@.items == before_items.remove(i as int));
            } else {
                i += 1;
            }
            proof {
                done = done + 1;
            }
        }
        assert(s0.items.take(done) == s0.items);
        proof {
            lemma_delete_keeps_valid(s0, rule);
            assert(texts_of(hashes@) == dropped_hashes(s0, rule));
        }
        Removal { deleted_items, deleted_images, hashes }
    }

    /// Deletes the items named by `ids` that are not pinned, with their
    /// image records. Pinned items and ids that no item has are passed over
    /// in silence.
    pub fn delete_ids(&mut self, ids: &[i64]) -> (removal: Removal)
        requires
            old(self).well_formed(),
        ensures
            final(self).well_formed(),
            final(self)@ == after_delete(old(self)@, by_ids(ids@)),
            is_removal(removal, old(self)@, by_ids(ids@)),
    {
        self.remove_doomed(Some(ids), None, true)
    }

    /// Deletes every item that is not pinned, with its image records.
    pub fn delete_all_except_starred(&mut self) -> (removal: Removal)
        requires
            old(self).well_formed(),
        ensures
            final(self).well_formed(),
            final(self)@ == after_delete(old(self)@, all_unstarred()),
            is_removal(removal, old(self)@, all_unstarred()),
    {
        self.remove_doomed(None, None, true)
    }

    /// Deletes the item with this id, pinned or not, with its image
    /// records.
    pub fn delete_item(&mut self, id: i64) -> (removal: Removal)
        requires
            old(self).well_formed(),
        ensures
            final(self).well_formed(),
            final(self)@ == after_delete(old(self)@, only(id)),
            is_removal(removal, old(self)@, only(id)),
    {
        let mut one: Vec<i64> = Vec::new();
        one.push(id);
        self.remove_doomed(Some(one.as_slice()), None, false)
    }

    /// Deletes the items named by `ids`, pinned or not, with their image
    /// records.
    pub fn delete_each(&mut self, ids: &[i64]) -> (removal: Removal)
        requires
            old(self).well_formed(),
        ensures
            final(self).well_formed(),
            final(self)@ == after_delete(old(self)@, any_of(ids@)),
            is_removal(removal, old(self)@, any_of(ids@)),
    {
        self.remove_doomed(Some(ids), None, false)
    }

    /// The retention sweep: deletes the items created before `cutoff`, with
    /// their image records; where `unstarred_only` is set, pinned items stay.
    pub fn sweep(&mut self, cutoff: i64, unstarred_only: bool) -> (removal: Removal)
        requires
            old(self).well_formed(),
        ensures
            final(self).well_formed(),
            final(self)@ == after_delete(old(self)@, expired(cutoff as int, unstarred_only)),
            is_removal(removal, old(self)@, expired(cutoff as int, unstarred_only)),
    {
        self.remove_doomed(None, Some(cutoff), unstarred_only)
    }

    /// Plans the capture of an entry, without changing the store: whether
    /// it refreshes a stored item, inserts a text item, or inserts an image
    /// item, for which it names the artifact files to write first. A capture
    /// that the store would refuse is refused here, for the same reason.
    pub fn plan_capture(&self, entry: &ClipboardEntry, dedupe: bool) -> (result: Result<
        CapturePlan,
        ErrorKind,
    >)
        ensures
            match result {
                Ok(plan) => plan_of(self@, entry.mime@, entry.hash@, dedupe) == Ok::<
                    PlanView,
                    ErrorKind,
                >(plan@),
                Err(kind) => plan_of(self@, entry.mime@, entry.hash@, dedupe) == Err::<
                    PlanView,
                    ErrorKind,
                >(kind),
            },
    {
        let at = self.position_of_hash(entry.hash.as_str());
        if at < self.items.len() {
            if dedupe {
                return Ok(CapturePlan::Refresh { id: self.items[at].id });
            }
            return Err(ErrorKind::Conflict);
        }
        if self.next_id == i64::MAX {
            return Err(ErrorKind::StoreFailure);
        }
        if !entry.is_image() {
            return Ok(CapturePlan::InsertText);
        }
        match &self.data_dir {
            None => Err(ErrorKind::ArtifactFailure),
            Some(dir) => {
                let ext = entry.mime_to_ext();
                Ok(
                    CapturePlan::InsertImage {
                        original: original_path(dir.as_str(), entry.hash.as_str(), ext),
                        thumbnail: thumbnail_path(dir.as_str(), entry.hash.as_str()),
                    },
                )
            },
        }
    }

    /// Hands one captured entry to the store. With deduplication on,
    /// content that is already stored has its `last_used` refreshed and
    /// nothing else happens. Anything else is inserted: as an image item
    /// with its image record where the MIME type names an image, as a text
    /// item otherwise. An insert of content that is already stored, which
    /// can only be asked for with deduplication off, is a conflict.
    pub fn capture(&mut self, entry: &ClipboardEntry, dedupe: bool, now: i64) -> (result: Result<
        Captured,
        ErrorKind,
    >)
        requires
            old(self).well_formed(),
        ensures
            final(self).well_formed(),
            final(self)@ == after_capture(
                old(self)@,
                entry.mime@,
                entry.data@,
                entry.hash@,
                dedupe,
                now as int,
            ),
            result == capture_result(old(self)@, entry.mime@, entry.hash@, dedupe),
    {
        if dedupe {
            if let Some(id) = self.find_by_hash(entry.hash.as_str()) {
                self.touch_last_used(id, now);
                return Ok(Captured::Refreshed(id));
            }
        }
        if entry.is_image() {
            match self.insert_image(
                entry.mime.as_str(),
                entry.data.as_slice(),
                entry.hash.as_str(),
                now,
            ) {
                Ok(id) => Ok(Captured::InsertedImage(id)),
                Err(kind) => Err(kind),
            }
        } else {
            let body = decode_lossy(entry.data.as_slice());
            match self.insert_text(body.as_str(), entry.hash.as_str(), now) {
                Ok(id) => Ok(Captured::InsertedText(id)),
                Err(kind) => Err(kind),
            }
        }
    }

    /// Hands over an entry once the work that its plan named is done.
    /// `artifacts_written` tells whether the artifact files of an image
    /// were written. An image that would be inserted without them is
    /// refused as an artifact failure and the store is left as it was, so
    /// that no image item is stored without its files; anything else goes as
    /// in `capture`.
    pub fn commit_capture(
        &mut self,
        entry: &ClipboardEntry,
        dedupe: bool,
        now: i64,
        artifacts_written: bool,
    ) -> (result: Result<Captured, ErrorKind>)
        requires
            old(self).well_formed(),
        ensures
            final(self).well_formed(),
            result == commit_result(old(self)@, entry.mime@, entry.hash@, dedupe, artifacts_written),
            final(self)@ == after_commit(
                old(self)@,
                entry.mime@,
                entry.data@,
                entry.hash@,
                dedupe,
                now as int,
                artifacts_written,
            ),
    {
        if !artifacts_written && entry.is_image() {
            let at = self.position_of_hash(entry.hash.as_str());
            if at >= self.items.len() && self.next_id < i64::MAX {
                return Err(ErrorKind::ArtifactFailure);
            }
        }
        self.capture(entry, dedupe, now)
    }

    /// The item at a position of the store.
    pub fn item_at(&self, at: usize) -> (item: &Item)
        requires
            at < self@.items.len(),
        ensures
            item@ == self@.items[at as int],
    {
        &self.items[at]
    }

    /// The data directory under which artifacts lie, if it is known.
    pub fn data_dir(&self) -> (dir: &Option<String>)
        ensures
            self@.data_dir == match *dir {
                Some(text) => Some(text@),
                None => None,
            },
    {
        &self.data_dir
    }

    /// The position of the first image record owned by the item with this
    /// id, or the number of image records where it owns none.
    pub fn image_position(&self, id: i64) -> (at: usize)
        ensures
            at <= self@.images.len(),
            at < self@.images.len() <==> has_image(self@, id as int),
            at < self@.images.len() ==> self@.images[at as int].item_id == id,
            forall|k: int| 0 <= k < at ==> (#[trigger] self@.images[k]).item_id != id,
    {
        let mut k: usize = 0;
        while k < self.images.len()
            invariant
                k <= self.images.len(),
                forall|j: int| 0 <= j < k ==> (#[trigger] self@.images[j]).item_id != id,
            decreases self.images.len() - k,
        {
            if self.images[k].item_id == id {
                assert(self@.images[k as int].item_id == id);
                return k;
            }
            k += 1;
        }
        k
    }

    /// The image record at a position.
    pub fn image_at(&self, at: usize) -> (image: &ImageRow)
        requires
            at < self@.images.len(),
        ensures
            image@ == self@.images[at as int],
    {
        &self.images[at]
    }

    /// Whether the item with this id owns an image record.
    pub fn owns_image(&self, id: i64) -> (yes: bool)
        ensures
            yes == has_image(self@, id as int),
    {
        self.image_position(id) < self.images.len()
    }

    /// The id of the item with this content hash, if there is one.
    pub fn find_by_hash(&self, hash: &str) -> (found: Option<i64>)
        ensures
            found is Some <==> has_hash(self@, hash@),
            found matches Some(id) ==> id == item_by_hash(self@, hash@).id,
    {
        let at = self.position_of_hash(hash);
        if at < self.items.len() {
            Some(self.items[at].id)
        } else {
            None
        }
    }
}

} // verus!
