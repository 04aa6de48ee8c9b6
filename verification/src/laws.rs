//! What holds of the store over several operations: deduplication,
//! the exemption of pinned items, retention, and serialized capture.

use crate::clipboard::{is_image_mime, utf8_lossy};
use crate::error::ErrorKind;
use crate::lemmas::{
    lemma_after_delete, lemma_dropped_none, lemma_dropped_single, lemma_has_hash, lemma_has_id,
    lemma_hash_position, lemma_id_position, lemma_image_keeps_valid, lemma_insert_keeps_valid,
    lemma_kept_items, lemma_touch_keeps_valid,
};
use crate::model::{
    after_capture, after_delete, after_insert_image, by_ids, can_insert, count_hash, Doom, doomed,
    dropped_hashes, dropped_items, expired, has_hash, has_id, has_image, hashes_of, ids_of,
    image_doomed, image_item, ImageView, item_by_hash, item_by_id, ItemView, kept_images,
    keys_in_order, listed, StoreView, text_item, valid, with_item,
};
use crate::store::{capture_result, Captured};
use crate::text::{first_index, lemma_first_index};
use vstd::prelude::*;

verus! {

/// Among items with distinct hashes, a hash is carried by one item or by
/// none.
pub proof fn lemma_count_hash(items: Seq<ItemView>, hash: Seq<char>)
    requires
        keys_in_order(items),
    ensures
        count_hash(items, hash) == (if exists|i: int|
            0 <= i < items.len() && (#[trigger] items[i]).hash == hash {
            1nat
        } else {
            0nat
        }),
    decreases items.len(),
{
    if items.len() > 0 {
        let head = items.drop_last();
        lemma_count_hash(head, hash);
        if count_hash(items, hash) == 0 {
            assert forall|i: int| 0 <= i < items.len() implies (#[trigger] items[i]).hash
                != hash by {
                if i < head.len() {
                    assert(head[i] == items[i]);
                }
            }
        }
    }
}

/// A valid store holds each stored hash exactly once.
pub proof fn lemma_one_row_per_hash(s: StoreView, hash: Seq<char>)
    requires
        valid(s),
    ensures
        count_hash(s.items, hash) == (if has_hash(s, hash) {
            1nat
        } else {
            0nat
        }),
{
    lemma_count_hash(s.items, hash);
    lemma_has_hash(s, hash);
}

/// A capture keeps a store valid.
pub proof fn lemma_capture_keeps_valid(
    s: StoreView,
    mime: Seq<char>,
    data: Seq<u8>,
    hash: Seq<char>,
    dedupe: bool,
    now: int,
)
    requires
        valid(s),
    ensures
        valid(after_capture(s, mime, data, hash, dedupe, now)),
{
    if dedupe && has_hash(s, hash) {
        lemma_touch_keeps_valid(s, item_by_hash(s, hash).id, now);
    } else if can_insert(s, hash) {
        if is_image_mime(mime) {
            let item = image_item(s.next_id, hash, now);
            lemma_insert_keeps_valid(s, item);
            let grown = with_item(s, item);
            assert(grown.items[grown.items.len() - 1].id == s.next_id);
            lemma_has_id(grown, s.next_id);
            lemma_image_keeps_valid(
                grown,
                ImageView { item_id: s.next_id, created_at: now, mime, bytes: data },
            );
        } else {
            let item = text_item(s.next_id, utf8_lossy(data), hash, now);
            lemma_insert_keeps_valid(s, item);
        }
    }
}

/// After a capture that is not refused, the store holds the content's hash,
/// in an item last used at the time of the capture.
pub proof fn lemma_capture_stores(
    s: StoreView,
    mime: Seq<char>,
    data: Seq<u8>,
    hash: Seq<char>,
    dedupe: bool,
    now: int,
)
    requires
        valid(s),
        capture_result(s, mime, hash, dedupe) is Ok,
    ensures
        has_hash(after_capture(s, mime, data, hash, dedupe, now), hash),
        item_by_hash(after_capture(s, mime, data, hash, dedupe, now), hash).last_used == now,
        has_hash(s, hash) ==> item_by_hash(after_capture(s, mime, data, hash, dedupe, now), hash)
            == (ItemView { last_used: now, ..item_by_hash(s, hash) }),
        has_hash(s, hash) ==> after_capture(s, mime, data, hash, dedupe, now).items.len()
            == s.items.len(),
        !has_hash(s, hash) ==> after_capture(s, mime, data, hash, dedupe, now).items.len()
            == s.items.len() + 1,
        !has_hash(s, hash) ==> item_by_hash(
            after_capture(s, mime, data, hash, dedupe, now),
            hash,
        ).created_at == now,
{
    let t = after_capture(s, mime, data, hash, dedupe, now);
    lemma_capture_keeps_valid(s, mime, data, hash, dedupe, now);
    if has_hash(s, hash) {
        lemma_first_index(hashes_of(s), hash);
        let p = first_index(hashes_of(s), hash);
        lemma_hash_position(t, p);
    } else {
        let p = s.items.len() as int;
        lemma_hash_position(t, p);
    }
}

/// Deduplication is idempotent. Capturing the same content twice with
/// deduplication on leaves exactly one item for it: the second capture adds
/// no item and only refreshes `last_used`, which moves strictly forward
/// where the clock did, while `created_at` and the id stay.
pub proof fn law_dedup_idempotent(
    s: StoreView,
    mime: Seq<char>,
    data: Seq<u8>,
    hash: Seq<char>,
    first: int,
    second: int,
)
    requires
        valid(s),
        capture_result(s, mime, hash, true) is Ok,
        first < second,
    ensures
        ({
            let once = after_capture(s, mime, data, hash, true, first);
            let twice = after_capture(once, mime, data, hash, true, second);
            &&& capture_result(once, mime, hash, true) == Ok::<Captured, ErrorKind>(
                Captured::Refreshed(item_by_hash(once, hash).id as i64),
            )
            &&& count_hash(twice.items, hash) == 1
            &&& twice.items.len() == once.items.len()
            &&& item_by_hash(once, hash).last_used == first
            &&& item_by_hash(twice, hash).last_used == second
            &&& item_by_hash(twice, hash).last_used > item_by_hash(once, hash).last_used
            &&& item_by_hash(twice, hash).created_at == item_by_hash(once, hash).created_at
            &&& item_by_hash(twice, hash).id == item_by_hash(once, hash).id
        }),
{
    let once = after_capture(s, mime, data, hash, true, first);
    let twice = after_capture(once, mime, data, hash, true, second);
    lemma_capture_keeps_valid(s, mime, data, hash, true, first);
    lemma_capture_stores(s, mime, data, hash, true, first);
    lemma_capture_keeps_valid(once, mime, data, hash, true, second);
    lemma_capture_stores(once, mime, data, hash, true, second);
    lemma_one_row_per_hash(twice, hash);
}

/// The store after captures of the same content, one after the other, at
/// the given times, with deduplication on.
pub open spec fn after_captures(
    s: StoreView,
    mime: Seq<char>,
    data: Seq<u8>,
    hash: Seq<char>,
    times: Seq<int>,
) -> StoreView
    decreases times.len(),
{
    if times.len() == 0 {
        s
    } else {
        after_capture(
            after_captures(s, mime, data, hash, times.drop_last()),
            mime,
            data,
            hash,
            true,
            times.last(),
        )
    }
}

/// Serialized capture settles to one item. However many captures of the
/// same content arrive, and in whatever order the store takes them, it ends
/// with exactly one item for that content: the store grows by one item where
/// the content was new, and not at all where it was known.
pub proof fn law_serialized_captures(
    s: StoreView,
    mime: Seq<char>,
    data: Seq<u8>,
    hash: Seq<char>,
    times: Seq<int>,
)
    requires
        valid(s),
        times.len() >= 1,
        capture_result(s, mime, hash, true) is Ok,
    ensures
        valid(after_captures(s, mime, data, hash, times)),
        has_hash(after_captures(s, mime, data, hash, times), hash),
        count_hash(after_captures(s, mime, data, hash, times).items, hash) == 1,
        after_captures(s, mime, data, hash, times).items.len() == s.items.len() + (if has_hash(
            s,
            hash,
        ) {
            0int
        } else {
            1int
        }),
    decreases times.len(),
{
    let before = after_captures(s, mime, data, hash, times.drop_last());
    let after = after_captures(s, mime, data, hash, times);
    if times.len() == 1 {
    } else {
        law_serialized_captures(s, mime, data, hash, times.drop_last());
    }
    lemma_capture_keeps_valid(before, mime, data, hash, true, times.last());
    lemma_capture_stores(before, mime, data, hash, true, times.last());
    lemma_one_row_per_hash(after, hash);
}

/// Without deduplication a capture of stored content is refused. After one
/// capture of some content, a second one with deduplication off reports a
/// conflict and leaves the store as it was, with its one item for that
/// content.
pub proof fn law_no_dedup_conflict(
    s: StoreView,
    mime: Seq<char>,
    data: Seq<u8>,
    hash: Seq<char>,
    first: int,
    second: int,
)
    requires
        valid(s),
        capture_result(s, mime, hash, false) is Ok,
    ensures
        ({
            let once = after_capture(s, mime, data, hash, false, first);
            &&& capture_result(once, mime, hash, false) == Err::<Captured, ErrorKind>(
                ErrorKind::Conflict,
            )
            &&& after_capture(once, mime, data, hash, false, second) == once
            &&& count_hash(once.items, hash) == 1
        }),
{
    let once = after_capture(s, mime, data, hash, false, first);
    lemma_capture_keeps_valid(s, mime, data, hash, false, first);
    lemma_one_row_per_hash(once, hash);
}

/// Pinned items are exempt from deletion by ids. Of two listed items, one
/// pinned and one not, only the one that is not pinned is removed: the count
/// of deleted items is one, the pinned item stays as it was, and so does
/// every item that was not listed.
pub proof fn law_delete_spares_starred(s: StoreView, a: i64, b: i64)
    requires
        valid(s),
        has_id(s, a as int),
        has_id(s, b as int),
        item_by_id(s, a as int).starred,
        !item_by_id(s, b as int).starred,
    ensures
        ({
            let rule = by_ids(seq![a, b]);
            let t = after_delete(s, rule);
            &&& has_id(t, a as int)
            &&& item_by_id(t, a as int) == item_by_id(s, a as int)
            &&& !has_id(t, b as int)
            &&& dropped_items(s.items, rule).len() == 1
            &&& t.items.len() == s.items.len() - 1
            &&& forall|id: int| id != b ==> has_id(t, id) == has_id(s, id)
        }),
{
    let rule = by_ids(seq![a, b]);
    let t = after_delete(s, rule);
    lemma_first_index(ids_of(s), b as int);
    let pb = first_index(ids_of(s), b as int);
    lemma_after_delete(s, rule, a as int);
    lemma_after_delete(s, rule, b as int);
    assert forall|i: int| 0 <= i < s.items.len() implies (doomed(rule, #[trigger] s.items[i])
        <==> i == pb) by {
        lemma_id_position(s, i);
    }
    lemma_dropped_single(s.items, rule, pb);
    lemma_kept_items(s.items, rule);
    assert forall|id: int| id != b implies has_id(t, id) == has_id(s, id) by {
        lemma_after_delete(s, rule, id);
        if has_id(s, id) {
            lemma_first_index(ids_of(s), id);
        }
    }
}

/// Retention. A sweep removes an item that was created before the cutoff
/// and is not pinned. A pinned item of the same age survives, unchanged,
/// where the policy is to delete unpinned items only, and is removed where
/// it is not. An item created at or after the cutoff always survives.
pub proof fn law_retention(s: StoreView, cutoff: int, unstarred_only: bool, id: int)
    requires
        valid(s),
        has_id(s, id),
    ensures
        ({
            let t = after_delete(s, expired(cutoff, unstarred_only));
            let item = item_by_id(s, id);
            &&& item.created_at < cutoff && !item.starred ==> !has_id(t, id)
            &&& item.created_at < cutoff && item.starred && unstarred_only ==> has_id(t, id)
                && item_by_id(t, id) == item
            &&& item.created_at < cutoff && item.starred && !unstarred_only ==> !has_id(t, id)
            &&& item.created_at >= cutoff ==> has_id(t, id) && item_by_id(t, id) == item
        }),
{
    lemma_after_delete(s, expired(cutoff, unstarred_only), id);
}

/// Where a rule takes the owner of no image record of a list, the list is
/// kept whole.
pub proof fn lemma_kept_all_images(s: StoreView, images: Seq<ImageView>, rule: Doom)
    requires
        forall|k: int| 0 <= k < images.len() ==> !image_doomed(s, rule, #[trigger] images[k]),
    ensures
        kept_images(s, images, rule) == images,
    decreases images.len(),
{
    if images.len() > 0 {
        let head = images.drop_last();
        lemma_kept_all_images(s, head, rule);
    }
}

/// The round trip of an image. Capturing a new image adds an item and its
/// image record; deleting that item takes both again, hands back the hash
/// whose artifact files are to be removed, and leaves the items and image
/// records that were there before.
pub proof fn law_image_round_trip(
    s: StoreView,
    mime: Seq<char>,
    bytes: Seq<u8>,
    hash: Seq<char>,
    now: int,
)
    requires
        valid(s),
        can_insert(s, hash),
    ensures
        ({
            let id = s.next_id;
            let stored = after_insert_image(s, mime, bytes, hash, now);
            let rule = by_ids(seq![id as i64]);
            let emptied = after_delete(stored, rule);
            &&& valid(stored)
            &&& has_id(stored, id) && item_by_id(stored, id).hash == hash
            &&& has_image(stored, id)
            &&& stored.items.len() == s.items.len() + 1
            &&& stored.images.len() == s.images.len() + 1
            &&& dropped_hashes(stored, rule) == seq![hash]
            &&& !has_id(emptied, id) && !has_image(emptied, id)
            &&& emptied.items == s.items
            &&& emptied.images == s.images
        }),
{
    let id = s.next_id;
    let item = image_item(id, hash, now);
    let grown = with_item(s, item);
    let stored = after_insert_image(s, mime, bytes, hash, now);
    let rule = by_ids(seq![id as i64]);
    let ids = seq![id as i64];
    assert(ids[0] == id);
    lemma_insert_keeps_valid(s, item);
    lemma_has_id(grown, id);
    let last = s.items.len() as int;
    lemma_id_position(stored, last);
    assert(stored.items.drop_last() == s.items);
    lemma_dropped_none(s.items, rule);
    assert(stored.images.drop_last() == s.images);
    assert forall|k: int| 0 <= k < s.images.len() implies !image_doomed(
        stored,
        rule,
        #[trigger] s.images[k],
    ) by {
        let owner = s.images[k].item_id;
        lemma_has_id(s, owner);
        let p = choose|p: int| 0 <= p < s.items.len() && (#[trigger] s.items[p]).id == owner;
        lemma_id_position(stored, p);
    }
    lemma_kept_all_images(stored, s.images, rule);
    lemma_after_delete(stored, rule, id);
}

} // verus!
