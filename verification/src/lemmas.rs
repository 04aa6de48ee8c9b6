//! Lemmas on the store model: lookups, and what insertion, refreshing and
//! deletion keep.

use crate::model::{
    after_delete, after_set_starred, after_touch, can_insert, Doom, doomed, dropped_items, has_hash,
    has_id, hashes_of, ids_of, image_doomed, ImageView, item_by_hash, item_by_id, ItemView,
    kept_images, kept_items, keys_in_order, StoreView, valid, with_image, with_item,
};
use crate::text::{first_index, lemma_first_index, lemma_first_index_is};
use vstd::prelude::*;

verus! {

/// An id is in the store exactly where some position holds it.
pub proof fn lemma_has_id(s: StoreView, id: int)
    ensures
        has_id(s, id) <==> exists|i: int| 0 <= i < s.items.len() && (#[trigger] s.items[i]).id == id,
        has_id(s, id) ==> item_by_id(s, id).id == id,
{
    lemma_first_index(ids_of(s), id);
    if exists|i: int| 0 <= i < s.items.len() && (#[trigger] s.items[i]).id == id {
        let i = choose|i: int| 0 <= i < s.items.len() && (#[trigger] s.items[i]).id == id;
        assert(ids_of(s)[i] == id);
    }
}

/// A hash is in the store exactly where some position holds it.
pub proof fn lemma_has_hash(s: StoreView, hash: Seq<char>)
    ensures
        has_hash(s, hash) <==> exists|i: int|
            0 <= i < s.items.len() && (#[trigger] s.items[i]).hash == hash,
        has_hash(s, hash) ==> item_by_hash(s, hash).hash == hash,
{
    lemma_first_index(hashes_of(s), hash);
    if exists|i: int| 0 <= i < s.items.len() && (#[trigger] s.items[i]).hash == hash {
        let i = choose|i: int| 0 <= i < s.items.len() && (#[trigger] s.items[i]).hash == hash;
        assert(hashes_of(s)[i] == hash);
    }
}

/// Adding an item with a new hash under the next id keeps a store valid.
pub proof fn lemma_insert_keeps_valid(s: StoreView, item: ItemView)
    requires
        valid(s),
        can_insert(s, item.hash),
        item.id == s.next_id,
    ensures
        valid(with_item(s, item)),
{
    let t = with_item(s, item);
    lemma_has_hash(s, item.hash);
    assert forall|k: int| 0 <= k < t.images.len() implies has_id(
        t,
        (#[trigger] t.images[k]).item_id,
    ) by {
        let id = s.images[k].item_id;
        lemma_has_id(s, id);
        let i = choose|i: int| 0 <= i < s.items.len() && (#[trigger] s.items[i]).id == id;
        assert(t.items[i].id == id);
        lemma_has_id(t, id);
    }
}

/// Adding an image record for an item of the store keeps it valid.
pub proof fn lemma_image_keeps_valid(s: StoreView, image: ImageView)
    requires
        valid(s),
        has_id(s, image.item_id),
    ensures
        valid(with_image(s, image)),
{
}

/// Items that keep their ids and hashes, beside the same image records,
/// keep a store valid.
pub proof fn lemma_same_keys_keep_valid(s: StoreView, t: StoreView)
    requires
        valid(s),
        t.items.len() == s.items.len(),
        forall|i: int|
            0 <= i < s.items.len() ==> (#[trigger] t.items[i]).id == s.items[i].id && t.items[i].hash
                == s.items[i].hash,
        t.images == s.images,
        t.next_id == s.next_id,
    ensures
        valid(t),
        forall|id: int| has_id(t, id) == has_id(s, id),
        forall|hash: Seq<char>| has_hash(t, hash) == has_hash(s, hash),
{
    assert(ids_of(t) == ids_of(s));
    assert(hashes_of(t) == hashes_of(s));
}

/// Touching an item keeps a store valid.
pub proof fn lemma_touch_keeps_valid(s: StoreView, id: int, now: int)
    requires
        valid(s),
    ensures
        valid(after_touch(s, id, now)),
{
    lemma_same_keys_keep_valid(s, after_touch(s, id, now));
}

/// Setting a pin keeps a store valid.
pub proof fn lemma_star_keeps_valid(s: StoreView, id: int, value: bool)
    requires
        valid(s),
    ensures
        valid(after_set_starred(s, id, value)),
{
    lemma_same_keys_keep_valid(s, after_set_starred(s, id, value));
}

/// What a deletion leaves is what it does not take: every kept item is an
/// item of the list that the rule spares, every spared item is kept, and
/// kept and taken items together are as many as there were.
pub proof fn lemma_kept_items(items: Seq<ItemView>, rule: Doom)
    ensures
        forall|j: int|
            0 <= j < kept_items(items, rule).len() ==> !doomed(
                rule,
                #[trigger] kept_items(items, rule)[j],
            ) && items.contains(kept_items(items, rule)[j]),
        forall|j: int|
            0 <= j < dropped_items(items, rule).len() ==> doomed(
                rule,
                #[trigger] dropped_items(items, rule)[j],
            ) && items.contains(dropped_items(items, rule)[j]),
        forall|i: int|
            0 <= i < items.len() && !doomed(rule, #[trigger] items[i]) ==> kept_items(
                items,
                rule,
            ).contains(items[i]),
        forall|i: int|
            0 <= i < items.len() && doomed(rule, #[trigger] items[i]) ==> dropped_items(
                items,
                rule,
            ).contains(items[i]),
        kept_items(items, rule).len() + dropped_items(items, rule).len() == items.len(),
    decreases items.len(),
{
    if items.len() > 0 {
        let head = items.drop_last();
        lemma_kept_items(head, rule);
        let kept = kept_items(items, rule);
        let dropped = dropped_items(items, rule);
        assert forall|i: int| 0 <= i < items.len() && !doomed(rule, #[trigger] items[i])
            implies kept.contains(items[i]) by {
            if i < head.len() {
                let j = choose|j: int|
                    0 <= j < kept_items(head, rule).len() && kept_items(head, rule)[j] == head[i];
                assert(kept[j] == items[i]);
            } else {
                assert(kept[kept.len() - 1] == items[i]);
            }
        }
        assert forall|i: int| 0 <= i < items.len() && doomed(rule, #[trigger] items[i])
            implies dropped.contains(items[i]) by {
            if i < head.len() {
                let j = choose|j: int|
                    0 <= j < dropped_items(head, rule).len() && dropped_items(head, rule)[j]
                        == head[i];
                assert(dropped[j] == items[i]);
            } else {
                assert(dropped[dropped.len() - 1] == items[i]);
            }
        }
    }
}

/// What a deletion leaves are the items that the rule spares, and what it
/// takes are the others: two filters of the list.
pub proof fn lemma_kept_is_filter(items: Seq<ItemView>, rule: Doom)
    ensures
        kept_items(items, rule) == items.filter(|item: ItemView| !doomed(rule, item)),
        dropped_items(items, rule) == items.filter(|item: ItemView| doomed(rule, item)),
    decreases items.len(),
{
    reveal(Seq::filter);
    if items.len() > 0 {
        lemma_kept_is_filter(items.drop_last(), rule);
    }
}

/// A deletion keeps ids ascending and hashes distinct.
pub proof fn lemma_kept_in_order(items: Seq<ItemView>, rule: Doom)
    requires
        keys_in_order(items),
    ensures
        keys_in_order(kept_items(items, rule)),
    decreases items.len(),
{
    if items.len() > 0 {
        let head = items.drop_last();
        lemma_kept_in_order(head, rule);
        lemma_kept_items(head, rule);
    }
}

/// Every image record that a deletion leaves is one of the list whose owner
/// the deletion spares, and the records left and taken are as many as there
/// were.
pub proof fn lemma_kept_images(s: StoreView, images: Seq<ImageView>, rule: Doom)
    ensures
        forall|j: int|
            0 <= j < kept_images(s, images, rule).len() ==> !image_doomed(
                s,
                rule,
                #[trigger] kept_images(s, images, rule)[j],
            ) && images.contains(kept_images(s, images, rule)[j]),
        forall|k: int|
            0 <= k < images.len() && !image_doomed(s, rule, #[trigger] images[k]) ==> kept_images(
                s,
                images,
                rule,
            ).contains(images[k]),
        kept_images(s, images, rule).len() <= images.len(),
    decreases images.len(),
{
    if images.len() > 0 {
        let head = images.drop_last();
        lemma_kept_images(s, head, rule);
        let kept = kept_images(s, images, rule);
        let before = kept_images(s, head, rule);
        assert forall|k: int| 0 <= k < images.len() && !image_doomed(s, rule, #[trigger] images[k])
            implies kept.contains(images[k]) by {
            if k < head.len() {
                let j = choose|j: int| 0 <= j < before.len() && before[j] == head[k];
                assert(kept[j] == images[k]);
            } else {
                assert(kept[kept.len() - 1] == images[k]);
            }
        }
    }
}

/// A deletion keeps a store valid: what is left is in order, and every
/// image record left has its owner left too, so no image record outlives
/// its item.
pub proof fn lemma_delete_keeps_valid(s: StoreView, rule: Doom)
    requires
        valid(s),
    ensures
        valid(after_delete(s, rule)),
{
    let t = after_delete(s, rule);
    lemma_kept_in_order(s.items, rule);
    lemma_kept_items(s.items, rule);
    lemma_kept_images(s, s.images, rule);
    assert forall|k: int| 0 <= k < t.images.len() implies has_id(
        t,
        (#[trigger] t.images[k]).item_id,
    ) by {
        let image = t.images[k];
        lemma_first_index(ids_of(s), image.item_id);
        lemma_has_id(t, image.item_id);
    }
}

/// In a valid store, the position that holds an id is the one that
/// `item_by_id` reads.
pub proof fn lemma_id_position(s: StoreView, p: int)
    requires
        valid(s),
        0 <= p < s.items.len(),
    ensures
        has_id(s, s.items[p].id),
        first_index(ids_of(s), s.items[p].id) == p,
        item_by_id(s, s.items[p].id) == s.items[p],
{
    let id = s.items[p].id;
    lemma_first_index_is(ids_of(s), id, p);
}

/// In a valid store, the position that holds a hash is the one that
/// `item_by_hash` reads.
pub proof fn lemma_hash_position(s: StoreView, p: int)
    requires
        valid(s),
        0 <= p < s.items.len(),
    ensures
        has_hash(s, s.items[p].hash),
        first_index(hashes_of(s), s.items[p].hash) == p,
        item_by_hash(s, s.items[p].hash) == s.items[p],
{
    let hash = s.items[p].hash;
    lemma_first_index_is(hashes_of(s), hash, p);
}

/// What a deletion does to one id: the item stays, unchanged, exactly where
/// the store held it and the rule spares it.
pub proof fn lemma_after_delete(s: StoreView, rule: Doom, id: int)
    requires
        valid(s),
    ensures
        has_id(after_delete(s, rule), id) <==> has_id(s, id) && !doomed(rule, item_by_id(s, id)),
        has_id(after_delete(s, rule), id) ==> item_by_id(after_delete(s, rule), id) == item_by_id(
            s,
            id,
        ),
{
    let t = after_delete(s, rule);
    lemma_delete_keeps_valid(s, rule);
    lemma_kept_items(s.items, rule);
    if has_id(s, id) && !doomed(rule, item_by_id(s, id)) {
        lemma_first_index(ids_of(s), id);
        let p = first_index(ids_of(s), id);
        let j = choose|j: int| 0 <= j < t.items.len() && t.items[j] == s.items[p];
        lemma_id_position(t, j);
    }
    if has_id(t, id) {
        lemma_first_index(ids_of(t), id);
        let j = first_index(ids_of(t), id);
        let q = choose|q: int| 0 <= q < s.items.len() && s.items[q] == t.items[j];
        lemma_id_position(s, q);
    }
}

/// Where a rule takes exactly the item at position `p`, that item is all
/// that is dropped.
pub proof fn lemma_dropped_single(items: Seq<ItemView>, rule: Doom, p: int)
    requires
        0 <= p < items.len(),
        forall|i: int| 0 <= i < items.len() ==> (doomed(rule, #[trigger] items[i]) <==> i == p),
    ensures
        dropped_items(items, rule) == seq![items[p]],
    decreases items.len(),
{
    let head = items.drop_last();
    if p == items.len() - 1 {
        lemma_dropped_none(head, rule);
    } else {
        lemma_dropped_single(head, rule, p);
    }
}

/// Where a rule takes no item of a list, nothing is dropped and the list is
/// kept whole.
pub proof fn lemma_dropped_none(items: Seq<ItemView>, rule: Doom)
    requires
        forall|i: int| 0 <= i < items.len() ==> !doomed(rule, #[trigger] items[i]),
    ensures
        dropped_items(items, rule) == Seq::<ItemView>::empty(),
        kept_items(items, rule) == items,
    decreases items.len(),
{
    if items.len() > 0 {
        let head = items.drop_last();
        lemma_dropped_none(head, rule);
    }
}

} // verus!
