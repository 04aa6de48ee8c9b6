//! The content store as a mathematical value: what it holds, what holds of
//! it, and what each operation makes of it.

use crate::clipboard::{is_image_mime, title_of, utf8_lossy};
use crate::text::first_index;
use vstd::prelude::*;

verus! {

/// An item as a mathematical value.
pub struct ItemView {
    pub id: int,
    pub created_at: int,
    pub updated_at: int,
    pub last_used: int,
    pub starred: bool,
    pub title: Seq<char>,
    pub body: Seq<char>,
    pub hash: Seq<char>,
}

/// An image record as a mathematical value.
pub struct ImageView {
    pub item_id: int,
    pub created_at: int,
    pub mime: Seq<char>,
    pub bytes: Seq<u8>,
}

/// The whole store as a mathematical value: the items in the order of their
/// ids, the image records, the id that the next insert will get, and the
/// data directory under which artifacts lie, if it is known.
pub struct StoreView {
    pub items: Seq<ItemView>,
    pub images: Seq<ImageView>,
    pub next_id: int,
    pub data_dir: Option<Seq<char>>,
}

/// The ids of the items, in store order.
pub open spec fn ids_of(s: StoreView) -> Seq<int> {
    Seq::new(s.items.len(), |i: int| s.items[i].id)
}

/// The hashes of the items, in store order.
pub open spec fn hashes_of(s: StoreView) -> Seq<Seq<char>> {
    Seq::new(s.items.len(), |i: int| s.items[i].hash)
}

/// Whether some item has this id.
pub open spec fn has_id(s: StoreView, id: int) -> bool {
    first_index(ids_of(s), id) < s.items.len()
}

/// Whether some item has this hash.
pub open spec fn has_hash(s: StoreView, hash: Seq<char>) -> bool {
    first_index(hashes_of(s), hash) < s.items.len()
}

/// The item with this id; meaningful where `has_id` holds.
pub open spec fn item_by_id(s: StoreView, id: int) -> ItemView {
    s.items[first_index(ids_of(s), id)]
}

/// The item with this hash; meaningful where `has_hash` holds.
pub open spec fn item_by_hash(s: StoreView, hash: Seq<char>) -> ItemView {
    s.items[first_index(hashes_of(s), hash)]
}

/// Whether the item with this id owns an image record.
pub open spec fn has_image(s: StoreView, id: int) -> bool {
    exists|k: int| 0 <= k < s.images.len() && (#[trigger] s.images[k]).item_id == id
}

/// How many items carry this hash.
pub open spec fn count_hash(items: Seq<ItemView>, hash: Seq<char>) -> nat
    decreases items.len(),
{
    if items.len() == 0 {
        0
    } else {
        count_hash(items.drop_last(), hash) + if items.last().hash == hash {
            1nat
        } else {
            0nat
        }
    }
}

/// What holds of every store: ids are positive, below the next id and
/// ascending; no two items share a hash; every image record belongs to an
/// item.
pub open spec fn valid(s: StoreView) -> bool {
    &&& 1 <= s.next_id <= i64::MAX
    &&& forall|i: int| 0 <= i < s.items.len() ==> 1 <= (#[trigger] s.items[i]).id < s.next_id
    &&& forall|i: int, j: int|
        0 <= i < j < s.items.len() ==> (#[trigger] s.items[i]).id < (#[trigger] s.items[j]).id
    &&& forall|i: int, j: int|
        0 <= i < j < s.items.len() ==> (#[trigger] s.items[i]).hash != (#[trigger] s.items[j]).hash
    &&& forall|k: int| 0 <= k < s.images.len() ==> has_id(s, (#[trigger] s.images[k]).item_id)
}

/// The title of an image item: `Image: ` and the hash.
pub open spec fn image_title(hash: Seq<char>) -> Seq<char> {
    "Image: "@ + hash
}

/// The item that a text capture creates.
pub open spec fn text_item(id: int, body: Seq<char>, hash: Seq<char>, now: int) -> ItemView {
    ItemView {
        id,
        created_at: now,
        updated_at: now,
        last_used: now,
        starred: false,
        title: title_of(body),
        body,
        hash,
    }
}

/// The item that an image capture creates.
pub open spec fn image_item(id: int, hash: Seq<char>, now: int) -> ItemView {
    ItemView {
        id,
        created_at: now,
        updated_at: now,
        last_used: now,
        starred: false,
        title: image_title(hash),
        body: Seq::empty(),
        hash,
    }
}

/// The store after a new item has taken the next id.
pub open spec fn with_item(s: StoreView, item: ItemView) -> StoreView {
    StoreView { items: s.items.push(item), next_id: s.next_id + 1, ..s }
}

/// The store after a new image record has been added.
pub open spec fn with_image(s: StoreView, image: ImageView) -> StoreView {
    StoreView { images: s.images.push(image), ..s }
}

/// The store after a text capture of new content at time `now`.
pub open spec fn after_insert_text(
    s: StoreView,
    body: Seq<char>,
    hash: Seq<char>,
    now: int,
) -> StoreView {
    with_item(s, text_item(s.next_id, body, hash, now))
}

/// The store after an image capture of new content at time `now`.
pub open spec fn after_insert_image(
    s: StoreView,
    mime: Seq<char>,
    bytes: Seq<u8>,
    hash: Seq<char>,
    now: int,
) -> StoreView {
    with_image(
        with_item(s, image_item(s.next_id, hash, now)),
        ImageView { item_id: s.next_id, created_at: now, mime, bytes },
    )
}

/// Whether an insert of content with this hash is accepted: the hash is new
/// and an id is left to give.
pub open spec fn can_insert(s: StoreView, hash: Seq<char>) -> bool {
    !has_hash(s, hash) && s.next_id < i64::MAX
}

/// The store after the item with this id, if any, was seen again at `now`.
pub open spec fn after_touch(s: StoreView, id: int, now: int) -> StoreView {
    StoreView {
        items: Seq::new(
            s.items.len(),
            |i: int|
                if s.items[i].id == id {
                    ItemView { last_used: now, ..s.items[i] }
                } else {
                    s.items[i]
                },
        ),
        ..s
    }
}

/// The store after the pin of the item with this id, if any, was set.
pub open spec fn after_set_starred(s: StoreView, id: int, value: bool) -> StoreView {
    StoreView {
        items: Seq::new(
            s.items.len(),
            |i: int|
                if s.items[i].id == id {
                    ItemView { starred: value, ..s.items[i] }
                } else {
                    s.items[i]
                },
        ),
        ..s
    }
}

/// Which items a deletion takes: those among `ids` (all, where `ids` is
/// absent), created before `before` (at any time, where it is absent), and,
/// where `spare_starred` is set, not pinned.
pub struct Doom {
    pub ids: Option<Seq<i64>>,
    pub before: Option<int>,
    pub spare_starred: bool,
}

/// Whether `id` stands in a list of ids.
pub open spec fn listed(ids: Seq<i64>, id: int) -> bool {
    exists|k: int| 0 <= k < ids.len() && #[trigger] ids[k] == id
}

/// Whether a deletion takes this item.
pub open spec fn doomed(rule: Doom, item: ItemView) -> bool {
    &&& (rule.ids is Some ==> listed(rule.ids->0, item.id))
    &&& (rule.before is Some ==> item.created_at < rule.before->0)
    &&& (rule.spare_starred ==> !item.starred)
}

/// The items that a deletion leaves, in their order.
pub open spec fn kept_items(items: Seq<ItemView>, rule: Doom) -> Seq<ItemView>
    decreases items.len(),
{
    if items.len() == 0 {
        Seq::empty()
    } else if doomed(rule, items.last()) {
        kept_items(items.drop_last(), rule)
    } else {
        kept_items(items.drop_last(), rule).push(items.last())
    }
}

/// The items that a deletion takes, in their order.
pub open spec fn dropped_items(items: Seq<ItemView>, rule: Doom) -> Seq<ItemView>
    decreases items.len(),
{
    if items.len() == 0 {
        Seq::empty()
    } else if doomed(rule, items.last()) {
        dropped_items(items.drop_last(), rule).push(items.last())
    } else {
        dropped_items(items.drop_last(), rule)
    }
}

/// Whether a deletion takes this image record: it does where it takes the
/// owning item.
pub open spec fn image_doomed(s: StoreView, rule: Doom, image: ImageView) -> bool {
    has_id(s, image.item_id) && doomed(rule, item_by_id(s, image.item_id))
}

/// The image records that a deletion from `s` leaves, in their order.
pub open spec fn kept_images(s: StoreView, images: Seq<ImageView>, rule: Doom) -> Seq<ImageView>
    decreases images.len(),
{
    if images.len() == 0 {
        Seq::empty()
    } else if image_doomed(s, rule, images.last()) {
        kept_images(s, images.drop_last(), rule)
    } else {
        kept_images(s, images.drop_last(), rule).push(images.last())
    }
}

/// The store after a deletion.
pub open spec fn after_delete(s: StoreView, rule: Doom) -> StoreView {
    StoreView {
        items: kept_items(s.items, rule),
        images: kept_images(s, s.images, rule),
        ..s
    }
}

/// The hashes of the items that a deletion takes, in store order.
pub open spec fn dropped_hashes(s: StoreView, rule: Doom) -> Seq<Seq<char>> {
    Seq::new(
        dropped_items(s.items, rule).len(),
        |i: int| dropped_items(s.items, rule)[i].hash,
    )
}

/// Whether ids ascend and no two hashes are equal in a list of items.
pub open spec fn keys_in_order(items: Seq<ItemView>) -> bool {
    &&& forall|i: int, j: int|
        0 <= i < j < items.len() ==> (#[trigger] items[i]).id < (#[trigger] items[j]).id
    &&& forall|i: int, j: int|
        0 <= i < j < items.len() ==> (#[trigger] items[i]).hash != (#[trigger] items[j]).hash
}

/// Whether a capture finds its content already stored and refreshes it.
pub open spec fn refreshes(s: StoreView, hash: Seq<char>, dedupe: bool) -> bool {
    dedupe && has_hash(s, hash)
}

/// The store after a capture at time `now`.
pub open spec fn after_capture(
    s: StoreView,
    mime: Seq<char>,
    data: Seq<u8>,
    hash: Seq<char>,
    dedupe: bool,
    now: int,
) -> StoreView {
    if refreshes(s, hash, dedupe) {
        after_touch(s, item_by_hash(s, hash).id, now)
    } else if !can_insert(s, hash) {
        s
    } else if is_image_mime(mime) {
        after_insert_image(s, mime, data, hash, now)
    } else {
        after_insert_text(s, utf8_lossy(data), hash, now)
    }
}

/// The rule of a deletion by ids: the listed items that are not pinned.
pub open spec fn by_ids(ids: Seq<i64>) -> Doom {
    Doom { ids: Some(ids), before: None, spare_starred: true }
}

/// The rule of the bulk deletion: every item that is not pinned.
pub open spec fn all_unstarred() -> Doom {
    Doom { ids: None, before: None, spare_starred: true }
}

/// The rule that takes the listed items, pinned or not.
pub open spec fn any_of(ids: Seq<i64>) -> Doom {
    Doom { ids: Some(ids), before: None, spare_starred: false }
}

/// The rule that takes one item, pinned or not.
pub open spec fn only(id: i64) -> Doom {
    Doom { ids: Some(seq![id]), before: None, spare_starred: false }
}

/// The rule of a retention sweep: the items created before `cutoff`, and of
/// those only the ones not pinned where `unstarred_only` is set.
pub open spec fn expired(cutoff: int, unstarred_only: bool) -> Doom {
    Doom { ids: None, before: Some(cutoff), spare_starred: unstarred_only }
}

/// The id that follows those of a list of items in the order of their ids.
pub open spec fn next_id_after(items: Seq<ItemView>) -> int {
    if items.len() == 0 {
        1
    } else {
        items.last().id + 1
    }
}

} // verus!
