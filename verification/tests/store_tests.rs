use memoria::clipboard::ClipboardEntry;
use memoria::error::ErrorKind;
use memoria::hashing::compute_hash;
use memoria::listing::CopyPayload;
use memoria::store::{CapturePlan, Captured, ImageRow, Item, Store};

fn text(data: &[u8]) -> ClipboardEntry {
    ClipboardEntry::new("text/plain".to_string(), data.to_vec())
}

fn image(data: &[u8]) -> ClipboardEntry {
    ClipboardEntry::new("image/png".to_string(), data.to_vec())
}

fn store() -> Store {
    Store::new(Some("/data".to_string()))
}

#[test]
fn a_new_store_is_empty() {
    let s = store();
    assert_eq!(s.len(), 0);
    assert_eq!(s.image_count(), 0);
    assert_eq!(s.find_by_hash("abc"), None);
    assert_eq!(s.data_dir(), &Some("/data".to_string()));
}

#[test]
fn insert_text_gives_ids_in_order_and_derives_the_title() {
    let mut s = store();
    assert_eq!(s.insert_text("first line\nsecond", "h1", 10), Ok(1));
    assert_eq!(s.insert_text("other", "h2", 11), Ok(2));
    assert_eq!(s.len(), 2);
    let item = s.item_at(0);
    assert_eq!(item.id, 1);
    assert_eq!(item.title, "first line");
    assert_eq!(item.body, "first line\nsecond");
    assert_eq!(item.hash, "h1");
    assert_eq!(item.created_at, 10);
    assert_eq!(item.updated_at, 10);
    assert_eq!(item.last_used, 10);
    assert!(!item.starred);
    assert_eq!(s.find_by_hash("h2"), Some(2));
}

#[test]
fn insert_text_of_a_stored_hash_is_a_conflict() {
    let mut s = store();
    assert_eq!(s.insert_text("a", "h", 1), Ok(1));
    assert_eq!(s.insert_text("b", "h", 2), Err(ErrorKind::Conflict));
    assert_eq!(s.len(), 1);
    assert_eq!(s.item_at(0).body, "a");
    assert_eq!(s.item_at(0).last_used, 1);
}

#[test]
fn insert_image_adds_the_item_and_its_image_record() {
    let mut s = store();
    assert_eq!(s.insert_image("image/png", &[1, 2, 3], "abc", 5), Ok(1));
    assert_eq!(s.len(), 1);
    assert_eq!(s.image_count(), 1);
    let item = s.item_at(0);
    assert_eq!(item.title, "Image: abc");
    assert_eq!(item.body, "");
    assert_eq!(item.hash, "abc");
    let record = s.image_at(0);
    assert_eq!(record.item_id, 1);
    assert_eq!(record.created_at, 5);
    assert_eq!(record.mime, "image/png");
    assert_eq!(record.bytes, vec![1, 2, 3]);
    assert!(s.owns_image(1));
    assert!(!s.owns_image(2));
}

#[test]
fn insert_image_of_a_stored_hash_adds_nothing() {
    let mut s = store();
    assert_eq!(s.insert_text("a", "h", 1), Ok(1));
    assert_eq!(s.insert_image("image/png", &[1], "h", 2), Err(ErrorKind::Conflict));
    assert_eq!(s.len(), 1);
    assert_eq!(s.image_count(), 0);
}

#[test]
fn touch_changes_last_used_only() {
    let mut s = store();
    s.insert_text("a", "h", 1).unwrap();
    assert_eq!(s.touch_last_used(1, 9), 1);
    let item = s.item_at(0);
    assert_eq!(item.last_used, 9);
    assert_eq!(item.created_at, 1);
    assert_eq!(item.updated_at, 1);
    assert_eq!(s.touch_last_used(7, 9), 0);
}

#[test]
fn set_starred_reports_the_rows_changed() {
    let mut s = store();
    s.insert_text("a", "h", 1).unwrap();
    assert_eq!(s.set_starred(1, true), 1);
    assert!(s.item_at(0).starred);
    assert_eq!(s.set_starred(1, false), 1);
    assert!(!s.item_at(0).starred);
    assert_eq!(s.set_starred(2, true), 0);
}

#[test]
fn capturing_twice_with_dedup_keeps_one_item() {
    let mut s = store();
    let e = text(b"same bytes");
    assert_eq!(s.capture(&e, true, 100), Ok(Captured::InsertedText(1)));
    assert_eq!(s.capture(&e, true, 200), Ok(Captured::Refreshed(1)));
    assert_eq!(s.len(), 1);
    let item = s.item_at(0);
    assert_eq!(item.created_at, 100);
    assert_eq!(item.last_used, 200);
    assert!(item.last_used > item.created_at);
    assert_eq!(item.hash, compute_hash(b"same bytes"));
}

#[test]
fn capturing_twice_without_dedup_is_a_conflict() {
    let mut s = store();
    let e = text(b"same bytes");
    assert_eq!(s.capture(&e, false, 100), Ok(Captured::InsertedText(1)));
    assert_eq!(s.capture(&e, false, 200), Err(ErrorKind::Conflict));
    assert_eq!(s.len(), 1);
    assert_eq!(s.item_at(0).last_used, 100);
}

#[test]
fn many_captures_of_one_content_settle_to_one_item() {
    let mut s = store();
    s.capture(&text(b"other"), true, 1).unwrap();
    let e = text(b"racing");
    for now in [50i64, 10, 40, 20, 30, 30, 60] {
        assert!(s.capture(&e, true, now).is_ok());
    }
    assert_eq!(s.len(), 2);
    let hash = compute_hash(b"racing");
    let mut rows = 0;
    for at in 0..s.len() {
        if s.item_at(at).hash == hash {
            rows += 1;
        }
    }
    assert_eq!(rows, 1);
    assert_eq!(s.item_at(1).created_at, 50);
    assert_eq!(s.item_at(1).last_used, 60);
}

#[test]
fn capture_of_an_image_stores_the_bytes() {
    let mut s = store();
    let e = image(&[137, 80, 78, 71]);
    assert_eq!(s.capture(&e, true, 7), Ok(Captured::InsertedImage(1)));
    assert_eq!(s.image_count(), 1);
    assert_eq!(s.image_at(0).bytes, vec![137, 80, 78, 71]);
    assert_eq!(s.image_at(0).mime, "image/png");
    assert_eq!(s.item_at(0).title, format!("Image: {}", e.hash));
    assert_eq!(s.item_at(0).body, "");
    assert_eq!(s.capture(&e, true, 8), Ok(Captured::Refreshed(1)));
    assert_eq!(s.image_count(), 1);
}

#[test]
fn capture_of_text_stores_the_lossy_text() {
    let mut s = store();
    let e = text(&[b'h', b'i', 0xff, b'\n', b'x']);
    s.capture(&e, true, 7).unwrap();
    assert_eq!(s.item_at(0).body, "hi\u{FFFD}\nx");
    assert_eq!(s.item_at(0).title, "hi\u{FFFD}");
}

#[test]
fn delete_ids_passes_over_pinned_items() {
    let mut s = store();
    let a = s.insert_text("a", "ha", 1).unwrap();
    let b = s.insert_text("b", "hb", 2).unwrap();
    s.set_starred(a, true);
    let removal = s.delete_ids(&[a, b]);
    assert_eq!(removal.deleted_items, 1);
    assert_eq!(removal.deleted_images, 0);
    assert_eq!(removal.hashes, vec!["hb".to_string()]);
    assert_eq!(s.len(), 1);
    assert_eq!(s.item_at(0).id, a);
    assert_eq!(s.find_by_hash("hb"), None);
}

#[test]
fn delete_ids_ignores_unknown_and_repeated_ids() {
    let mut s = store();
    let a = s.insert_text("a", "ha", 1).unwrap();
    let removal = s.delete_ids(&[99, a, a, -4]);
    assert_eq!(removal.deleted_items, 1);
    assert_eq!(s.len(), 0);
    let nothing = s.delete_ids(&[a]);
    assert_eq!(nothing.deleted_items, 0);
    assert!(nothing.hashes.is_empty());
}

#[test]
fn deleting_an_image_item_removes_its_image_record() {
    let mut s = store();
    let a = s.insert_image("image/png", &[1], "ha", 1).unwrap();
    let b = s.insert_image("image/png", &[2], "hb", 2).unwrap();
    let removal = s.delete_ids(&[a]);
    assert_eq!(removal.deleted_items, 1);
    assert_eq!(removal.deleted_images, 1);
    assert_eq!(removal.hashes, vec!["ha".to_string()]);
    assert_eq!(s.image_count(), 1);
    assert_eq!(s.image_at(0).item_id, b);
    assert!(!s.owns_image(a));
}

#[test]
fn delete_all_except_starred_keeps_pinned_items_and_their_images() {
    let mut s = store();
    let a = s.insert_image("image/png", &[1], "ha", 1).unwrap();
    s.insert_image("image/png", &[2], "hb", 2).unwrap();
    s.insert_text("c", "hc", 3).unwrap();
    s.set_starred(a, true);
    let removal = s.delete_all_except_starred();
    assert_eq!(removal.deleted_items, 2);
    assert_eq!(removal.deleted_images, 1);
    assert_eq!(removal.hashes, vec!["hb".to_string(), "hc".to_string()]);
    assert_eq!(s.len(), 1);
    assert_eq!(s.image_count(), 1);
    assert!(s.owns_image(a));
}

#[test]
fn delete_item_takes_a_pinned_item_too() {
    let mut s = store();
    let a = s.insert_text("a", "ha", 1).unwrap();
    s.set_starred(a, true);
    let removal = s.delete_item(a);
    assert_eq!(removal.deleted_items, 1);
    assert_eq!(removal.hashes, vec!["ha".to_string()]);
    assert_eq!(s.len(), 0);
    assert_eq!(s.delete_item(a).deleted_items, 0);
}

#[test]
fn delete_each_takes_the_listed_items_pinned_or_not() {
    let mut s = store();
    let a = s.insert_text("a", "ha", 1).unwrap();
    let b = s.insert_text("b", "hb", 2).unwrap();
    s.insert_text("c", "hc", 3).unwrap();
    s.set_starred(a, true);
    let removal = s.delete_each(&[b, a]);
    assert_eq!(removal.deleted_items, 2);
    assert_eq!(removal.hashes, vec!["ha".to_string(), "hb".to_string()]);
    assert_eq!(s.len(), 1);
}

#[test]
fn sweep_removes_old_unpinned_items() {
    let mut s = store();
    let old = s.insert_text("old", "h1", 100).unwrap();
    let old_pinned = s.insert_text("old pinned", "h2", 100).unwrap();
    let fresh = s.insert_text("fresh", "h3", 500).unwrap();
    let edge = s.insert_text("edge", "h4", 300).unwrap();
    s.set_starred(old_pinned, true);
    let removal = s.sweep(300, true);
    assert_eq!(removal.deleted_items, 1);
    assert_eq!(removal.hashes, vec!["h1".to_string()]);
    assert_eq!(s.len(), 3);
    assert_eq!(s.position_of(old), 3);
    assert!(s.position_of(old_pinned) < 3);
    assert!(s.position_of(fresh) < 3);
    assert!(s.position_of(edge) < 3);
}

#[test]
fn sweep_of_everything_takes_pinned_items_too() {
    let mut s = store();
    s.insert_text("old", "h1", 100).unwrap();
    let old_pinned = s.insert_text("old pinned", "h2", 100).unwrap();
    s.insert_text("fresh", "h3", 500).unwrap();
    s.set_starred(old_pinned, true);
    let removal = s.sweep(300, false);
    assert_eq!(removal.deleted_items, 2);
    assert_eq!(s.len(), 1);
    assert_eq!(s.item_at(0).hash, "h3");
}

#[test]
fn ids_are_not_given_twice() {
    let mut s = store();
    let a = s.insert_text("a", "ha", 1).unwrap();
    s.delete_item(a);
    let b = s.insert_text("a", "ha", 2).unwrap();
    assert_ne!(a, b);
    assert_eq!(b, 2);
}

#[test]
fn copy_payload_prefers_the_image() {
    let mut s = store();
    let t = s.insert_text("hello", "ht", 1).unwrap();
    let i = s.insert_image("image/jpeg", &[9, 8], "hi", 2).unwrap();
    match s.copy_payload(t) {
        Ok(CopyPayload::Text { body }) => assert_eq!(body, "hello"),
        other => panic!("expected text, got {:?}", other),
    }
    match s.copy_payload(i) {
        Ok(CopyPayload::Image { mime, bytes }) => {
            assert_eq!(mime, "image/jpeg");
            assert_eq!(bytes, vec![9, 8]);
        }
        other => panic!("expected an image, got {:?}", other),
    }
    assert!(matches!(s.copy_payload(77), Err(ErrorKind::NotFound)));
}

fn row(id: i64, hash: &str, created_at: i64) -> Item {
    Item {
        id,
        created_at,
        updated_at: created_at,
        last_used: created_at,
        starred: false,
        title: String::new(),
        body: String::new(),
        hash: hash.to_string(),
    }
}

fn record(item_id: i64) -> ImageRow {
    ImageRow { item_id, created_at: 0, mime: "image/png".to_string(), bytes: vec![1] }
}

#[test]
fn restore_takes_consistent_rows() {
    let restored = Store::restore(
        Some("/d".to_string()),
        vec![row(2, "a", 1), row(5, "b", 2)],
        vec![record(5)],
    );
    let mut s = restored.unwrap();
    assert_eq!(s.len(), 2);
    assert_eq!(s.image_count(), 1);
    assert_eq!(s.find_by_hash("b"), Some(5));
    assert_eq!(s.insert_text("c", "c", 3), Ok(6));
    let empty = Store::restore(None, vec![], vec![]).unwrap();
    assert_eq!(empty.len(), 0);
}

#[test]
fn restore_refuses_broken_rows() {
    let refused = |items, images| {
        matches!(Store::restore(None, items, images), Err(ErrorKind::StoreFailure))
    };
    assert!(refused(vec![row(0, "a", 1)], vec![]));
    assert!(refused(vec![row(-1, "a", 1)], vec![]));
    assert!(refused(vec![row(2, "a", 1), row(1, "b", 1)], vec![]));
    assert!(refused(vec![row(1, "a", 1), row(1, "b", 1)], vec![]));
    assert!(refused(vec![row(1, "a", 1), row(2, "b", 1), row(3, "a", 1)], vec![]));
    assert!(refused(vec![row(1, "a", 1)], vec![record(2)]));
    assert!(refused(vec![], vec![record(1)]));
    assert!(refused(vec![row(i64::MAX, "a", 1)], vec![]));
}

#[test]
fn a_store_without_ids_left_fails_to_insert() {
    let mut s = Store::restore(None, vec![row(i64::MAX - 1, "a", 1)], vec![]).unwrap();
    assert_eq!(s.insert_text("b", "b", 2), Err(ErrorKind::StoreFailure));
    assert_eq!(s.insert_image("image/png", &[1], "c", 2), Err(ErrorKind::StoreFailure));
    assert_eq!(s.insert_text("a", "a", 2), Err(ErrorKind::Conflict));
    assert_eq!(s.capture(&text(b"x"), true, 3), Err(ErrorKind::StoreFailure));
    assert_eq!(s.len(), 1);
}

#[test]
fn plan_of_a_capture() {
    let mut s = store();
    let t = text(b"hello");
    let i = ClipboardEntry::new("image/jpeg;q=1".to_string(), vec![1, 2]);
    assert!(matches!(s.plan_capture(&t, true), Ok(CapturePlan::InsertText)));
    match s.plan_capture(&i, true) {
        Ok(CapturePlan::InsertImage { original, thumbnail }) => {
            assert_eq!(original, format!("/data/images/originals/{}.jpeg", i.hash));
            assert_eq!(thumbnail, format!("/data/images/thumbs/{}.png", i.hash));
        }
        other => panic!("unexpected {:?}", other),
    }
    s.capture(&t, true, 1).unwrap();
    assert!(matches!(s.plan_capture(&t, true), Ok(CapturePlan::Refresh { id: 1 })));
    assert!(matches!(s.plan_capture(&t, false), Err(ErrorKind::Conflict)));
    assert_eq!(s.len(), 1);
    let nowhere = Store::new(None);
    assert!(matches!(nowhere.plan_capture(&i, true), Err(ErrorKind::ArtifactFailure)));
    assert!(matches!(nowhere.plan_capture(&t, true), Ok(CapturePlan::InsertText)));
}

#[test]
fn an_image_without_its_artifacts_is_not_stored() {
    let mut s = store();
    let i = image(&[1, 2, 3]);
    assert_eq!(s.commit_capture(&i, true, 5, false), Err(ErrorKind::ArtifactFailure));
    assert_eq!(s.len(), 0);
    assert_eq!(s.image_count(), 0);
    assert_eq!(s.commit_capture(&i, true, 5, true), Ok(Captured::InsertedImage(1)));
    assert_eq!(s.commit_capture(&i, true, 6, false), Ok(Captured::Refreshed(1)));
    assert_eq!(s.commit_capture(&i, false, 7, false), Err(ErrorKind::Conflict));
    let t = text(b"plain");
    assert_eq!(s.commit_capture(&t, true, 8, false), Ok(Captured::InsertedText(2)));
    assert_eq!(s.len(), 2);
    assert_eq!(s.image_count(), 1);
}
