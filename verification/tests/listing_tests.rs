use memoria::listing::{ItemSummary, Scope};
use memoria::store::Store;

fn ids(rows: &[ItemSummary]) -> Vec<i64> {
    rows.iter().map(|r| r.id).collect()
}

fn sample() -> Store {
    let mut s = Store::new(Some("/data".to_string()));
    s.insert_text("a", "ha", 10).unwrap(); // 1
    s.insert_text("b", "hb", 30).unwrap(); // 2
    s.insert_image("image/png", &[1], "hc", 20).unwrap(); // 3
    s.insert_text("d", "hd", 40).unwrap(); // 4
    s.insert_image("image/png", &[2], "he", 30).unwrap(); // 5
    s.set_starred(1, true);
    s.set_starred(3, true);
    s
}

#[test]
fn list_shows_pinned_items_first_then_the_most_recent() {
    let s = sample();
    assert_eq!(ids(&s.list(50, false)), vec![3, 1, 4, 2, 5]);
}

#[test]
fn list_of_pinned_items_only() {
    let s = sample();
    assert_eq!(ids(&s.list(50, true)), vec![3, 1]);
}

#[test]
fn list_is_bounded_by_the_limit() {
    let s = sample();
    assert_eq!(ids(&s.list(3, false)), vec![3, 1, 4]);
    assert_eq!(ids(&s.list(1, true)), vec![3]);
    assert_eq!(ids(&s.list(5, false)).len(), 5);
}

#[test]
fn a_limit_of_zero_shows_nothing() {
    let s = sample();
    assert!(s.list(0, false).is_empty());
    assert!(s.list(0, true).is_empty());
    assert!(s.gallery(0).is_empty());
}

#[test]
fn list_of_an_empty_store_is_empty() {
    let s = Store::new(None);
    assert!(s.list(50, false).is_empty());
    assert!(s.gallery(50).is_empty());
}

#[test]
fn gallery_shows_image_items_most_recent_first() {
    let s = sample();
    assert_eq!(ids(&s.gallery(50)), vec![5, 3]);
    assert_eq!(ids(&s.gallery(1)), vec![5]);
}

#[test]
fn touching_an_item_moves_it_up() {
    let mut s = sample();
    s.touch_last_used(2, 99);
    assert_eq!(ids(&s.list(50, false)), vec![3, 1, 2, 4, 5]);
    s.touch_last_used(1, 100);
    assert_eq!(ids(&s.list(50, false)), vec![1, 3, 2, 4, 5]);
}

#[test]
fn summary_carries_the_fields_of_the_item() {
    let s = sample();
    let rows = s.list(50, false);
    let row = rows.iter().find(|r| r.id == 2).unwrap();
    assert_eq!(row.title, Some("b".to_string()));
    assert_eq!(row.body, Some("b".to_string()));
    assert_eq!(row.created_at, 30);
    assert_eq!(row.updated_at, 30);
    assert_eq!(row.last_used, Some(30));
    assert!(!row.starred);
    assert_eq!(row.hash, Some("hb".to_string()));
    assert!(!row.has_image);
    assert_eq!(row.thumbnail_path, None);
}

#[test]
fn summary_of_an_image_item_names_the_thumbnail() {
    let s = sample();
    let rows = s.gallery(50);
    assert!(rows[0].has_image);
    assert_eq!(rows[0].thumbnail_path, Some("/data/images/thumbs/he.png".to_string()));
    assert_eq!(rows[0].title, Some("Image: he".to_string()));
    assert_eq!(rows[0].body, Some(String::new()));
}

#[test]
fn without_a_data_dir_there_is_no_thumbnail_path() {
    let mut s = Store::new(None);
    s.insert_image("image/png", &[1], "hc", 20).unwrap();
    let rows = s.gallery(50);
    assert!(rows[0].has_image);
    assert_eq!(rows[0].thumbnail_path, None);
}

#[test]
fn search_results_follow_the_rank_and_the_limit() {
    let s = sample();
    assert_eq!(ids(&s.search_results(&[4, 2, 1], 50)), vec![4, 2, 1]);
    assert_eq!(ids(&s.search_results(&[4, 2, 1], 2)), vec![4, 2]);
    assert_eq!(ids(&s.search_results(&[4, 77, 1], 50)), vec![4, 1]);
    assert!(s.search_results(&[4, 2, 1], 0).is_empty());
    assert!(s.search_results(&[], 50).is_empty());
}

#[test]
fn select_gives_positions_in_listing_order() {
    let s = sample();
    assert_eq!(s.select(Scope::All, 2), vec![2, 0]);
    assert_eq!(s.select(Scope::Starred, 9), vec![2, 0]);
    assert_eq!(s.select(Scope::WithImage, 9), vec![4, 2]);
}

#[test]
fn equal_last_used_is_ordered_by_id() {
    let mut s = Store::new(None);
    s.insert_text("a", "ha", 5).unwrap();
    s.insert_text("b", "hb", 5).unwrap();
    s.insert_text("c", "hc", 5).unwrap();
    assert_eq!(ids(&s.list(50, false)), vec![1, 2, 3]);
}
