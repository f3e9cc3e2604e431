use chrono::TimeZone;
use chrono::Utc;

use livescroll_rss::App;
use livescroll_rss::FeedItem;

fn make_item(id: &str, title: &str, published: Option<i64>) -> FeedItem {
    FeedItem {
        id: id.to_string(),
        title: title.to_string(),
        description: None,
        link: None,
        published,
        source_name: "test".to_string(),
    }
}

fn ts(year: i32, month: u32, day: u32, hour: u32, min: u32, sec: u32) -> i64 {
    Utc.with_ymd_and_hms(year, month, day, hour, min, sec).unwrap().timestamp()
}

fn sample_items() -> Vec<FeedItem> {
    vec![
        make_item("1", "Old", Some(ts(2024, 1, 1, 0, 0, 0))),
        make_item("2", "Mid", Some(ts(2025, 6, 1, 0, 0, 0))),
        make_item("3", "New", Some(ts(2026, 1, 1, 0, 0, 0))),
    ]
}

// -- construction ------------------------------------------------------------

#[test]
fn new_app_starts_empty() {
    let app = App::new();
    assert!(app.items.is_empty());
    assert!(!app.quit);
    assert!(app.selected().is_none());
}

// -- merge_items -------------------------------------------------------------

#[test]
fn merge_items_inserts_and_sorts_reverse_chronological() {
    let mut app = App::new();
    app.merge_items(sample_items());

    assert_eq!(app.items.len(), 3);
    assert_eq!(app.items[0].id, "3", "newest first");
    assert_eq!(app.items[1].id, "2");
    assert_eq!(app.items[2].id, "1", "oldest last");
}

#[test]
fn merge_items_deduplicates_by_id() {
    let mut app = App::new();
    app.merge_items(vec![
        make_item("dup", "First", Some(ts(2025, 1, 1, 0, 0, 0))),
    ]);
    app.merge_items(vec![
        make_item("dup", "Second copy", Some(ts(2025, 1, 2, 0, 0, 0))),
        make_item("new", "New item", Some(ts(2025, 1, 3, 0, 0, 0))),
    ]);

    assert_eq!(app.items.len(), 2);
    // The original "First" title is kept, not overwritten.
    assert!(app.items.iter().any(|i| i.id == "dup" && i.title == "First"));
    assert!(app.items.iter().any(|i| i.id == "new"));
}

#[test]
fn merge_items_handles_empty_input() {
    let mut app = App::new();
    app.merge_items(vec![]);
    assert!(app.items.is_empty());
}

#[test]
fn merge_items_preserves_existing_on_second_call() {
    let mut app = App::new();
    app.merge_items(vec![make_item("a", "A", None)]);
    app.merge_items(vec![make_item("b", "B", None)]);
    assert_eq!(app.items.len(), 2);
}

// -- navigation --------------------------------------------------------------

#[test]
fn select_next_on_empty_is_noop() {
    let mut app = App::new();
    app.select_next();
    assert!(app.selected().is_none());
}

#[test]
fn select_previous_on_empty_is_noop() {
    let mut app = App::new();
    app.select_previous();
    assert!(app.selected().is_none());
}

#[test]
fn select_first_on_empty_is_noop() {
    let mut app = App::new();
    app.select_first();
    assert!(app.selected().is_none());
}

#[test]
fn select_last_on_empty_is_noop() {
    let mut app = App::new();
    app.select_last();
    assert!(app.selected().is_none());
}

#[test]
fn select_next_starts_at_zero_then_advances() {
    let mut app = App::new();
    app.merge_items(sample_items());

    app.select_next();
    assert_eq!(app.selected(), Some(0));

    app.select_next();
    assert_eq!(app.selected(), Some(1));

    app.select_next();
    assert_eq!(app.selected(), Some(2));
}

#[test]
fn select_next_clamps_at_last_item() {
    let mut app = App::new();
    app.merge_items(sample_items());

    app.select_last();
    app.select_next();
    assert_eq!(app.selected(), Some(2));
}

#[test]
fn select_previous_clamps_at_zero() {
    let mut app = App::new();
    app.merge_items(sample_items());

    app.select_first();
    app.select_previous();
    assert_eq!(app.selected(), Some(0));
}

#[test]
fn select_previous_moves_up() {
    let mut app = App::new();
    app.merge_items(sample_items());

    app.select_last(); // index 2
    app.select_previous();
    assert_eq!(app.selected(), Some(1));
}

#[test]
fn select_first_jumps_to_zero() {
    let mut app = App::new();
    app.merge_items(sample_items());

    app.select_last();
    app.select_first();
    assert_eq!(app.selected(), Some(0));
}

#[test]
fn select_last_jumps_to_end() {
    let mut app = App::new();
    app.merge_items(sample_items());

    app.select_last();
    assert_eq!(app.selected(), Some(2));
}
