use std::cmp::Ordering;

use chrono::TimeZone;
use chrono::Utc;

use livescroll_rss::FeedItem;
use livescroll_rss::item::compare_recency;
use livescroll_rss::sort_items;

fn make_item(id: &str, title: &str, published: Option<i64>) -> FeedItem {
    FeedItem {
        id: id.to_string(),
        title: title.to_string(),
        description: None,
        link: None,
        published,
        source_name: "test".to_string(),
    }
}

fn ts(year: i32, month: u32, day: u32, hour: u32, min: u32, sec: u32) -> i64 {
    Utc.with_ymd_and_hms(year, month, day, hour, min, sec).unwrap().timestamp()
}

#[test]
fn sort_reverse_chronological() {
    let old = make_item("1", "Old", Some(ts(2024, 1, 1, 0, 0, 0)));
    let mid = make_item("2", "Mid", Some(ts(2025, 6, 15, 12, 0, 0)));
    let new = make_item("3", "New", Some(ts(2026, 1, 1, 0, 0, 0)));

    let mut items = vec![old.clone(), new.clone(), mid.clone()];
    sort_items(&mut items);

    assert_eq!(items[0].id, "3", "newest first");
    assert_eq!(items[1].id, "2");
    assert_eq!(items[2].id, "1", "oldest last");
}

#[test]
fn undated_items_sort_after_dated() {
    let dated = make_item("1", "Dated", Some(ts(2025, 1, 1, 0, 0, 0)));
    let undated = make_item("2", "Undated", None);

    let mut items = vec![undated.clone(), dated.clone()];
    sort_items(&mut items);

    assert_eq!(items[0].id, "1", "dated item should come first");
    assert_eq!(items[1].id, "2", "undated item should come last");
}

#[test]
fn same_date_yields_equal_ordering() {
    let t = ts(2025, 6, 1, 12, 0, 0);
    let a = make_item("a", "A", Some(t));
    let b = make_item("b", "B", Some(t));
    assert_eq!(compare_recency(&a, &b), Ordering::Equal);
}
