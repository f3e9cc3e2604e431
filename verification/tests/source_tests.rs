use std::cmp::Ordering;

use chrono::TimeZone;
use chrono::Utc;

use livescroll_rss::FeedItem;
use livescroll_rss::RssSource;
use livescroll_rss::item::compare_recency;
use livescroll_rss::sort_items;

fn make_item(id: &str, title: &str, published: Option<i64>) -> FeedItem {
    FeedItem {
        id: id.to_string(),
        title: title.to_string(),
        description: None,
        link: None,
        published,
        source_name: "test".to_string(),
    }
}

fn ts(year: i32, month: u32, day: u32, hour: u32, min: u32, sec: u32) -> i64 {
    Utc.with_ymd_and_hms(year, month, day, hour, min, sec).unwrap().timestamp()
}

// -- FeedItem ordering -------------------------------------------------------

#[test]
fn feed_items_sort_reverse_chronological() {
    let old = make_item("1", "Old", Some(ts(2024, 1, 1, 0, 0, 0)));
    let mid = make_item("2", "Mid", Some(ts(2025, 6, 15, 12, 0, 0)));
    let new = make_item("3", "New", Some(ts(2026, 1, 1, 0, 0, 0)));

    let mut items = vec![old.clone(), new.clone(), mid.clone()];
    sort_items(&mut items);

    assert_eq!(items[0].id, "3", "newest first");
    assert_eq!(items[1].id, "2");
    assert_eq!(items[2].id, "1", "oldest last");
}

#[test]
fn items_without_date_sort_after_dated_items() {
    let dated = make_item("1", "Dated", Some(ts(2025, 1, 1, 0, 0, 0)));
    let undated = make_item("2", "Undated", None);

    let mut items = vec![undated.clone(), dated.clone()];
    sort_items(&mut items);

    assert_eq!(items[0].id, "1", "dated item should come first");
    assert_eq!(items[1].id, "2", "undated item should come last");
}

#[test]
fn items_with_same_date_are_equal_ordering() {
    let t = ts(2025, 6, 1, 12, 0, 0);
    let a = make_item("a", "A", Some(t));
    let b = make_item("b", "B", Some(t));
    assert_eq!(compare_recency(&a, &b), Ordering::Equal);
}

// -- RSS XML parsing ---------------------------------------------------------

#[test]
fn source_parse_channel_extracts_items() {
    let xml = r#"<?xml version="1.0" encoding="UTF-8"?>
<rss version="2.0">
  <channel>
    <title>Test Feed</title>
    <item>
      <title>First Post</title>
      <link>https://example.com/1</link>
      <guid>guid-1</guid>
      <pubDate>Mon, 01 Jan 2024 00:00:00 +0000</pubDate>
      <description>First description</description>
    </item>
    <item>
      <title>Second Post</title>
      <link>https://example.com/2</link>
      <guid>guid-2</guid>
      <pubDate>Tue, 02 Jan 2024 12:00:00 +0000</pubDate>
    </item>
  </channel>
</rss>"#;

    let items = RssSource::parse_channel(xml.as_bytes(), "TestFeed").unwrap();

    assert_eq!(items.len(), 2);

    assert_eq!(items[0].id, "guid-1");
    assert_eq!(items[0].title, "First Post");
    assert_eq!(items[0].link.as_deref(), Some("https://example.com/1"));
    assert_eq!(items[0].description.as_deref(), Some("First description"));
    assert_eq!(items[0].source_name, "TestFeed");
    assert!(items[0].published.is_some());

    assert_eq!(items[1].id, "guid-2");
    assert_eq!(items[1].title, "Second Post");
    assert!(items[1].description.is_none());
}

#[test]
fn parse_channel_falls_back_to_link_for_id() {
    let xml = r#"<?xml version="1.0" encoding="UTF-8"?>
<rss version="2.0">
  <channel>
    <title>Test</title>
    <item>
      <title>No GUID</title>
      <link>https://example.com/no-guid</link>
    </item>
  </channel>
</rss>"#;

    let items = RssSource::parse_channel(xml.as_bytes(), "t").unwrap();

    assert_eq!(items[0].id, "https://example.com/no-guid");
}

#[test]
fn parse_channel_handles_missing_title() {
    let xml = r#"<?xml version="1.0" encoding="UTF-8"?>
<rss version="2.0">
  <channel>
    <title>Test</title>
    <item>
      <guid>g1</guid>
    </item>
  </channel>
</rss>"#;

    let items = RssSource::parse_channel(xml.as_bytes(), "t").unwrap();

    assert_eq!(items[0].title, "(untitled)");
}

#[test]
fn parse_channel_handles_invalid_date() {
    let xml = r#"<?xml version="1.0" encoding="UTF-8"?>
<rss version="2.0">
  <channel>
    <title>Test</title>
    <item>
      <guid>g1</guid>
      <title>Bad Date</title>
      <pubDate>not-a-real-date</pubDate>
    </item>
  </channel>
</rss>"#;

    let items = RssSource::parse_channel(xml.as_bytes(), "t").unwrap();

    assert!(items[0].published.is_none());
}

// -- RssSource ---------------------------------------------------------------

#[test]
fn rss_source_name_returns_label() {
    let src = RssSource::new("http://example.com/feed", "My Feed");
    assert_eq!(src.name(), "My Feed");
}
