//! The RSS data source: parsing a fetched document into raw entries and
//! normalizing them into `FeedItem`s.

use vstd::prelude::*;

use crate::item::FeedItem;

verus! {

/// The textual fields of one `<item>` element of an RSS document.
pub struct RawEntry {
    /// `<guid>` if present.
    pub guid: Option<String>,
    /// `<link>` if present.
    pub link: Option<String>,
    /// `<title>` if present.
    pub title: Option<String>,
    /// `<description>` if present.
    pub description: Option<String>,
    /// `<pubDate>` if present.
    pub pub_date: Option<String>,
}

/// One raw entry as plain values: guid, link, title, description, pubDate.
pub type RawFields = (
    Option<Seq<char>>,
    Option<Seq<char>>,
    Option<Seq<char>>,
    Option<Seq<char>>,
    Option<Seq<char>>,
);

/// The view of an optional owned string.
pub open spec fn opt_view(o: Option<String>) -> Option<Seq<char>> {
    match o {
        Option::Some(s) => Option::Some(s@),
        Option::None => Option::None,
    }
}

impl View for RawEntry {
    type V = RawFields;

    open spec fn view(&self) -> RawFields {
        (
            opt_view(self.guid),
            opt_view(self.link),
            opt_view(self.title),
            opt_view(self.description),
            opt_view(self.pub_date),
        )
    }
}

/// What parsing an RSS document yields: the fields of each `<item>` in
/// document order, or the parser's error text. A fixed byte sequence always
/// parses the same way.
pub uninterp spec fn feed_entries(bytes: Seq<u8>) -> Result<Seq<RawFields>, Seq<char>>;

/// Relies on rss::Channel::read_from, which parses an RSS document from a
/// byte buffer — a function of the bytes alone — and on the `rss::Item`
/// accessors, which hand out the fields read; each `<item>`'s guid, link,
/// title, description and pubDate are carried over verbatim.
#[verifier::external_body]
fn read_feed(bytes: &[u8]) -> (r: Result<Vec<RawEntry>, String>)
    ensures
        match r {
            Ok(entries) => feed_entries(bytes@) is Ok && entries@.map_values(|e: RawEntry| e@)
                == feed_entries(bytes@)->Ok_0,
            Err(msg) => feed_entries(bytes@) is Err && msg@ == feed_entries(bytes@)->Err_0,
        },
{
    let channel = match rss::Channel::read_from(bytes) {
        Ok(c) => c,
        Err(e) => return Err(e.to_string()),
    };
    Ok(channel.items().iter().map(|i| RawEntry {
        guid: i.guid().map(|g| g.value().to_string()),
        link: i.link().map(String::from),
        title: i.title().map(String::from),
        description: i.description().map(String::from),
        pub_date: i.pub_date().map(String::from),
    }).collect())
}

/// What chrono's RFC 2822 parser yields for one date string: the Unix
/// timestamp, or nothing when the text is not a well-formed date.
pub uninterp spec fn rfc2822_timestamp(s: Seq<char>) -> Option<i64>;

/// Relies on chrono::DateTime::parse_from_rfc2822 and DateTime::timestamp,
/// both functions of the given text alone.
#[verifier::external_body]
fn parse_rfc2822(s: &str) -> (r: Option<i64>)
    ensures
        r == rfc2822_timestamp(s@),
{
    match chrono::DateTime::parse_from_rfc2822(s) {
        Ok(dt) => Some(dt.timestamp()),
        Err(_) => None,
    }
}

/// How one raw entry normalizes under a source label: `id` is the guid,
/// else the link, else empty; `title` falls back to `"(untitled)"`; a
/// missing or malformed date degrades to an absent timestamp.
pub open spec fn normalizes_to(e: RawFields, label: Seq<char>, item: FeedItem) -> bool {
    &&& item.id@ == (match e.0 {
        Option::Some(g) => g,
        Option::None => match e.1 {
            Option::Some(l) => l,
            Option::None => Seq::<char>::empty(),
        },
    })
    &&& opt_view(item.link) == e.1
    &&& item.title@ == (match e.2 {
        Option::Some(t) => t,
        Option::None => "(untitled)"@,
    })
    &&& opt_view(item.description) == e.3
    &&& item.published == (match e.4 {
        Option::Some(d) => rfc2822_timestamp(d),
        Option::None => Option::<i64>::None,
    })
    &&& item.source_name@ == label
}

/// Normalize one raw entry into a `FeedItem` carrying the source's label.
pub fn normalize_entry(e: RawEntry, label: &str) -> (item: FeedItem)
    ensures
        normalizes_to(e@, label@, item),
{
    let RawEntry { guid, link, title, description, pub_date } = e;
    let id = match guid {
        Option::Some(g) => g,
        Option::None => match &link {
            Option::Some(l) => l.clone(),
            Option::None => String::new(),
        },
    };
    let title = match title {
        Option::Some(t) => t,
        Option::None => "(untitled)".to_owned(),
    };
    let published = match &pub_date {
        Option::Some(d) => parse_rfc2822(d.as_str()),
        Option::None => Option::None,
    };
    FeedItem { id, title, description, link, published, source_name: label.to_owned() }
}

/// An RSS feed data source: a feed URL and the label shown beside its items.
pub struct RssSource {
    /// The feed URL to poll.
    pub url: String,
    /// A human-readable label shown beside each item from this feed.
    pub label: String,
}

impl RssSource {
    /// Create a new RSS source from a feed URL and a display label.
    pub fn new(url: &str, label: &str) -> (s: Self)
        ensures
            s.url@ == url@,
            s.label@ == label@,
    {
        RssSource { url: url.to_owned(), label: label.to_owned() }
    }

    /// The label shown for this source.
    pub fn name(&self) -> (r: &str)
        ensures
            r@ == self.label@,
    {
        self.label.as_str()
    }

    /// Parse an RSS document into `FeedItem`s: one per `<item>`, in document
    /// order, each normalized and labeled; when the document is not a
    /// well-formed feed, the parser's error text.
    pub fn parse_channel(bytes: &[u8], label: &str) -> (r: Result<Vec<FeedItem>, String>)
        ensures
            match r {
                Ok(items) => {
                    &&& feed_entries(bytes@) is Ok
                    &&& items@.len() == feed_entries(bytes@)->Ok_0.len()
                    &&& forall|k: int|
                        0 <= k < items@.len() ==> normalizes_to(
                            feed_entries(bytes@)->Ok_0[k],
                            label@,
                            #[trigger] items@[k],
                        )
                },
                Err(msg) => feed_entries(bytes@) is Err && msg@ == feed_entries(bytes@)->Err_0,
            },
    {
        let mut rest = match read_feed(bytes) {
            Ok(es) => es,
            Err(msg) => {
                return Err(msg);
            },
        };
        let ghost models = feed_entries(bytes@)->Ok_0;
        proof {
            assert(forall|j: int|
                0 <= j < rest@.len() ==> #[trigger] rest@[j]@ == models[j]);
        }
        let mut items: Vec<FeedItem> = Vec::new();
        while rest.len() > 0
            invariant
                items@.len() + rest@.len() == models.len(),
                forall|k: int|
                    0 <= k < items@.len() ==> normalizes_to(models[k], label@, #[trigger] items@[k]),
                forall|j: int|
                    0 <= j < rest@.len() ==> #[trigger] rest@[j]@ == models[items@.len() + j],
            decreases rest@.len(),
        {
            let ghost rest_pre = rest@;
            let e = rest.remove(0);
            let item = normalize_entry(e, label);
            items.push(item);
            proof {
                assert(forall|j: int|
                    0 <= j < rest@.len() ==> #[trigger] rest@[j] == rest_pre[j + 1]);
            }
        }
        Ok(items)
    }
}

} // verus!
