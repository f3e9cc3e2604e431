//! The normalized feed entry type and its reverse-chronological ordering.

use vstd::prelude::*;

verus! {

/// A single feed entry, normalized from any data source.
///
/// `published` is a Unix timestamp in seconds; `None` means the source gave
/// no date, and such entries order after every dated entry.
#[derive(Debug, Clone, PartialEq, Eq)]
pub struct FeedItem {
    /// Unique identifier used for de-duplication.
    pub id: String,
    /// Human-readable headline.
    pub title: String,
    /// Optional longer description or summary text.
    pub description: Option<String>,
    /// URL to the full content.
    pub link: Option<String>,
    /// Publication timestamp (Unix seconds), used for sorting.
    pub published: Option<i64>,
    /// Name of the source or feed this came from.
    pub source_name: String,
}

/// `a` is at least as recent as `b`: a missing timestamp counts as older
/// than every present one, and equal timestamps are order-equivalent.
pub open spec fn recency_geq(a: Option<i64>, b: Option<i64>) -> bool {
    match b {
        Option::None => true,
        Option::Some(tb) => match a {
            Option::None => false,
            Option::Some(ta) => ta >= tb,
        },
    }
}

/// Newest first: every entry is at least as recent as the ones after it.
pub open spec fn sorted_by_recency(s: Seq<FeedItem>) -> bool {
    forall|i: int, j: int|
        0 <= i <= j < s.len() ==> #[trigger] recency_geq(s[i].published, s[j].published)
}

/// The set of `id` values present in a sequence of items.
pub open spec fn item_ids(s: Seq<FeedItem>) -> Set<Seq<char>> {
    Set::new(|id: Seq<char>| exists|k: int| 0 <= k < s.len() && s[k].id@ == id)
}

/// No two items of the sequence share an `id`.
pub open spec fn unique_ids(s: Seq<FeedItem>) -> bool {
    forall|j: int, k: int|
        0 <= j < k < s.len() ==> #[trigger] s[j].id@ != #[trigger] s[k].id@
}

/// Exec comparison mirroring `recency_geq`.
pub fn recency_at_least(a: &Option<i64>, b: &Option<i64>) -> (r: bool)
    ensures
        r == recency_geq(*a, *b),
{
    match b {
        Option::None => true,
        Option::Some(tb) => match a {
            Option::None => false,
            Option::Some(ta) => *ta >= *tb,
        },
    }
}

/// Three-way comparison of two items, newest first, with order-equivalence
/// for equal (or equally absent) timestamps.
pub fn compare_recency(a: &FeedItem, b: &FeedItem) -> (r: core::cmp::Ordering)
    ensures
        r == core::cmp::Ordering::Equal <==> (recency_geq(a.published, b.published)
            && recency_geq(b.published, a.published)),
        r == core::cmp::Ordering::Less <==> (recency_geq(a.published, b.published)
            && !recency_geq(b.published, a.published)),
        r == core::cmp::Ordering::Greater <==> (recency_geq(b.published, a.published)
            && !recency_geq(a.published, b.published)),
{
    match (&a.published, &b.published) {
        (Option::Some(ta), Option::Some(tb)) => {
            if *ta > *tb {
                core::cmp::Ordering::Less
            } else if *ta < *tb {
                core::cmp::Ordering::Greater
            } else {
                core::cmp::Ordering::Equal
            }
        },
        (Option::Some(_), Option::None) => core::cmp::Ordering::Less,
        (Option::None, Option::Some(_)) => core::cmp::Ordering::Greater,
        (Option::None, Option::None) => core::cmp::Ordering::Equal,
    }
}

/// Insert one item into a sorted vector, keeping it sorted.
pub fn insert_by_recency(items: &mut Vec<FeedItem>, item: FeedItem)
    requires
        sorted_by_recency(old(items)@),
    ensures
        sorted_by_recency(final(items)@),
        exists|p: int|
            0 <= p <= old(items)@.len() && final(items)@ == #[trigger] old(items)@.insert(p, item),
        final(items)@.to_multiset() == old(items)@.to_multiset().insert(item),
        final(items)@.len() == old(items)@.len() + 1,
{
    let mut i: usize = 0;
    while i < items.len()
        invariant_except_break
            i <= items@.len(),
            items@ == old(items)@,
            forall|k: int| 0 <= k < i ==> !recency_geq(item.published, #[trigger] items@[k].published),
        ensures
            i <= items@.len(),
            items@ == old(items)@,
            forall|k: int| 0 <= k < i ==> !recency_geq(item.published, #[trigger] items@[k].published),
            i < items@.len() ==> recency_geq(item.published, items@[i as int].published),
        decreases items@.len() - i,
    {
        if recency_at_least(&item.published, &items[i].published) {
            break;
        }
        i += 1;
    }
    proof {
        broadcast use vstd::seq_lib::to_multiset_insert;
        let s = items@;
        let t = s.insert(i as int, item);
        assert forall|x: int, y: int| 0 <= x <= y < t.len() implies #[trigger] recency_geq(
            t[x].published,
            t[y].published,
        ) by {
            if x < i && y >= i + 1 {
                assert(recency_geq(s[x].published, item.published));
                assert(recency_geq(item.published, s[y - 1].published));
            } else if x == i && y >= i + 1 {
                assert(recency_geq(item.published, s[i as int].published));
                assert(recency_geq(s[i as int].published, s[y - 1].published));
            } else if x < i && y == i {
                assert(recency_geq(s[x].published, item.published));
            }
        }
    }
    items.insert(i, item);
}

/// Sort items newest first; the result is a permutation of the input.
pub fn sort_items(items: &mut Vec<FeedItem>)
    ensures
        sorted_by_recency(final(items)@),
        final(items)@.to_multiset() == old(items)@.to_multiset(),
        final(items)@.len() == old(items)@.len(),
{
    broadcast use vstd::seq_lib::group_to_multiset_ensures;

    let ghost orig = items@;
    let mut sorted: Vec<FeedItem> = Vec::new();
    proof {
        assert(sorted@.to_multiset().add(items@.to_multiset()) =~= orig.to_multiset());
    }
    while items.len() > 0
        invariant
            sorted_by_recency(sorted@),
            sorted@.to_multiset().add(items@.to_multiset()) == orig.to_multiset(),
        decreases items@.len(),
    {
        let ghost pre = items@;
        let x = items.pop().unwrap();
        proof {
            broadcast use vstd::seq_lib::group_to_multiset_ensures;

            assert(pre[pre.len() - 1] == x);
            assert(items@ =~= pre.remove(pre.len() - 1));
            assert(pre.remove(pre.len() - 1).to_multiset() == pre.to_multiset().remove(x));
            assert(pre.contains(x));
            assert(pre.to_multiset().count(x) > 0);
        }
        insert_by_recency(&mut sorted, x);
        proof {
            assert(sorted@.to_multiset().add(items@.to_multiset()) =~= orig.to_multiset());
        }
    }
    *items = sorted;
    proof {
        assert(items@.to_multiset() =~= orig.to_multiset());
        vstd::seq_lib::to_multiset_len(items@);
        vstd::seq_lib::to_multiset_len(orig);
    }
}

} // verus!
