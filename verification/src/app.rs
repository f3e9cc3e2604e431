//! Application state: the de-duplicated, reverse-chronological merge store
//! and the cursor navigation over it.

use vstd::prelude::*;
use vstd::string::StringExecFns;

use crate::item::FeedItem;
use crate::item::insert_by_recency;
use crate::item::item_ids;
use crate::item::sorted_by_recency;
use crate::item::unique_ids;
use crate::poll::PollMsg;
use crate::text::decimal_of;
use crate::text::usize_to_decimal;

verus! {

/// Some entry of `seen` reads as `id`.
pub open spec fn seen_contains(seen: Seq<String>, id: Seq<char>) -> bool {
    exists|j: int| 0 <= j < seen.len() && #[trigger] seen[j]@ == id
}

/// The set of ids recorded in `seen`.
pub open spec fn seen_ids(seen: Seq<String>) -> Set<Seq<char>> {
    Set::new(|id: Seq<char>| seen_contains(seen, id))
}

/// The items of `batch` that a merge adds when `seen` is the set of ids
/// already stored: in batch order, keeping only the first item of each id
/// not yet seen.
pub open spec fn additions(seen: Set<Seq<char>>, batch: Seq<FeedItem>) -> Seq<FeedItem>
    decreases batch.len(),
{
    if batch.len() == 0 {
        Seq::empty()
    } else if seen.contains(batch[0].id@) {
        additions(seen, batch.drop_first())
    } else {
        seq![batch[0]] + additions(seen.insert(batch[0].id@), batch.drop_first())
    }
}

/// The set of stored ids after merging `batch` into a store whose ids are `seen`.
pub open spec fn seen_after(seen: Set<Seq<char>>, batch: Seq<FeedItem>) -> Set<Seq<char>>
    decreases batch.len(),
{
    if batch.len() == 0 {
        seen
    } else if seen.contains(batch[0].id@) {
        seen_after(seen, batch.drop_first())
    } else {
        seen_after(seen.insert(batch[0].id@), batch.drop_first())
    }
}

/// How `additions` and `seen_after` grow when one item is appended to the batch.
pub proof fn lemma_additions_push(seen: Set<Seq<char>>, batch: Seq<FeedItem>, x: FeedItem)
    ensures
        additions(seen, batch.push(x)) == if seen_after(seen, batch).contains(x.id@) {
            additions(seen, batch)
        } else {
            additions(seen, batch).push(x)
        },
        seen_after(seen, batch.push(x)) == if seen_after(seen, batch).contains(x.id@) {
            seen_after(seen, batch)
        } else {
            seen_after(seen, batch).insert(x.id@)
        },
    decreases batch.len(),
{
    if batch.len() == 0 {
        assert(batch.push(x)[0] == x);
        assert(batch.push(x).drop_first() =~= batch);
        assert(additions(seen, batch) =~= Seq::<FeedItem>::empty());
        assert(seen_after(seen, batch) == seen);
        if seen.contains(x.id@) {
            assert(additions(seen, batch.push(x)) =~= additions(seen, batch));
            assert(seen_after(seen, batch.push(x)) == seen);
        } else {
            assert(additions(seen.insert(x.id@), batch) =~= Seq::<FeedItem>::empty());
            assert(seen_after(seen.insert(x.id@), batch) == seen.insert(x.id@));
            assert(additions(seen, batch.push(x)) =~= seq![x]);
            assert(additions(seen, batch).push(x) =~= seq![x]);
            assert(seen_after(seen, batch.push(x)) == seen.insert(x.id@));
        }
    } else {
        let seen1 = if seen.contains(batch[0].id@) {
            seen
        } else {
            seen.insert(batch[0].id@)
        };
        lemma_additions_push(seen1, batch.drop_first(), x);
        assert(batch.push(x)[0] == batch[0]);
        assert(batch.push(x).drop_first() =~= batch.drop_first().push(x));
        if !seen.contains(batch[0].id@) && !seen_after(seen, batch).contains(x.id@) {
            assert(seq![batch[0]] + additions(seen1, batch.drop_first()).push(x) =~= (seq![
                batch[0],
            ] + additions(seen1, batch.drop_first())).push(x));
        }
    }
}

/// Inserting an item adds exactly its id to the id set of a sequence.
pub proof fn lemma_item_ids_insert(s: Seq<FeedItem>, p: int, it: FeedItem)
    requires
        0 <= p <= s.len(),
    ensures
        item_ids(s.insert(p, it)) =~= item_ids(s).insert(it.id@),
{
    let t = s.insert(p, it);
    assert forall|id: Seq<char>| item_ids(t).contains(id) implies item_ids(s).insert(
        it.id@,
    ).contains(id) by {
        let k = choose|k: int| 0 <= k < t.len() && t[k].id@ == id;
        if k < p {
            assert(s[k].id@ == id);
        } else if k > p {
            assert(s[k - 1].id@ == id);
        }
    }
    assert forall|id: Seq<char>| item_ids(s).insert(it.id@).contains(id) implies item_ids(
        t,
    ).contains(id) by {
        if id == it.id@ {
            assert(t[p].id@ == id);
        } else {
            let k = choose|k: int| 0 <= k < s.len() && s[k].id@ == id;
            if k < p {
                assert(t[k].id@ == id);
            } else {
                assert(t[k + 1].id@ == id);
            }
        }
    }
}

/// Inserting an item with a fresh id preserves uniqueness of ids.
pub proof fn lemma_unique_insert(s: Seq<FeedItem>, p: int, it: FeedItem)
    requires
        0 <= p <= s.len(),
        unique_ids(s),
        !item_ids(s).contains(it.id@),
    ensures
        unique_ids(s.insert(p, it)),
{
    let t = s.insert(p, it);
    assert forall|j: int, k: int| 0 <= j < k < t.len() implies #[trigger] t[j].id@
        != #[trigger] t[k].id@ by {
        if j == p {
            let m = if k > p {
                k - 1
            } else {
                k
            };
            assert(t[k] == s[m]);
            if s[m].id@ == it.id@ {
                assert(item_ids(s).contains(it.id@));
            }
        } else if k == p {
            let m = if j > p {
                j - 1
            } else {
                j
            };
            assert(t[j] == s[m]);
            if s[m].id@ == it.id@ {
                assert(item_ids(s).contains(it.id@));
            }
        } else {
            let mj = if j > p {
                j - 1
            } else {
                j
            };
            let mk = if k > p {
                k - 1
            } else {
                k
            };
            assert(t[j] == s[mj]);
            assert(t[k] == s[mk]);
        }
    }
}

/// Application state owned by the event loop: the merged item list, the id
/// set used for de-duplication, the cursor, the quit flag, and the most
/// recent status line.
pub struct App {
    /// De-duplicated, reverse-chronological items.
    pub items: Vec<FeedItem>,
    /// Ids of all stored items, used to reject duplicates.
    pub seen: Vec<String>,
    /// Cursor over `items`: an index, or nothing selected yet.
    pub selected: Option<usize>,
    /// Whether the user has requested to quit.
    pub quit: bool,
    /// Last poll status message.
    pub status: String,
}

impl App {
    /// Well-formedness: items sorted newest first with pairwise distinct ids,
    /// `seen` records exactly the stored ids, and the cursor is in bounds.
    pub open spec fn wf(&self) -> bool {
        &&& sorted_by_recency(self.items@)
        &&& unique_ids(self.items@)
        &&& forall|j: int|
            0 <= j < self.seen@.len() ==> item_ids(self.items@).contains(#[trigger] self.seen@[j]@)
        &&& forall|k: int|
            0 <= k < self.items@.len() ==> seen_contains(self.seen@, #[trigger] self.items@[k].id@)
        &&& match self.selected {
            Option::Some(i) => i < self.items@.len(),
            Option::None => true,
        }
    }

    /// The current cursor position.
    pub fn selected(&self) -> (r: Option<usize>)
        ensures
            r == self.selected,
    {
        self.selected
    }

    /// A fresh, empty store with nothing selected.
    pub fn new() -> (app: Self)
        ensures
            app.wf(),
            app.items@.len() == 0,
            app.seen@.len() == 0,
            app.selected is None,
            !app.quit,
            app.status@ == "Starting…"@,
    {
        App {
            items: Vec::new(),
            seen: Vec::new(),
            selected: None,
            quit: false,
            status: "Starting…".to_owned(),
        }
    }

    /// Merge newly-fetched items: drop every item whose id is already stored
    /// (first write wins, also within the batch), insert the rest, and keep
    /// the list sorted newest first.
    pub fn merge_items(&mut self, new_items: Vec<FeedItem>)
        requires
            old(self).wf(),
        ensures
            final(self).wf(),
            final(self).items@.to_multiset() == (old(self).items@ + additions(
                item_ids(old(self).items@),
                new_items@,
            )).to_multiset(),
            final(self).items@.len() == old(self).items@.len() + additions(
                item_ids(old(self).items@),
                new_items@,
            ).len(),
            item_ids(final(self).items@) == seen_after(item_ids(old(self).items@), new_items@),
            forall|it: FeedItem|
                old(self).items@.contains(it) ==> #[trigger] final(self).items@.contains(it),
            new_items@.len() == 0 ==> final(self).items@ == old(self).items@,
            final(self).selected == old(self).selected,
            final(self).quit == old(self).quit,
            final(self).status == old(self).status,
    {
        broadcast use vstd::seq_lib::group_to_multiset_ensures;

        let ghost old_items = old(self).items@;
        let ghost old_ids = item_ids(old(self).items@);
        let ghost full = new_items@;
        let mut batch = new_items;
        let ghost mut k: int = 0;
        proof {
            assert(full.take(0) =~= Seq::<FeedItem>::empty());
            assert(old_items + additions(old_ids, full.take(0)) =~= old_items);
            assert(batch@ =~= full.subrange(0, full.len() as int));
            assert(item_ids(self.items@) =~= seen_after(old_ids, full.take(0)));
        }
        while batch.len() > 0
            invariant
                sorted_by_recency(self.items@),
                unique_ids(self.items@),
                forall|j: int|
                    0 <= j < self.seen@.len() ==> item_ids(self.items@).contains(
                        #[trigger] self.seen@[j]@,
                    ),
                forall|m: int|
                    0 <= m < self.items@.len() ==> seen_contains(
                        self.seen@,
                        #[trigger] self.items@[m].id@,
                    ),
                0 <= k <= full.len(),
                batch@ == full.subrange(k, full.len() as int),
                self.items@.to_multiset() == (old_items + additions(
                    old_ids,
                    full.take(k),
                )).to_multiset(),
                item_ids(self.items@) == seen_after(old_ids, full.take(k)),
                self.items@.len() >= old_items.len(),
                full.len() == 0 ==> self.items@ == old_items,
                self.selected == old(self).selected,
                self.quit == old(self).quit,
                self.status == old(self).status,
                match self.selected {
                    Option::Some(i) => i < old_items.len(),
                    Option::None => true,
                },
            decreases batch@.len(),
        {
            broadcast use vstd::seq_lib::group_to_multiset_ensures;

            let ghost pre_items = self.items@;
            let ghost batch_pre = batch@;
            let item = batch.remove(0);
            proof {
                assert(batch_pre[0] == full[k]);
                assert(item == full[k]);
                assert(batch@ =~= batch_pre.remove(0));
                assert(batch@ =~= full.subrange(k + 1, full.len() as int));
                assert(full.take(k + 1) =~= full.take(k).push(item));
                lemma_additions_push(old_ids, full.take(k), item);
            }
            let dup = contains_id(&self.seen, &item.id);
            if !dup {
                proof {
                    if item_ids(self.items@).contains(item.id@) {
                        let w = choose|w: int|
                            0 <= w < self.items@.len() && self.items@[w].id@ == item.id@;
                        assert(seen_contains(self.seen@, self.items@[w].id@));
                    }
                }
                let ghost pre_seen = self.seen@;
                let id = item.id.clone();
                self.seen.push(id);
                insert_by_recency(&mut self.items, item);
                proof {
                    let p = choose|p: int|
                        0 <= p <= pre_items.len() && self.items@ == #[trigger] pre_items.insert(
                            p,
                            item,
                        );
                    lemma_item_ids_insert(pre_items, p, item);
                    lemma_unique_insert(pre_items, p, item);
                    let adds = additions(old_ids, full.take(k));
                    assert(old_items + adds.push(item) =~= (old_items + adds).push(item));
                    assert(pre_items.insert(p, item).to_multiset() == pre_items.to_multiset()
                        .insert(item));
                    assert((old_items + adds).push(item).to_multiset() == (old_items
                        + adds).to_multiset().insert(item));
                    assert(self.items@.to_multiset() == (old_items + additions(
                        old_ids,
                        full.take(k + 1),
                    )).to_multiset());
                    assert(item_ids(self.items@) =~= seen_after(old_ids, full.take(k + 1)));
                    assert(self.seen@ == pre_seen.push(id));
                    assert(forall|j: int|
                        0 <= j < pre_seen.len() ==> #[trigger] self.seen@[j]@ == pre_seen[j]@);
                    assert forall|m: int| 0 <= m < self.items@.len() implies seen_contains(
                        self.seen@,
                        #[trigger] self.items@[m].id@,
                    ) by {
                        if m < p {
                            assert(self.items@[m] == pre_items[m]);
                        } else if m > p {
                            assert(self.items@[m] == pre_items[m - 1]);
                        }
                        if self.items@[m].id@ != item.id@ {
                            let w = choose|w: int|
                                0 <= w < pre_seen.len() && #[trigger] pre_seen[w]@
                                    == self.items@[m].id@;
                            assert(self.seen@[w]@ == self.items@[m].id@);
                        } else {
                            assert(self.seen@[self.seen@.len() - 1]@ == self.items@[m].id@);
                        }
                    }
                }
            } else {
                proof {
                    let w = choose|w: int|
                        0 <= w < self.seen@.len() && #[trigger] self.seen@[w]@ == item.id@;
                    assert(item_ids(self.items@).contains(item.id@));
                    assert(self.items@.to_multiset() == (old_items + additions(
                        old_ids,
                        full.take(k + 1),
                    )).to_multiset());
                }
            }
            proof {
                k = k + 1;
            }
        }
        proof {
            assert(full.take(full.len() as int) =~= full);
            assert(self.items@.to_multiset() == (old_items + additions(old_ids, full)).to_multiset());
            vstd::seq_lib::to_multiset_len(self.items@);
            vstd::seq_lib::to_multiset_len(old_items + additions(old_ids, full));
            vstd::seq_lib::lemma_multiset_commutative(
                old_items,
                additions(old_ids, full),
            );
            assert forall|it: FeedItem| old_items.contains(it) implies #[trigger] self.items@.contains(it) by {
                assert(old_items.to_multiset().count(it) > 0);
                assert(self.items@.to_multiset().count(it) == old_items.to_multiset().count(it)
                    + additions(old_ids, full).to_multiset().count(it));
                assert(self.items@.to_multiset().count(it) > 0);
            }
            if full.len() == 0 {
                assert(self.items@ =~= old_items);
            }
        }
    }
}

/// The cursor after a `Next` command over a list of `len` items.
pub open spec fn next_selection(sel: Option<usize>, len: int) -> Option<usize> {
    if len == 0 {
        sel
    } else {
        match sel {
            Option::None => Option::Some(0usize),
            Option::Some(i) => Option::Some(
                if i + 1 < len {
                    (i + 1) as usize
                } else {
                    (len - 1) as usize
                },
            ),
        }
    }
}

/// The cursor after a `Previous` command over a list of `len` items.
pub open spec fn prev_selection(sel: Option<usize>, len: int) -> Option<usize> {
    if len == 0 {
        sel
    } else {
        match sel {
            Option::None => Option::Some(0usize),
            Option::Some(i) => Option::Some(
                if i == 0 {
                    0usize
                } else {
                    (i - 1) as usize
                },
            ),
        }
    }
}

/// An abstract navigation command, decoded from input events outside the core.
pub enum NavCommand {
    Next,
    Previous,
    First,
    Last,
    Quit,
}

impl App {
    /// Move the cursor one item down (older), clamping at the last index;
    /// a no-op on an empty list.
    pub fn select_next(&mut self)
        requires
            old(self).wf(),
        ensures
            final(self).wf(),
            final(self).items == old(self).items,
            final(self).seen == old(self).seen,
            final(self).quit == old(self).quit,
            final(self).status == old(self).status,
            final(self).selected == next_selection(
                old(self).selected,
                old(self).items@.len() as int,
            ),
    {
        if self.items.len() == 0 {
            return ;
        }
        let last = self.items.len() - 1;
        let i = match self.selected {
            Option::Some(i) => if i < last {
                i + 1
            } else {
                last
            },
            Option::None => 0,
        };
        self.selected = Some(i);
    }

    /// Move the cursor one item up (newer), clamping at index zero;
    /// a no-op on an empty list.
    pub fn select_previous(&mut self)
        requires
            old(self).wf(),
        ensures
            final(self).wf(),
            final(self).items == old(self).items,
            final(self).seen == old(self).seen,
            final(self).quit == old(self).quit,
            final(self).status == old(self).status,
            final(self).selected == prev_selection(
                old(self).selected,
                old(self).items@.len() as int,
            ),
    {
        if self.items.len() == 0 {
            return ;
        }
        let i = match self.selected {
            Option::Some(i) => if i > 0 {
                i - 1
            } else {
                0
            },
            Option::None => 0,
        };
        self.selected = Some(i);
    }

    /// Jump to the newest item; a no-op on an empty list.
    pub fn select_first(&mut self)
        requires
            old(self).wf(),
        ensures
            final(self).wf(),
            final(self).items == old(self).items,
            final(self).seen == old(self).seen,
            final(self).quit == old(self).quit,
            final(self).status == old(self).status,
            old(self).items@.len() == 0 ==> final(self).selected == old(self).selected,
            old(self).items@.len() > 0 ==> final(self).selected == Some(0usize),
    {
        if self.items.len() > 0 {
            self.selected = Some(0);
        }
    }

    /// Jump to the oldest item; a no-op on an empty list.
    pub fn select_last(&mut self)
        requires
            old(self).wf(),
        ensures
            final(self).wf(),
            final(self).items == old(self).items,
            final(self).seen == old(self).seen,
            final(self).quit == old(self).quit,
            final(self).status == old(self).status,
            old(self).items@.len() == 0 ==> final(self).selected == old(self).selected,
            old(self).items@.len() > 0 ==> final(self).selected == Some(
                (old(self).items@.len() - 1) as usize,
            ),
    {
        if self.items.len() > 0 {
            self.selected = Some(self.items.len() - 1);
        }
    }

    /// Apply one abstract navigation command to the state.
    pub fn apply_command(&mut self, cmd: NavCommand)
        requires
            old(self).wf(),
        ensures
            final(self).wf(),
            final(self).items == old(self).items,
            final(self).seen == old(self).seen,
            final(self).status == old(self).status,
            match cmd {
                NavCommand::Next => final(self).quit == old(self).quit && final(self).selected
                    == next_selection(old(self).selected, old(self).items@.len() as int),
                NavCommand::Previous => final(self).quit == old(self).quit && final(self).selected
                    == prev_selection(old(self).selected, old(self).items@.len() as int),
                NavCommand::First => final(self).quit == old(self).quit && final(self).selected == (
                if old(self).items@.len() > 0 {
                    Some(0usize)
                } else {
                    old(self).selected
                }),
                NavCommand::Last => final(self).quit == old(self).quit && final(self).selected == (
                if old(self).items@.len() > 0 {
                    Some((old(self).items@.len() - 1) as usize)
                } else {
                    old(self).selected
                }),
                NavCommand::Quit => final(self).quit && final(self).selected == old(self).selected,
            },
    {
        match cmd {
            NavCommand::Next => self.select_next(),
            NavCommand::Previous => self.select_previous(),
            NavCommand::First => self.select_first(),
            NavCommand::Last => self.select_last(),
            NavCommand::Quit => {
                self.quit = true;
            },
        }
    }
}

impl App {
    /// Apply one channel message from the poller: merge a successful batch
    /// and record "Fetched N items"; on a fetch failure record
    /// "Error: <detail>" and leave the stored items untouched.
    pub fn apply_poll_msg(&mut self, msg: PollMsg)
        requires
            old(self).wf(),
        ensures
            final(self).wf(),
            final(self).selected == old(self).selected,
            final(self).quit == old(self).quit,
            match msg {
                PollMsg::Items(items) => {
                    &&& final(self).items@.to_multiset() == (old(self).items@ + additions(
                        item_ids(old(self).items@),
                        items@,
                    )).to_multiset()
                    &&& item_ids(final(self).items@) == seen_after(
                        item_ids(old(self).items@),
                        items@,
                    )
                    &&& forall|it: FeedItem|
                        old(self).items@.contains(it)
                            ==> #[trigger] final(self).items@.contains(it)
                    &&& final(self).status@ == "Fetched "@ + decimal_of(items@.len()) + " items"@
                },
                PollMsg::Error(e) => {
                    &&& final(self).items@ == old(self).items@
                    &&& final(self).seen@ == old(self).seen@
                    &&& final(self).status@ == "Error: "@ + e@
                },
            },
    {
        match msg {
            PollMsg::Items(items) => {
                let count = items.len();
                self.merge_items(items);
                let mut s = "Fetched ".to_owned();
                let digits = usize_to_decimal(count);
                s.append(digits.as_str());
                s.append(" items");
                self.status = s;
            },
            PollMsg::Error(e) => {
                let mut s = "Error: ".to_owned();
                s.append(e.as_str());
                self.status = s;
            },
        }
    }
}

/// The recorded id set of a well-formed store is exactly the set of ids of
/// its stored items, which are pairwise distinct.
pub proof fn lemma_seen_ids_exact(app: &App)
    requires
        app.wf(),
    ensures
        seen_ids(app.seen@) == item_ids(app.items@),
        unique_ids(app.items@),
{
    assert(seen_ids(app.seen@) =~= item_ids(app.items@)) by {
        assert forall|id: Seq<char>| seen_ids(app.seen@).contains(id) implies item_ids(
            app.items@,
        ).contains(id) by {
            let j = choose|j: int| 0 <= j < app.seen@.len() && #[trigger] app.seen@[j]@ == id;
            assert(item_ids(app.items@).contains(app.seen@[j]@));
        }
        assert forall|id: Seq<char>| item_ids(app.items@).contains(id) implies seen_ids(
            app.seen@,
        ).contains(id) by {
            let k = choose|k: int| 0 <= k < app.items@.len() && app.items@[k].id@ == id;
            assert(seen_contains(app.seen@, app.items@[k].id@));
        }
    }
}

/// First write wins: an item already stored before a merge is still stored
/// afterwards, and it is the only stored item bearing its id, so a later
/// batch entry with the same id overwrites none of its fields.
pub proof fn lemma_first_write_wins(
    pre: Seq<FeedItem>,
    post: Seq<FeedItem>,
    batch: Seq<FeedItem>,
    it: FeedItem,
)
    requires
        pre.contains(it),
        unique_ids(post),
        post.to_multiset() == (pre + additions(item_ids(pre), batch)).to_multiset(),
    ensures
        post.contains(it),
        forall|m: int| 0 <= m < post.len() && #[trigger] post[m].id@ == it.id@ ==> post[m] == it,
{
    broadcast use vstd::seq_lib::group_to_multiset_ensures;

    vstd::seq_lib::lemma_multiset_commutative(pre, additions(item_ids(pre), batch));
    assert(pre.to_multiset().count(it) > 0);
    assert(post.to_multiset().count(it) > 0);
    let n = choose|n: int| 0 <= n < post.len() && post[n] == it;
    assert forall|m: int| 0 <= m < post.len() && #[trigger] post[m].id@ == it.id@ implies post[m]
        == it by {
        if m != n {
            assert(post[m].id@ != post[n].id@);
        }
    }
}

/// Linear membership test over the recorded ids.
fn contains_id(seen: &Vec<String>, id: &String) -> (r: bool)
    ensures
        r == seen_contains(seen@, id@),
{
    let mut j: usize = 0;
    while j < seen.len()
        invariant
            j <= seen@.len(),
            forall|m: int| 0 <= m < j ==> #[trigger] seen@[m]@ != id@,
        decreases seen@.len() - j,
    {
        if seen[j] == *id {
            return true;
        }
        j += 1;
    }
    false
}

} // verus!
