//! What is new in a feed since the last delivery, and the order in which it
//! is delivered.

use vstd::prelude::*;
use crate::text::same_text;

verus! {

/// One item of a feed: its identifier and the addresses it links to.
#[derive(Debug)]
pub struct FeedEntry {
    pub id: String,
    pub links: Vec<String>,
}

impl FeedEntry {
    /// Whether the entry links to anything.
    pub open spec fn has_link(&self) -> bool {
        self.links.len() > 0
    }

    /// The address that is sent to the chat for this entry.
    pub open spec fn link(&self) -> Seq<char> {
        self.links[0]@
    }
}

/// How many entries stand before the first one whose identifier is
/// `cursor`; all of them, where no entry has that identifier.
pub open spec fn unseen_count(entries: Seq<FeedEntry>, cursor: Seq<char>) -> nat
    decreases entries.len(),
{
    if entries.len() == 0 || entries[0].id@ == cursor {
        0
    } else {
        1 + unseen_count(entries.skip(1), cursor)
    }
}

/// The entries of a feed, newest first, that are newer than `cursor`.
pub open spec fn delta(entries: Seq<FeedEntry>, cursor: Seq<char>) -> Seq<FeedEntry> {
    entries.take(unseen_count(entries, cursor) as int)
}

/// The order of delivery: oldest first.
pub open spec fn delivery_order(new_entries: Seq<FeedEntry>) -> Seq<FeedEntry> {
    new_entries.reverse()
}

/// How many entries stand before the first one without a link.
pub open spec fn linked_count(order: Seq<FeedEntry>) -> nat
    decreases order.len(),
{
    if order.len() == 0 || !order[0].has_link() {
        0
    } else {
        1 + linked_count(order.skip(1))
    }
}

/// The addresses that are sent for `order`, one after the other: those of
/// the entries before the first one without a link.
pub open spec fn messages_for(order: Seq<FeedEntry>) -> Seq<Seq<char>> {
    order.take(linked_count(order) as int).map_values(|e: FeedEntry| e.link())
}

/// Whether every entry of `order` has a link.
pub open spec fn all_linked(order: Seq<FeedEntry>) -> bool {
    linked_count(order) == order.len()
}

/// `unseen_count` is the one `n` such that no entry before `n` has the
/// identifier `cursor` and the entry at `n`, if there is one, has it.
pub proof fn lemma_unseen_count(entries: Seq<FeedEntry>, cursor: Seq<char>, n: int)
    requires
        0 <= n <= entries.len(),
        forall|i: int| 0 <= i < n ==> (#[trigger] entries[i]).id@ != cursor,
        n < entries.len() ==> entries[n].id@ == cursor,
    ensures
        unseen_count(entries, cursor) == n,
    decreases n,
{
    if n > 0 {
        let rest = entries.skip(1);
        assert(entries[0].id@ != cursor);
        assert forall|i: int| 0 <= i < n - 1 implies (#[trigger] rest[i]).id@ != cursor by {
            assert(rest[i] == entries[i + 1]);
        }
        lemma_unseen_count(rest, cursor, n - 1);
    }
}

/// What `unseen_count` says of the entries: it is within the feed, nothing
/// before it has the identifier `cursor`, and the entry at it has.
pub proof fn lemma_unseen_count_is_first(entries: Seq<FeedEntry>, cursor: Seq<char>)
    ensures
        unseen_count(entries, cursor) <= entries.len(),
        forall|i: int|
            0 <= i < unseen_count(entries, cursor) ==> (#[trigger] entries[i]).id@ != cursor,
        unseen_count(entries, cursor) < entries.len() ==> entries[unseen_count(
            entries,
            cursor,
        ) as int].id@ == cursor,
    decreases entries.len(),
{
    if entries.len() == 0 || entries[0].id@ == cursor {
    } else {
        let rest = entries.skip(1);
        lemma_unseen_count_is_first(rest, cursor);
        let n = unseen_count(entries, cursor);
        assert forall|i: int| 0 <= i < n implies (#[trigger] entries[i]).id@ != cursor by {
            if i > 0 {
                assert(rest[i - 1] == entries[i]);
            }
        }
        if n < entries.len() {
            assert(rest[n - 1] == entries[n as int]);
        }
    }
}

/// `linked_count` is the one `n` such that every entry before `n` has a
/// link and the entry at `n`, if there is one, has none.
pub proof fn lemma_linked_count(order: Seq<FeedEntry>, n: int)
    requires
        0 <= n <= order.len(),
        forall|i: int| 0 <= i < n ==> (#[trigger] order[i]).has_link(),
        n < order.len() ==> !order[n].has_link(),
    ensures
        linked_count(order) == n,
    decreases n,
{
    if n > 0 {
        let rest = order.skip(1);
        assert(order[0].has_link());
        assert forall|i: int| 0 <= i < n - 1 implies (#[trigger] rest[i]).has_link() by {
            assert(rest[i] == order[i + 1]);
        }
        lemma_linked_count(rest, n - 1);
    }
}

/// `linked_count` never passes the end of `order`, and every entry before
/// it has a link.
pub proof fn lemma_linked_count_is_first(order: Seq<FeedEntry>)
    ensures
        linked_count(order) <= order.len(),
        forall|i: int| 0 <= i < linked_count(order) ==> (#[trigger] order[i]).has_link(),
        linked_count(order) < order.len() ==> !order[linked_count(order) as int].has_link(),
        messages_for(order).len() == linked_count(order),
    decreases order.len(),
{
    if order.len() == 0 || !order[0].has_link() {
    } else {
        let rest = order.skip(1);
        lemma_linked_count_is_first(rest);
        let n = linked_count(order);
        assert forall|i: int| 0 <= i < n implies (#[trigger] order[i]).has_link() by {
            if i > 0 {
                assert(rest[i - 1] == order[i]);
            }
        }
        if n < order.len() {
            assert(rest[n - 1] == order[n as int]);
        }
    }
}

/// The entries of `entries`, newest first, that are newer than
/// `last_entry`: those before the first entry with that identifier, or all
/// of them where no entry has it.
pub fn new_entries(entries: Vec<FeedEntry>, last_entry: &str) -> (r: Vec<FeedEntry>)
    ensures
        r@ == delta(entries@, last_entry@),
{
    let mut entries = entries;
    let ghost all = entries@;
    let mut n: usize = 0;
    while n < entries.len() && !same_text(entries[n].id.as_str(), last_entry)
        invariant
            entries@ == all,
            n <= entries.len(),
            forall|i: int| 0 <= i < n ==> (#[trigger] entries[i]).id@ != last_entry@,
        decreases entries.len() - n,
    {
        n += 1;
    }
    proof {
        lemma_unseen_count(all, last_entry@, n as int);
    }
    entries.truncate(n);
    entries
}

} // verus!
