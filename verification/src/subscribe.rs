//! Following feeds: what is sent to a chat for a fetched feed, and when the
//! cursor of a subscription moves.

use vstd::prelude::*;
use crate::db::{is_listing, SubKey, SubscribeInfo};
use crate::text::{join, join_lines, same_text, split_words, texts, words};
use crate::feed::{
    all_linked, delivery_order, delta, lemma_linked_count, lemma_linked_count_is_first,
    lemma_unseen_count, lemma_unseen_count_is_first, messages_for, new_entries, FeedEntry,
};

verus! {

/// Seconds between two rounds of looking at every feed.
pub const POLL_INTERVAL_SECS: u64 = 600;

/// Why a subscription could not be served.
#[derive(Clone, Copy, Debug, PartialEq, Eq, Structural)]
pub enum SubscribeError {
    /// The feed could not be fetched or read.
    FeedUnavailable,
    /// An entry that is due has no link to send.
    NoLinks,
    /// A message could not be sent to the chat.
    Delivery,
}

impl SubscribeError {
    /// The error in words, where the bot has words of its own for it: a
    /// failed delivery is described by whatever failed.
    pub fn describe(&self) -> (r: Option<&'static str>)
        ensures
            match *self {
                SubscribeError::FeedUnavailable => r matches Some(text) && text@
                    == "Unable to access this feed"@,
                SubscribeError::NoLinks => r matches Some(text) && text@ == "No links found"@,
                SubscribeError::Delivery => r is None,
            },
    {
        match self {
            SubscribeError::FeedUnavailable => Some("Unable to access this feed"),
            SubscribeError::NoLinks => Some("No links found"),
            SubscribeError::Delivery => None,
        }
    }
}

/// What an attempt to fetch and read a feed comes to: the entries as they
/// were read, newest first as the feed lists them, or, where the attempt
/// failed for whatever reason, that the feed is unavailable.
pub fn parsed_feed<E>(parsed: Result<Vec<FeedEntry>, E>) -> (r: Result<Vec<FeedEntry>, SubscribeError>)
    ensures
        match parsed {
            Ok(entries) => r == Ok::<Vec<FeedEntry>, SubscribeError>(entries),
            Err(_) => r == Err::<Vec<FeedEntry>, SubscribeError>(SubscribeError::FeedUnavailable),
        },
{
    match parsed {
        Ok(entries) => Ok(entries),
        Err(_) => Err(SubscribeError::FeedUnavailable),
    }
}

/// What a chat asks for with the subscription command.
#[derive(Debug)]
pub enum SubCommand {
    /// Follow the feed at this address.
    Add(String),
    /// Name the feeds that the chat follows.
    List,
    /// Stop following the feed at this address.
    Remove(String),
    /// Anything else: the chat is told how the command is used.
    Usage,
}

/// Whether `command` is what the words `w` ask for.
pub open spec fn is_command(command: SubCommand, w: Seq<Seq<char>>) -> bool {
    match command {
        SubCommand::Add(url) => w.len() == 2 && w[0] == "add"@ && w[1] == url@,
        SubCommand::List => w.len() == 1 && w[0] == "list"@,
        SubCommand::Remove(url) => w.len() == 2 && w[0] == "remove"@ && w[1] == url@,
        SubCommand::Usage => !(w.len() == 2 && (w[0] == "add"@ || w[0] == "remove"@)) && !(w.len()
            == 1 && w[0] == "list"@),
    }
}

/// Reads the text after the subscription command: `add` and an address,
/// `list`, or `remove` and an address, with any white space around the
/// words.
pub fn parse_sub_command(params: &str) -> (r: SubCommand)
    ensures
        is_command(r, words(params@)),
{
    let mut w = split_words(params);
    assert(texts(w@).len() == w.len());
    if w.len() == 1 {
        assert(texts(w@)[0] == w[0]@);
        if same_text(w[0].as_str(), "list") {
            return SubCommand::List;
        }
    } else if w.len() == 2 {
        assert(texts(w@)[0] == w[0]@);
        assert(texts(w@)[1] == w[1]@);
        if same_text(w[0].as_str(), "add") {
            let url = w.remove(1);
            return SubCommand::Add(url);
        }
        if same_text(w[0].as_str(), "remove") {
            let url = w.remove(1);
            return SubCommand::Remove(url);
        }
    }
    SubCommand::Usage
}

/// What the chat is told, and whether the store has to be written out.
#[derive(Debug)]
pub struct Reply {
    pub text: String,
    pub changed: bool,
}

/// Whether a command ended as it has to, given whether the feed to add
/// could be fetched and read (`feed_ok`): `before` and `after` are the store before and
/// after it, `r` is what it returned.
pub open spec fn command_outcome(
    command: SubCommand,
    chat_id: i64,
    feed_ok: bool,
    before: Map<SubKey, Seq<char>>,
    after: Map<SubKey, Seq<char>>,
    r: Result<Reply, SubscribeError>,
) -> bool {
    match command {
        SubCommand::Add(url) => if feed_ok {
            &&& r matches Ok(reply)
            &&& reply.text@ == "OK"@
            &&& reply.changed
            &&& after == before.insert((chat_id, url@), Seq::<char>::empty())
        } else {
            &&& r matches Err(e)
            &&& e == SubscribeError::FeedUnavailable
            &&& after == before
        },
        SubCommand::List => {
            &&& r matches Ok(reply)
            &&& !reply.changed
            &&& after == before
            &&& exists|urls: Seq<Seq<char>>| #[trigger]
                is_listing(before, chat_id, urls) && reply.text@ == "List of your subs: \n"@
                    + join_lines(urls)
        },
        SubCommand::Remove(url) => {
            &&& r matches Ok(reply)
            &&& reply.text@ == "OK"@
            &&& reply.changed
            &&& after == before.remove((chat_id, url@))
        },
        SubCommand::Usage => {
            &&& r matches Ok(reply)
            &&& reply.text@ == "Usage: add <url> | list | remove <url>"@
            &&& !reply.changed
            &&& after == before
        },
    }
}

/// Carries out `command` for `chat_id`. A feed is added only where it
/// could be fetched and read (`feed_ok`), and then with nothing delivered
/// yet; for the other commands `feed_ok` plays no part.
pub fn subscribe_command(
    command: &SubCommand,
    chat_id: i64,
    feed_ok: bool,
    store: &mut SubscribeInfo,
) -> (r: Result<Reply, SubscribeError>)
    ensures
        command_outcome(*command, chat_id, feed_ok, old(store)@, final(store)@, r),
{
    match command {
        SubCommand::Add(url) => {
            if !feed_ok {
                return Err(SubscribeError::FeedUnavailable);
            }
            store.add(chat_id, url.as_str());
            Ok(Reply { text: "OK".to_owned(), changed: true })
        },
        SubCommand::List => {
            let urls = store.list(chat_id);
            let mut text = "List of your subs: \n".to_owned();
            let lines = join(&urls);
            text.append(lines.as_str());
            Ok(Reply { text, changed: false })
        },
        SubCommand::Remove(url) => {
            store.remove(chat_id, url.as_str());
            Ok(Reply { text: "OK".to_owned(), changed: true })
        },
        SubCommand::Usage => Ok(
            Reply { text: "Usage: add <url> | list | remove <url>".to_owned(), changed: false },
        ),
    }
}

/// What is sent to a chat for the new entries of one feed, and where the
/// cursor stands afterwards.
#[derive(Debug)]
pub struct DeliveryPlan {
    /// The messages, in the order in which they are sent.
    pub messages: Vec<String>,
    /// Whether the messages cover every new entry.
    pub complete: bool,
    /// The identifier of the newest new entry.
    pub next_last_entry: String,
}

/// The new entries of `entries` since `last_entry`, as messages from the
/// oldest to the newest. Nothing is planned where nothing is new. An entry
/// without a link ends the messages, and the plan is then not complete.
pub fn plan_delivery(entries: Vec<FeedEntry>, last_entry: &str) -> (r: Option<DeliveryPlan>)
    ensures
        r is None <==> delta(entries@, last_entry@).len() == 0,
        r matches Some(plan) ==> {
            let order = delivery_order(delta(entries@, last_entry@));
            &&& texts(plan.messages@) == messages_for(order)
            &&& plan.complete == all_linked(order)
            &&& plan.next_last_entry@ == delta(entries@, last_entry@)[0].id@
        },
{
    let fresh = new_entries(entries, last_entry);
    if fresh.len() == 0 {
        return None;
    }
    let ghost order = delivery_order(fresh@);
    let next_last_entry = fresh[0].id.clone();
    let mut messages: Vec<String> = Vec::new();
    let mut complete = true;
    let mut i: usize = fresh.len();
    while i > 0 && complete
        invariant
            order == fresh@.reverse(),
            fresh.len() > 0,
            i <= fresh.len(),
            complete ==> messages.len() == fresh.len() - i,
            !complete ==> messages.len() < fresh.len() && !order[messages.len() as int].has_link(),
            forall|j: int| 0 <= j < messages.len() ==> (#[trigger] order[j]).has_link(),
            forall|j: int| 0 <= j < messages.len() ==> (#[trigger] messages[j])@ == order[j].link(),
        decreases i + (if complete { 1nat } else { 0nat }),
    {
        let entry = &fresh[i - 1];
        assert(order[messages.len() as int] == fresh[i - 1]);
        if entry.links.len() == 0 {
            complete = false;
        } else {
            messages.push(entry.links[0].clone());
            i -= 1;
        }
    }
    proof {
        lemma_linked_count(order, messages.len() as int);
        assert(texts(messages@) =~= messages_for(order));
    }
    Some(DeliveryPlan { messages, complete, next_last_entry })
}

/// The store after a delivery that was planned with `next` as the newest
/// identifier: the cursor of `k` moves to `next` where every new entry had a
/// message (`complete`) and all `planned` messages were sent, and `k` is
/// still subscribed. In every other case the store is as before.
pub open spec fn finished(
    m: Map<SubKey, Seq<char>>,
    k: SubKey,
    next: Seq<char>,
    complete: bool,
    planned: nat,
    delivered: nat,
) -> Map<SubKey, Seq<char>> {
    if complete && delivered >= planned && m.dom().contains(k) {
        m.insert(k, next)
    } else {
        m
    }
}

/// Settles a delivery of which `delivered` messages were sent before the
/// first failure. The cursor moves only after every message of a complete
/// plan was sent.
pub fn finish_delivery(
    store: &mut SubscribeInfo,
    chat_id: i64,
    url: &str,
    plan: DeliveryPlan,
    delivered: usize,
) -> (r: Result<(), SubscribeError>)
    ensures
        final(store)@ == finished(
            old(store)@,
            (chat_id, url@),
            plan.next_last_entry@,
            plan.complete,
            plan.messages.len() as nat,
            delivered as nat,
        ),
        r is Ok <==> plan.complete && delivered >= plan.messages.len(),
        r matches Err(e) ==> e == if delivered < plan.messages.len() {
            SubscribeError::Delivery
        } else {
            SubscribeError::NoLinks
        },
{
    if delivered < plan.messages.len() {
        Err(SubscribeError::Delivery)
    } else if !plan.complete {
        Err(SubscribeError::NoLinks)
    } else {
        store.set(chat_id, url, plan.next_last_entry);
        Ok(())
    }
}

/// Where the cursor of a subscription stands after one round in which the
/// feed returned `entries`, newest first, and `delivered` messages were sent
/// before the first failure. It moves to the newest entry where something
/// was new, every new entry had a link and every message was sent.
pub open spec fn cursor_after(cursor: Seq<char>, entries: Seq<FeedEntry>, delivered: nat) -> Seq<
    char,
> {
    let fresh = delta(entries, cursor);
    let order = delivery_order(fresh);
    if fresh.len() > 0 && all_linked(order) && delivered >= messages_for(order).len() {
        fresh[0].id@
    } else {
        cursor
    }
}

/// The store after one round for the subscription `k`. `fetched` is what
/// the feed returned, or `None` where it could not be fetched.
pub open spec fn settled(
    m: Map<SubKey, Seq<char>>,
    k: SubKey,
    fetched: Option<Seq<FeedEntry>>,
    delivered: nat,
) -> Map<SubKey, Seq<char>> {
    match fetched {
        None => m,
        Some(entries) => {
            let fresh = delta(entries, m[k]);
            let order = delivery_order(fresh);
            if m.dom().contains(k) && fresh.len() > 0 {
                finished(
                    m,
                    k,
                    fresh[0].id@,
                    all_linked(order),
                    messages_for(order).len(),
                    delivered,
                )
            } else {
                m
            }
        },
    }
}

/// A round changes the cursor of its own subscription as `cursor_after`
/// says, and no other entry of the store.
pub proof fn lemma_settled_moves_one_cursor(
    m: Map<SubKey, Seq<char>>,
    k: SubKey,
    entries: Seq<FeedEntry>,
    delivered: nat,
)
    requires
        m.dom().contains(k),
    ensures
        settled(m, k, Some(entries), delivered) == m.insert(
            k,
            cursor_after(m[k], entries, delivered),
        ),
{
    assert(m.insert(k, m[k]) =~= m);
}

/// With the cursor on the entry at `n` and on no newer one, the new entries
/// are the `n` entries before it, and they are delivered from the oldest to
/// the newest. Once all of them are delivered the cursor is the identifier
/// of the newest entry.
pub proof fn lemma_delta_up_to_cursor(entries: Seq<FeedEntry>, cursor: Seq<char>, n: int)
    requires
        0 <= n < entries.len(),
        entries[n].id@ == cursor,
        forall|i: int| 0 <= i < n ==> (#[trigger] entries[i]).id@ != cursor,
    ensures
        delta(entries, cursor) == entries.take(n),
        delivery_order(delta(entries, cursor)).len() == n,
        forall|j: int|
            0 <= j < n ==> (#[trigger] delivery_order(delta(entries, cursor))[j]) == entries[n - 1
                - j],
        n > 0 && all_linked(delivery_order(delta(entries, cursor))) ==> cursor_after(
            cursor,
            entries,
            n as nat,
        ) == entries[0].id@,
        n == 0 ==> cursor_after(cursor, entries, 0) == cursor,
{
    lemma_unseen_count(entries, cursor, n);
    lemma_linked_count_is_first(delivery_order(delta(entries, cursor)));
}

/// With the cursor on no entry of the feed, every entry is new; they are
/// delivered from the oldest to the newest, and once all of them are
/// delivered the cursor is the identifier of the newest entry.
pub proof fn lemma_cursor_absent(entries: Seq<FeedEntry>, cursor: Seq<char>)
    requires
        forall|i: int| 0 <= i < entries.len() ==> (#[trigger] entries[i]).id@ != cursor,
    ensures
        delta(entries, cursor) == entries,
        delivery_order(delta(entries, cursor)) == entries.reverse(),
        entries.len() > 0 && all_linked(entries.reverse()) ==> cursor_after(
            cursor,
            entries,
            entries.len(),
        ) == entries[0].id@,
{
    lemma_unseen_count(entries, cursor, entries.len() as int);
    assert(entries.take(entries.len() as int) =~= entries);
    lemma_linked_count_is_first(entries.reverse());
}

/// A subscription that has delivered nothing yet takes every entry of a
/// feed as new, since no entry has an empty identifier.
pub proof fn lemma_fresh_subscription_gets_everything(entries: Seq<FeedEntry>)
    requires
        forall|i: int| 0 <= i < entries.len() ==> (#[trigger] entries[i]).id@.len() > 0,
    ensures
        delta(entries, Seq::<char>::empty()) == entries,
{
    lemma_cursor_absent(entries, Seq::<char>::empty());
}

/// The cursor moves only to the identifier of an entry that was delivered:
/// the last one sent, after every new entry was sent. Where nothing is new
/// it stays.
pub proof fn lemma_cursor_moves_to_delivered(
    cursor: Seq<char>,
    entries: Seq<FeedEntry>,
    delivered: nat,
)
    ensures
        delta(entries, cursor).len() == 0 ==> cursor_after(cursor, entries, delivered) == cursor,
        cursor_after(cursor, entries, delivered) != cursor ==> {
            let order = delivery_order(delta(entries, cursor));
            &&& order.len() > 0
            &&& delivered >= order.len()
            &&& messages_for(order).len() == order.len()
            &&& cursor_after(cursor, entries, delivered) == order.last().id@
        },
{
    let fresh = delta(entries, cursor);
    let order = delivery_order(fresh);
    lemma_linked_count_is_first(order);
    lemma_unseen_count_is_first(entries, cursor);
}

/// A feed that cannot be fetched changes nothing, and what a round does to
/// one subscription does not depend on what another round did to another:
/// the two rounds can be settled in either order.
pub proof fn lemma_failure_is_contained(
    m: Map<SubKey, Seq<char>>,
    a: SubKey,
    fetched_a: Option<Seq<FeedEntry>>,
    delivered_a: nat,
    b: SubKey,
    fetched_b: Option<Seq<FeedEntry>>,
    delivered_b: nat,
)
    requires
        a != b,
    ensures
        settled(m, a, None, delivered_a) == m,
        settled(settled(m, a, None, delivered_a), b, fetched_b, delivered_b) == settled(
            m,
            b,
            fetched_b,
            delivered_b,
        ),
        settled(settled(m, a, fetched_a, delivered_a), b, fetched_b, delivered_b)[b] == settled(
            m,
            b,
            fetched_b,
            delivered_b,
        )[b],
        settled(settled(m, a, fetched_a, delivered_a), b, fetched_b, delivered_b) == settled(
            settled(m, b, fetched_b, delivered_b),
            a,
            fetched_a,
            delivered_a,
        ),
{
    let ma = settled(m, a, fetched_a, delivered_a);
    let mb = settled(m, b, fetched_b, delivered_b);
    assert(ma[b] == m[b]);
    assert(mb[a] == m[a]);
    assert(ma.dom().contains(b) == m.dom().contains(b));
    assert(mb.dom().contains(a) == m.dom().contains(a));
    assert(settled(ma, b, fetched_b, delivered_b) =~= settled(mb, a, fetched_a, delivered_a));
}

} // verus!
