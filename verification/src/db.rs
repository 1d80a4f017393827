//! The record of which chat follows which feed, and how far each feed has
//! been delivered.

use vstd::prelude::*;
use crate::text::{same_text, texts};

verus! {

/// How far one feed has been delivered.
#[derive(Debug)]
pub enum SubInfo {
    /// A feed, with the identifier of the last entry that was delivered.
    Rss { last_entry: String },
}

impl View for SubInfo {
    type V = Seq<char>;

    /// The identifier of the last entry that was delivered; empty when
    /// nothing was delivered yet.
    open spec fn view(&self) -> Seq<char> {
        match self {
            SubInfo::Rss { last_entry } => last_entry@,
        }
    }
}

impl Clone for SubInfo {
    fn clone(&self) -> (r: Self)
        ensures
            r == *self,
    {
        match self {
            SubInfo::Rss { last_entry } => SubInfo::Rss { last_entry: last_entry.clone() },
        }
    }
}

impl SubInfo {
    /// The state of a subscription that has delivered nothing yet.
    pub fn fresh() -> (r: Self)
        ensures
            r@ == Seq::<char>::empty(),
    {
        SubInfo::Rss { last_entry: String::new() }
    }

    /// The identifier of the last delivered entry.
    pub fn last_entry(&self) -> (r: &String)
        ensures
            r@ == self@,
    {
        match self {
            SubInfo::Rss { last_entry } => last_entry,
        }
    }
}

/// A chat and the address of a feed it follows.
pub type SubKey = (i64, Seq<char>);

/// One feed followed by one chat.
#[derive(Debug)]
pub struct Subscription {
    pub chat_id: i64,
    pub url: String,
    pub info: SubInfo,
}

impl Subscription {
    /// The pair that identifies this subscription.
    pub open spec fn key(&self) -> SubKey {
        (self.chat_id, self.url@)
    }
}

impl Clone for Subscription {
    fn clone(&self) -> (r: Self)
        ensures
            r == *self,
    {
        Subscription { chat_id: self.chat_id, url: self.url.clone(), info: self.info.clone() }
    }
}

/// Whether some record of `s` has the key `k`.
pub open spec fn has_key(s: Seq<Subscription>, k: SubKey) -> bool {
    exists|i: int| 0 <= i < s.len() && (#[trigger] s[i]).key() == k
}

/// No two records of `s` share a key.
pub open spec fn distinct_keys(s: Seq<Subscription>) -> bool {
    forall|i: int, j: int|
        0 <= i < j < s.len() ==> (#[trigger] s[i]).key() != (#[trigger] s[j]).key()
}

/// The place of a record with key `k` in `s`.
pub open spec fn index_of(s: Seq<Subscription>, k: SubKey) -> int {
    choose|i: int| 0 <= i < s.len() && (#[trigger] s[i]).key() == k
}

/// The mapping from subscription to cursor that the records of `s` stand for.
pub open spec fn model_of(s: Seq<Subscription>) -> Map<SubKey, Seq<char>> {
    Map::new(|k: SubKey| has_key(s, k), |k: SubKey| s[index_of(s, k)].info@)
}

/// Among records with distinct keys, the model holds the cursor of each
/// record under its key.
pub proof fn lemma_model_at(s: Seq<Subscription>, i: int)
    requires
        distinct_keys(s),
        0 <= i < s.len(),
    ensures
        model_of(s).dom().contains(s[i].key()),
        model_of(s)[s[i].key()] == s[i].info@,
        index_of(s, s[i].key()) == i,
{
    let k = s[i].key();
    assert(has_key(s, k));
    let j = index_of(s, k);
    assert(0 <= j < s.len() && s[j].key() == k);
    if j < i {
        assert(s[j].key() != s[i].key());
    } else if i < j {
        assert(s[i].key() != s[j].key());
    }
}

/// A record with a new key, put at the end, adds its cursor to the model
/// under that key.
pub proof fn lemma_model_push(s: Seq<Subscription>, x: Subscription)
    requires
        distinct_keys(s),
        !has_key(s, x.key()),
    ensures
        distinct_keys(s.push(x)),
        model_of(s.push(x)) == model_of(s).insert(x.key(), x.info@),
{
    let t = s.push(x);
    assert forall|i: int, j: int| 0 <= i < j < t.len() implies (#[trigger] t[i]).key() != (
    #[trigger] t[j]).key() by {
        if j < s.len() {
            assert(s[i].key() != s[j].key());
        } else {
            assert(s[i].key() == t[i].key());
        }
    }
    let m = model_of(s).insert(x.key(), x.info@);
    assert forall|k: SubKey| model_of(t).dom().contains(k) <==> m.dom().contains(k) by {
        if has_key(t, k) {
            let i = index_of(t, k);
            if i < s.len() {
                assert(s[i].key() == k);
            }
        }
        if has_key(s, k) {
            let i = index_of(s, k);
            assert(t[i].key() == k);
        }
        if k == x.key() {
            assert(t[s.len() as int].key() == k);
        }
    }
    assert forall|k: SubKey| model_of(t).dom().contains(k) implies model_of(t)[k] == m[k] by {
        let i = index_of(t, k);
        lemma_model_at(t, i);
        if i < s.len() {
            lemma_model_at(s, i);
        }
    }
    assert(model_of(t) =~= m);
}

/// A record put in the place of one with the same key replaces the cursor
/// under that key in the model.
pub proof fn lemma_model_update(s: Seq<Subscription>, i: int, x: Subscription)
    requires
        distinct_keys(s),
        0 <= i < s.len(),
        x.key() == s[i].key(),
    ensures
        distinct_keys(s.update(i, x)),
        model_of(s.update(i, x)) == model_of(s).insert(x.key(), x.info@),
{
    let t = s.update(i, x);
    assert forall|a: int, b: int| 0 <= a < b < t.len() implies (#[trigger] t[a]).key() != (
    #[trigger] t[b]).key() by {
        assert(s[a].key() != s[b].key());
    }
    let m = model_of(s).insert(x.key(), x.info@);
    assert forall|k: SubKey| model_of(t).dom().contains(k) <==> m.dom().contains(k) by {
        if has_key(t, k) {
            let j = index_of(t, k);
            assert(s[j].key() == k);
        }
        if has_key(s, k) {
            let j = index_of(s, k);
            assert(t[j].key() == k);
        }
        if k == x.key() {
            assert(t[i].key() == k);
        }
    }
    assert forall|k: SubKey| model_of(t).dom().contains(k) implies model_of(t)[k] == m[k] by {
        let j = index_of(t, k);
        lemma_model_at(t, j);
        lemma_model_at(s, j);
    }
    assert(model_of(t) =~= m);
}

/// Taking a record out takes its key out of the model.
pub proof fn lemma_model_remove(s: Seq<Subscription>, i: int)
    requires
        distinct_keys(s),
        0 <= i < s.len(),
    ensures
        distinct_keys(s.remove(i)),
        model_of(s.remove(i)) == model_of(s).remove(s[i].key()),
{
    let t = s.remove(i);
    assert forall|a: int, b: int| 0 <= a < b < t.len() implies (#[trigger] t[a]).key() != (
    #[trigger] t[b]).key() by {
        let a0 = if a < i { a } else { a + 1 };
        let b0 = if b < i { b } else { b + 1 };
        assert(t[a] == s[a0] && t[b] == s[b0]);
        assert(s[a0].key() != s[b0].key());
    }
    let m = model_of(s).remove(s[i].key());
    assert forall|k: SubKey| model_of(t).dom().contains(k) <==> m.dom().contains(k) by {
        if has_key(t, k) {
            let j = index_of(t, k);
            let j0 = if j < i { j } else { j + 1 };
            assert(t[j] == s[j0]);
            assert(s[j0].key() == k);
            lemma_model_at(s, j0);
            lemma_model_at(s, i);
        }
        if has_key(s, k) && k != s[i].key() {
            let j = index_of(s, k);
            let j1 = if j < i { j } else { j - 1 };
            assert(t[j1] == s[j]);
            assert(t[j1].key() == k);
        }
    }
    assert forall|k: SubKey| model_of(t).dom().contains(k) implies model_of(t)[k] == m[k] by {
        let j = index_of(t, k);
        let j0 = if j < i { j } else { j + 1 };
        assert(t[j] == s[j0]);
        lemma_model_at(t, j);
        lemma_model_at(s, j0);
    }
    assert(model_of(t) =~= m);
}

/// Whether `urls` names each feed that `chat_id` follows in `m`, once, and
/// nothing else.
pub open spec fn is_listing(m: Map<SubKey, Seq<char>>, chat_id: i64, urls: Seq<Seq<char>>) -> bool {
    &&& urls.no_duplicates()
    &&& forall|u: Seq<char>| m.dom().contains((chat_id, u)) <==> urls.contains(u)
}

/// Adding a feed that the chat follows already puts its cursor back to
/// the start and adds no second subscription: the store holds the same
/// subscriptions as before, a listing names the feed once, and adding it
/// once more changes nothing.
pub proof fn lemma_add_is_idempotent(
    m: Map<SubKey, Seq<char>>,
    chat_id: i64,
    url: Seq<char>,
    urls: Seq<Seq<char>>,
)
    requires
        is_listing(m.insert((chat_id, url), Seq::<char>::empty()), chat_id, urls),
    ensures
        m.dom().contains((chat_id, url)) ==> m.insert((chat_id, url), Seq::<char>::empty()).dom()
            == m.dom(),
        m.insert((chat_id, url), Seq::<char>::empty())[(chat_id, url)] == Seq::<char>::empty(),
        m.insert((chat_id, url), Seq::<char>::empty()).insert(
            (chat_id, url),
            Seq::<char>::empty(),
        ) == m.insert((chat_id, url), Seq::<char>::empty()),
        urls.contains(url),
        forall|i: int, j: int| 0 <= i < urls.len() && 0 <= j < urls.len() && urls[i] == url
            && urls[j] == url ==> i == j,
{
    let added = m.insert((chat_id, url), Seq::<char>::empty());
    if m.dom().contains((chat_id, url)) {
        assert(added.dom() =~= m.dom());
    }
    assert(added.insert((chat_id, url), Seq::<char>::empty()) =~= added);
    assert(added.dom().contains((chat_id, url)));
}

/// Every subscription of every chat, each with its cursor.
///
/// A chat follows a feed at most once: the address of the feed identifies
/// the subscription within the chat. The records are held in one list
/// under the invariant that no pair of chat and address occurs twice, and
/// the view is the map from each pair to its cursor.
#[derive(Debug)]
pub struct SubscribeInfo {
    chat_to_sub: Vec<Subscription>,
}

impl View for SubscribeInfo {
    type V = Map<SubKey, Seq<char>>;

    /// The cursor of each subscription.
    closed spec fn view(&self) -> Map<SubKey, Seq<char>> {
        model_of(self.chat_to_sub@)
    }
}

impl SubscribeInfo {
    #[verifier::type_invariant]
    closed spec fn wf(&self) -> bool {
        distinct_keys(self.chat_to_sub@)
    }

    /// A record without subscriptions.
    pub fn new() -> (r: Self)
        ensures
            r@ == Map::<SubKey, Seq<char>>::empty(),
    {
        let r = SubscribeInfo { chat_to_sub: Vec::new() };
        assert(r@ =~= Map::<SubKey, Seq<char>>::empty());
        r
    }

    /// Hands out the records and leaves none behind.
    fn take_records(&mut self) -> (r: Vec<Subscription>)
        ensures
            r@ == old(self).chat_to_sub@,
            final(self).chat_to_sub@ == Seq::<Subscription>::empty(),
    {
        let mut subs: Vec<Subscription> = Vec::new();
        core::mem::swap(&mut self.chat_to_sub, &mut subs);
        subs
    }

    fn find(&self, chat_id: i64, url: &str) -> (r: Option<usize>)
        ensures
            match r {
                Some(i) => i < self.chat_to_sub.len() && self.chat_to_sub[i as int].key() == (
                    chat_id,
                    url@,
                ),
                None => !has_key(self.chat_to_sub@, (chat_id, url@)),
            },
    {
        let mut i: usize = 0;
        while i < self.chat_to_sub.len()
            invariant
                i <= self.chat_to_sub.len(),
                forall|j: int| 0 <= j < i ==> (#[trigger] self.chat_to_sub[j]).key() != (chat_id, url@),
            decreases self.chat_to_sub.len() - i,
        {
            if self.chat_to_sub[i].chat_id == chat_id && same_text(
                self.chat_to_sub[i].url.as_str(),
                url,
            ) {
                return Some(i);
            }
            i += 1;
        }
        None
    }

    /// The cursor of the subscription of `chat_id` to `url`, if the chat
    /// follows that feed.
    pub fn get(&self, chat_id: i64, url: &str) -> (r: Option<String>)
        ensures
            self@.dom().contains((chat_id, url@)) <==> r is Some,
            r matches Some(cursor) ==> cursor@ == self@[(chat_id, url@)],
    {
        proof {
            use_type_invariant(self);
        }
        match self.find(chat_id, url) {
            Some(i) => {
                proof {
                    lemma_model_at(self.chat_to_sub@, i as int);
                }
                Some(self.chat_to_sub[i].info.last_entry().clone())
            },
            None => None,
        }
    }

    /// Subscribes `chat_id` to `url` with nothing delivered yet. A
    /// subscription to the same address is replaced, not doubled.
    pub fn add(&mut self, chat_id: i64, url: &str)
        ensures
            final(self)@ == old(self)@.insert((chat_id, url@), Seq::<char>::empty()),
    {
        self.restore(Subscription { chat_id, url: url.to_owned(), info: SubInfo::fresh() });
    }

    /// Ends the subscription of `chat_id` to `url`, if there is one.
    pub fn remove(&mut self, chat_id: i64, url: &str)
        ensures
            final(self)@ == old(self)@.remove((chat_id, url@)),
    {
        proof {
            use_type_invariant(&*self);
        }
        match self.find(chat_id, url) {
            Some(i) => {
                proof {
                    lemma_model_remove(self.chat_to_sub@, i as int);
                }
                let mut subs = self.take_records();
                subs.remove(i);
                self.chat_to_sub = subs;
            },
            None => {
                assert(old(self)@.remove((chat_id, url@)) =~= old(self)@);
            },
        }
    }

    /// Moves the cursor of the subscription of `chat_id` to `url` to
    /// `cursor`. Where the chat no longer follows that feed, nothing changes.
    pub fn set(&mut self, chat_id: i64, url: &str, cursor: String)
        ensures
            final(self)@ == if old(self)@.dom().contains((chat_id, url@)) {
                old(self)@.insert((chat_id, url@), cursor@)
            } else {
                old(self)@
            },
    {
        proof {
            use_type_invariant(&*self);
        }
        match self.find(chat_id, url) {
            Some(i) => {
                let record = Subscription {
                    chat_id,
                    url: url.to_owned(),
                    info: SubInfo::Rss { last_entry: cursor },
                };
                proof {
                    lemma_model_at(self.chat_to_sub@, i as int);
                    lemma_model_update(self.chat_to_sub@, i as int, record);
                }
                let mut subs = self.take_records();
                subs.set(i, record);
                self.chat_to_sub = subs;
            },
            None => {},
        }
    }

    /// Puts `record` into the store as it is, in place of a subscription
    /// of the same chat to the same address.
    pub fn restore(&mut self, record: Subscription)
        ensures
            final(self)@ == old(self)@.insert(record.key(), record.info@),
    {
        proof {
            use_type_invariant(&*self);
        }
        match self.find(record.chat_id, record.url.as_str()) {
            Some(i) => {
                proof {
                    lemma_model_update(self.chat_to_sub@, i as int, record);
                }
                let mut subs = self.take_records();
                subs.set(i, record);
                self.chat_to_sub = subs;
            },
            None => {
                proof {
                    lemma_model_push(self.chat_to_sub@, record);
                }
                let mut subs = self.take_records();
                subs.push(record);
                self.chat_to_sub = subs;
            },
        }
    }

    /// The addresses of the feeds that `chat_id` follows, each once.
    pub fn list(&self, chat_id: i64) -> (r: Vec<String>)
        ensures
            is_listing(self@, chat_id, texts(r@)),
    {
        proof {
            use_type_invariant(self);
        }
        let mut out: Vec<String> = Vec::new();
        let ghost mut from: Seq<int> = Seq::empty();
        let mut i: usize = 0;
        while i < self.chat_to_sub.len()
            invariant
                i <= self.chat_to_sub.len(),
                from.len() == out.len(),
                forall|k: int|
                    0 <= k < out.len() ==> 0 <= (#[trigger] from[k]) < i
                        && self.chat_to_sub[from[k]].chat_id == chat_id && out[k]@
                        == self.chat_to_sub[from[k]].url@,
                forall|k: int, l: int|
                    0 <= k < l < out.len() ==> (#[trigger] from[k]) < (#[trigger] from[l]),
                forall|j: int|
                    0 <= j < i && (#[trigger] self.chat_to_sub[j]).chat_id == chat_id
                        ==> exists|k: int| 0 <= k < out.len() && #[trigger] from[k] == j,
            decreases self.chat_to_sub.len() - i,
        {
            if self.chat_to_sub[i].chat_id == chat_id {
                let ghost before = from;
                out.push(self.chat_to_sub[i].url.clone());
                proof {
                    from = from.push(i as int);
                    assert forall|j: int|
                        0 <= j < i + 1 && (#[trigger] self.chat_to_sub[j]).chat_id
                            == chat_id implies exists|k: int|
                        0 <= k < out.len() && #[trigger] from[k] == j by {
                        if j < i {
                            let k = choose|k: int| 0 <= k < before.len() && #[trigger] before[k] == j;
                            assert(from[k] == j);
                        } else {
                            assert(from[before.len() as int] == j);
                        }
                    }
                }
            }
            i += 1;
        }
        proof {
            let s = self.chat_to_sub@;
            let urls = texts(out@);
            assert forall|a: int, b: int| 0 <= a < urls.len() && 0 <= b < urls.len() && a
                != b implies urls[a] != urls[b] by {
                if a < b {
                    assert(from[a] < from[b]);
                    assert(s[from[a]].key() != s[from[b]].key());
                } else {
                    assert(from[b] < from[a]);
                    assert(s[from[b]].key() != s[from[a]].key());
                }
            }
            assert forall|u: Seq<char>| self@.dom().contains((chat_id, u)) <==> urls.contains(
                u,
            ) by {
                if self@.dom().contains((chat_id, u)) {
                    let j = index_of(s, (chat_id, u));
                    assert(s[j].chat_id == chat_id);
                    let k = choose|k: int| 0 <= k < out.len() && #[trigger] from[k] == j;
                    assert(urls[k] == u);
                }
                if urls.contains(u) {
                    let k = choose|k: int| 0 <= k < urls.len() && urls[k] == u;
                    assert(s[from[k]].key() == (chat_id, u));
                }
            }
        }
        out
    }

    /// A copy of every subscription with its cursor, as they stand now.
    /// Later changes to the store do not show in it.
    pub fn list_all(&self) -> (r: Vec<Subscription>)
        ensures
            distinct_keys(r@),
            model_of(r@) == self@,
    {
        proof {
            use_type_invariant(self);
        }
        let mut out: Vec<Subscription> = Vec::new();
        let mut i: usize = 0;
        while i < self.chat_to_sub.len()
            invariant
                i <= self.chat_to_sub.len(),
                out@ == self.chat_to_sub@.take(i as int),
            decreases self.chat_to_sub.len() - i,
        {
            out.push(self.chat_to_sub[i].clone());
            assert(out@ =~= self.chat_to_sub@.take(i + 1));
            i += 1;
        }
        assert(out@ =~= self.chat_to_sub@);
        out
    }
}

impl Default for SubscribeInfo {
    fn default() -> (r: Self)
        ensures
            r@ == Map::<SubKey, Seq<char>>::empty(),
    {
        SubscribeInfo::new()
    }
}

/// All that the bot keeps between runs.
#[derive(Debug)]
pub struct DBType {
    pub subscribe: SubscribeInfo,
}

impl Default for DBType {
    fn default() -> (r: Self)
        ensures
            r.subscribe@ == Map::<SubKey, Seq<char>>::empty(),
    {
        DBType { subscribe: SubscribeInfo::new() }
    }
}

} // verus!
