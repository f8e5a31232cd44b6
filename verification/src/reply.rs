//! The table of replies that are awaited: which requests are open, when each expires,
//! and which reply has come in.

use vstd::prelude::*;

verus! {

/// How long a reply is awaited, in milliseconds.
pub const MESSAGE_REPLY_TIMEOUT: u64 = 1500;

/// The state of one awaited reply.
pub struct ReplyEntry<J> {
    /// The time, in milliseconds, after which the reply is given up.
    pub expiry: u64,
    /// The reply, once it has come in.
    pub value: Option<J>,
}

/// The outcome of a poll.
pub enum AsyncResult<T> {
    /// Nothing has come in yet, and the time is not up.
    Pending,
    /// The request is over, with this result.
    Completed(T),
}

struct Slot<J> {
    key: String,
    entry: ReplyEntry<J>,
}

/// The awaited replies, by the id of their request. The entries lie in a vector, each
/// request once; what the table holds is stated as a map from ids to entries.
pub struct ReplyTable<J> {
    slots: Vec<Slot<J>>,
}

impl<J> View for ReplyTable<J> {
    type V = Map<Seq<char>, ReplyEntry<J>>;

    closed spec fn view(&self) -> Map<Seq<char>, ReplyEntry<J>> {
        Map::new(
            |key: Seq<char>| exists|i: int| self.holds(key, i),
            |key: Seq<char>| self.slots@[choose|i: int| self.holds(key, i)].entry,
        )
    }
}

/// The time at which a reply that is requested at `now` is given up.
pub open spec fn expiry_of(now: u64) -> u64 {
    if now > u64::MAX - MESSAGE_REPLY_TIMEOUT {
        u64::MAX
    } else {
        (now + MESSAGE_REPLY_TIMEOUT) as u64
    }
}

/// Makes a new id for a request with `Uuid::new_v4`, written as `Uuid` displays itself:
/// 36 characters. Which id comes is left to chance.
#[verifier::external_body]
fn fresh_request_id() -> (id: String)
    ensures
        id@.len() == 36,
{
    uuid::Uuid::new_v4().to_string()
}

impl<J> ReplyTable<J> {
    spec fn holds(&self, key: Seq<char>, i: int) -> bool {
        0 <= i < self.slots@.len() && self.slots@[i].key@ == key
    }

    /// The invariant of the table: no request has two entries.
    pub closed spec fn sound(&self) -> bool {
        forall|i: int, j: int|
            0 <= i < j < self.slots@.len() ==> self.slots@[i].key@ != self.slots@[j].key@
    }

    proof fn lemma_view_at(&self, i: int)
        requires
            self.sound(),
            0 <= i < self.slots@.len(),
        ensures
            self@.contains_key(self.slots@[i].key@),
            self@[self.slots@[i].key@] == self.slots@[i].entry,
    {
        let key = self.slots@[i].key@;
        assert(self.holds(key, i));
        let j = choose|j: int| self.holds(key, j);
        assert(i == j);
    }

    /// A table in which nothing is awaited.
    pub fn new() -> (table: ReplyTable<J>)
        ensures
            table.sound(),
            table@ == Map::<Seq<char>, ReplyEntry<J>>::empty(),
    {
        let table = ReplyTable { slots: Vec::new() };
        assert(table@ =~= Map::<Seq<char>, ReplyEntry<J>>::empty());
        table
    }

    fn position(&self, key: &str) -> (at: Option<usize>)
        ensures
            match at {
                Some(i) => self.holds(key@, i as int),
                None => forall|i: int| !self.holds(key@, i),
            },
    {
        let mut i: usize = 0;
        while i < self.slots.len()
            invariant
                i <= self.slots.len(),
                forall|j: int| 0 <= j < i ==> !self.holds(key@, j),
            decreases self.slots.len() - i,
        {
            if crate::text::same_text(self.slots[i].key.as_str(), key) {
                return Some(i);
            }
            i = i + 1;
        }
        None
    }

    /// Takes the entry of `key` out of the table, if it has one.
    fn take(&mut self, key: &str) -> (taken: Option<Slot<J>>)
        requires
            old(self).sound(),
        ensures
            final(self).sound(),
            match taken {
                Some(slot) => old(self)@.contains_key(key@) && slot.key@ == key@ && slot.entry
                    == old(self)@[key@] && final(self)@ == old(self)@.remove(key@),
                None => !old(self)@.contains_key(key@) && final(self)@ == old(self)@,
            },
    {
        match self.position(key) {
            None => None,
            Some(at) => {
                proof {
                    self.lemma_view_at(at as int);
                }
                let slot = self.slots.remove(at);
                proof {
                    let before = *old(self);
                    let goal = before@.remove(key@);
                    assert forall|i: int, j: int| 0 <= i < j < self.slots@.len() implies
                        self.slots@[i].key@ != self.slots@[j].key@ by {
                        let from_i = if i < at { i } else { i + 1 };
                        let from_j = if j < at { j } else { j + 1 };
                        assert(self.slots@[i] == before.slots@[from_i]);
                        assert(self.slots@[j] == before.slots@[from_j]);
                    }
                    assert forall|k: Seq<char>| self@.contains_key(k) <==> goal.contains_key(
                        k,
                    ) by {
                        if self@.contains_key(k) {
                            let i = choose|i: int| self.holds(k, i);
                            let from = if i < at { i } else { i + 1 };
                            assert(self.slots@[i] == before.slots@[from]);
                            assert(before.holds(k, from));
                        }
                        if goal.contains_key(k) {
                            let i = choose|i: int| before.holds(k, i);
                            let to = if i < at { i } else { i - 1 };
                            assert(self.slots@[to] == before.slots@[i]);
                            assert(self.holds(k, to));
                        }
                    }
                    assert forall|k: Seq<char>| self@.contains_key(k) implies self@[k] == goal[k] by {
                        let i = choose|i: int| self.holds(k, i);
                        self.lemma_view_at(i);
                        let from = if i < at { i } else { i + 1 };
                        assert(self.slots@[i] == before.slots@[from]);
                        before.lemma_view_at(from);
                    }
                    assert(self@ =~= goal);
                }
                Some(slot)
            },
        }
    }

    /// Adds an entry for `key`, which has none.
    fn put(&mut self, key: String, entry: ReplyEntry<J>)
        requires
            old(self).sound(),
            !old(self)@.contains_key(key@),
        ensures
            final(self).sound(),
            final(self)@ == old(self)@.insert(key@, entry),
    {
        self.slots.push(Slot { key, entry });
        proof {
            let before = *old(self);
            let last = self.slots@.len() - 1;
            let goal = before@.insert(key@, entry);
            assert forall|i: int, j: int| 0 <= i < j < self.slots@.len() implies self.slots@[i].key@
                != self.slots@[j].key@ by {
                if j == last {
                    assert(self.slots@[i] == before.slots@[i]);
                    if before.slots@[i].key@ == key@ {
                        assert(before.holds(key@, i));
                    }
                }
            }
            assert forall|k: Seq<char>| self@.contains_key(k) <==> goal.contains_key(k) by {
                if self@.contains_key(k) {
                    let i = choose|i: int| self.holds(k, i);
                    if i != last {
                        assert(before.holds(k, i));
                    }
                }
                if before@.contains_key(k) {
                    let i = choose|i: int| before.holds(k, i);
                    assert(self.holds(k, i));
                }
                if k == key@ {
                    assert(self.holds(k, last));
                }
            }
            assert forall|k: Seq<char>| self@.contains_key(k) implies self@[k] == goal[k] by {
                let i = choose|i: int| self.holds(k, i);
                self.lemma_view_at(i);
                if i != last {
                    assert(before.holds(k, i));
                    before.lemma_view_at(i);
                }
            }
            assert(self@ =~= goal);
        }
    }

    /// Starts to await the reply to the request `key`, until `expiry`. An entry that
    /// the request had before is replaced.
    pub fn insert(&mut self, key: String, expiry: u64)
        requires
            old(self).sound(),
        ensures
            final(self).sound(),
            final(self)@ == old(self)@.insert(key@, ReplyEntry { expiry, value: None }),
    {
        let _ = self.take(key.as_str());
        self.put(key, ReplyEntry { expiry, value: None });
        assert(self@ =~= old(self)@.insert(key@, ReplyEntry { expiry, value: None }));
    }

    /// Makes an id for a new request and starts to await its reply, from `now` until the
    /// timeout has passed. Returns the id.
    pub fn expect(&mut self, now: u64) -> (key: String)
        requires
            old(self).sound(),
        ensures
            final(self).sound(),
            final(self)@ == old(self)@.insert(
                key@,
                ReplyEntry { expiry: expiry_of(now), value: None },
            ),
    {
        let key = fresh_request_id();
        let expiry = if now > u64::MAX - MESSAGE_REPLY_TIMEOUT {
            u64::MAX
        } else {
            now + MESSAGE_REPLY_TIMEOUT
        };
        self.insert(key.clone(), expiry);
        key
    }

    /// Hands in a reply to the request `key`. The first reply to an awaited request is
    /// kept; a later one, and one to a request that is not awaited, is dropped.
    pub fn deliver(&mut self, key: &str, value: J)
        requires
            old(self).sound(),
        ensures
            final(self).sound(),
            final(self)@ == delivered(old(self)@, key@, value),
    {
        match self.take(key) {
            None => {},
            Some(slot) => {
                let Slot { key: owned, entry } = slot;
                if entry.value.is_none() {
                    self.put(owned, ReplyEntry { expiry: entry.expiry, value: Some(value) });
                    assert(self@ =~= old(self)@.insert(
                        key@,
                        ReplyEntry { expiry: old(self)@[key@].expiry, value: Some(value) },
                    ));
                } else {
                    self.put(owned, entry);
                    assert(self@ =~= old(self)@);
                }
            },
        }
    }

    /// Asks for the reply to the awaited request `key` at the time `now`. A reply that
    /// has come in completes the request with it; without one the request completes
    /// empty once `now` is past its expiry, and is pending until then. A completed
    /// request is awaited no longer.
    pub fn poll(&mut self, key: &str, now: u64) -> (result: AsyncResult<Option<J>>)
        requires
            old(self).sound(),
            old(self)@.contains_key(key@),
        ensures
            final(self).sound(),
            (result, final(self)@) == polled(old(self)@, key@, now),
    {
        match self.take(key) {
            None => AsyncResult::Pending,
            Some(slot) => {
                let Slot { key: owned, entry } = slot;
                match entry.value {
                    Some(value) => AsyncResult::Completed(Some(value)),
                    None => {
                        if now > entry.expiry {
                            AsyncResult::Completed(None)
                        } else {
                            self.put(owned, ReplyEntry { expiry: entry.expiry, value: None });
                            assert(self@ =~= old(self)@);
                            AsyncResult::Pending
                        }
                    },
                }
            },
        }
    }

    /// Whether the reply to the request `key` is awaited.
    pub fn awaits(&self, key: &str) -> (awaited: bool)
        ensures
            awaited == self@.contains_key(key@),
    {
        self.position(key).is_some()
    }
}

/// Reply timeout: a request whose reply has not come in is completed empty by the first
/// poll after its expiry, and is awaited no longer.
pub proof fn law_reply_times_out<J>(
    table: Map<Seq<char>, ReplyEntry<J>>,
    key: Seq<char>,
    now: u64,
    polled_at: u64,
)
    requires
        polled_at > expiry_of(now),
    ensures
        ({
            let awaited = table.insert(key, ReplyEntry { expiry: expiry_of(now), value: None });
            let after = polled(awaited, key, polled_at);
            after.0 == AsyncResult::Completed(None::<J>) && !after.1.contains_key(key)
        }),
{
}

/// Reply in time: a reply that came in completes the request with it on the next poll,
/// whenever that is, and the request is awaited no longer.
pub proof fn law_reply_arrives<J>(
    table: Map<Seq<char>, ReplyEntry<J>>,
    key: Seq<char>,
    now: u64,
    value: J,
    polled_at: u64,
)
    ensures
        ({
            let awaited = table.insert(key, ReplyEntry { expiry: expiry_of(now), value: None });
            let after = polled(delivered(awaited, key, value), key, polled_at);
            after.0 == AsyncResult::Completed(Some(value)) && !after.1.contains_key(key)
        }),
{
}

/// First writer wins: of two replies to one awaited request the first is kept, and the
/// second changes nothing.
pub proof fn law_first_reply_wins<J>(
    table: Map<Seq<char>, ReplyEntry<J>>,
    key: Seq<char>,
    first: J,
    second: J,
)
    requires
        table.contains_key(key),
        table[key].value is None,
    ensures
        delivered(delivered(table, key, first), key, second) == delivered(table, key, first),
        delivered(table, key, first)[key].value == Some(first),
{
}

/// The table after a reply to `key` was handed in.
pub open spec fn delivered<J>(table: Map<Seq<char>, ReplyEntry<J>>, key: Seq<char>, value: J)
    -> Map<Seq<char>, ReplyEntry<J>> {
    if table.contains_key(key) && table[key].value is None {
        table.insert(key, ReplyEntry { expiry: table[key].expiry, value: Some(value) })
    } else {
        table
    }
}

/// The result of a poll for `key` at `now`, and the table after it.
pub open spec fn polled<J>(table: Map<Seq<char>, ReplyEntry<J>>, key: Seq<char>, now: u64) -> (
    AsyncResult<Option<J>>,
    Map<Seq<char>, ReplyEntry<J>>,
) {
    match table[key].value {
        Some(value) => (AsyncResult::Completed(Some(value)), table.remove(key)),
        None => if now > table[key].expiry {
            (AsyncResult::Completed(None), table.remove(key))
        } else {
            (AsyncResult::Pending, table)
        },
    }
}

} // verus!
