//! The result cache model: one key space over the raw input URL, idle
//! and absolute expiry, and the single-flight discipline — at most one
//! computation in flight per key.
use vstd::prelude::*;

use crate::result::{
    outcome_like,
    ScrapeImage,
    ScrapeResult,
    ScrapeResultData,
    ScrapeResultError,
};
use crate::text;

verus! {

/// What the cache knows of one key: a computation under way, or a
/// finished outcome.
pub enum EntryState {
    InFlight,
    Ready(Option<ScrapeResult>),
}

/// One cache entry with its clocks.
pub struct CacheEntry {
    pub key: String,
    pub state: EntryState,
    pub created: u64,
    pub last_read: u64,
}

/// The result cache: entries with unique keys, an idle window and an
/// absolute lifetime, both in seconds.
pub struct ResultCache {
    pub entries: Vec<CacheEntry>,
    pub idle_secs: u64,
    pub live_secs: u64,
}

/// What one lookup tells the caller: a fresh stored outcome, an order
/// to wait for the computation under way, or the duty to begin the one
/// computation for this key.
pub enum CacheDecision {
    Hit(Option<ScrapeResult>),
    Wait,
    Begin,
}

/// The first entry with the given key.
pub open spec fn find_key(entries: Seq<CacheEntry>, key: Seq<char>) -> Option<int>
    decreases entries.len(),
{
    if entries.len() == 0 {
        None
    } else if entries[0].key@ == key {
        Some(0)
    } else {
        match find_key(entries.skip(1), key) {
            None => None,
            Some(i) => Some(i + 1),
        }
    }
}

/// A stored outcome is fresh while both clocks are inside their
/// windows: the absolute one since creation, the idle one since the
/// last read.
pub open spec fn fresh_at(e: CacheEntry, idle: u64, live: u64, now: u64) -> bool {
    e.created <= now < e.created + live && e.last_read <= now < e.last_read + idle
}

impl ResultCache {
    /// Keys are unique: the single-flight discipline's ground.
    pub open spec fn wf(self) -> bool {
        forall|i: int, j: int|
            0 <= i < j < self.entries@.len() ==> (#[trigger] self.entries@[i]).key@ != (
            #[trigger] self.entries@[j]).key@
    }

    /// The decision a lookup takes: a missing or expired entry begins a
    /// computation, an in-flight one is waited for, a fresh outcome is
    /// handed out.
    pub open spec fn decide(self, key: Seq<char>, now: u64) -> CacheDecision {
        match find_key(self.entries@, key) {
            None => CacheDecision::Begin,
            Some(i) => match self.entries@[i].state {
                EntryState::InFlight => CacheDecision::Wait,
                EntryState::Ready(v) => if fresh_at(
                    self.entries@[i],
                    self.idle_secs,
                    self.live_secs,
                    now,
                ) {
                    CacheDecision::Hit(v)
                } else {
                    CacheDecision::Begin
                },
            },
        }
    }

    /// Whether a computation for this key is under way.
    pub open spec fn inflight(self, key: Seq<char>) -> bool {
        match find_key(self.entries@, key) {
            None => false,
            Some(i) => self.entries@[i].state is InFlight,
        }
    }

    /// An empty cache with the configured windows.
    pub fn new(idle_secs: u64, live_secs: u64) -> (r: ResultCache)
        ensures
            r.entries@ == Seq::<CacheEntry>::empty(),
            r.idle_secs == idle_secs,
            r.live_secs == live_secs,
            r.wf(),
    {
        ResultCache { entries: Vec::new(), idle_secs, live_secs }
    }

    /// Looks a key up and takes the decision: exactly the `decide`
    /// function, marking the key in flight when a computation must
    /// begin, and touching the idle clock on a hit.
    pub fn get_or_begin(&mut self, key: &str, now: u64) -> (d: CacheDecision)
        requires
            old(self).wf(),
        ensures
            final (self).wf(),
            d is Begin <==> old(self).decide(key@, now) is Begin,
            d is Wait <==> old(self).decide(key@, now) is Wait,
            d matches CacheDecision::Hit(hv) ==> (old(self).decide(key@, now)
                matches CacheDecision::Hit(sv) && outcome_like(hv, sv)),
            d is Begin ==> final (self).inflight(key@),
            d is Wait ==> *final (self) == *old(self),
            d is Hit ==> (final (self).decide(key@, now) matches CacheDecision::Hit(hv2) && (
            d matches CacheDecision::Hit(hv) && outcome_like(hv, hv2))),
            forall|k2: Seq<char>|
                k2 != key@ ==> #[trigger] entry_of(*final (self), k2) == entry_of(
                    *old(self),
                    k2,
                ),
            final (self).idle_secs == old(self).idle_secs,
            final (self).live_secs == old(self).live_secs,
    {
        let ghost entries0 = self.entries@;
        let n = self.entries.len();
        let mut i: usize = 0;
        while i < n
            invariant
                0 <= i <= n,
                n == self.entries@.len(),
                self.entries@ == entries0,
                *self == *old(self),
                entries0 == old(self).entries@,
                old(self).wf(),
                forall|t: int| 0 <= t < i ==> (#[trigger] entries0[t]).key@ != key@,
            decreases n - i,
        {
            if text::str_eq(self.entries[i].key.as_str(), key) {
                proof {
                    lemma_find_key_at(entries0, key@, i as int);
                }
                match &self.entries[i].state {
                    EntryState::InFlight => {
                        return CacheDecision::Wait;
                    },
                    EntryState::Ready(v) => {
                        let fresh = self.entries[i].created <= now && now
                            - self.entries[i].created < self.live_secs
                            && self.entries[i].last_read <= now && now
                            - self.entries[i].last_read < self.idle_secs;
                        if fresh {
                            let out = clone_outcome(v);
                            let e = self.entries.remove(i);
                            let touched = CacheEntry {
                                key: e.key,
                                state: e.state,
                                created: e.created,
                                last_read: now,
                            };
                            self.entries.insert(i, touched);
                            proof {
                                assert(self.entries@ =~= entries0.update(i as int, touched));
                                assert forall|k2: Seq<char>| k2 != key@ implies #[trigger] entry_of(
                                    *self,
                                    k2,
                                ) == entry_of(*old(self), k2) by {
                                    lemma_frame_update(entries0, self.entries@, i as int, k2);
                                }
                                assert(self.wf()) by {
                                    assert(forall|t: int|
                                        0 <= t < self.entries@.len() ==> (
                                        #[trigger] self.entries@[t]).key@ == entries0[t].key@);
                                }
                                lemma_find_key_at(self.entries@, key@, i as int);
                            }
                            return CacheDecision::Hit(out);
                        } else {
                            let marker = CacheEntry {
                                key: String::from_str(key),
                                state: EntryState::InFlight,
                                created: now,
                                last_read: now,
                            };
                            self.entries.set(i, marker);
                            proof {
                                assert(self.entries@ =~= entries0.update(i as int, marker));
                                assert forall|k2: Seq<char>| k2 != key@ implies #[trigger] entry_of(
                                    *self,
                                    k2,
                                ) == entry_of(*old(self), k2) by {
                                    lemma_frame_update(entries0, self.entries@, i as int, k2);
                                }
                                assert(self.wf()) by {
                                    assert(forall|t: int|
                                        0 <= t < self.entries@.len() ==> (
                                        #[trigger] self.entries@[t]).key@ == entries0[t].key@);
                                }
                                lemma_find_key_at(self.entries@, key@, i as int);
                            }
                            return CacheDecision::Begin;
                        }
                    },
                }
            }
            i = i + 1;
        }
        proof {
            lemma_find_key_none(entries0, key@);
        }
        let marker = CacheEntry {
            key: String::from_str(key),
            state: EntryState::InFlight,
            created: now,
            last_read: now,
        };
        self.entries.push(marker);
        proof {
            lemma_find_key_at(self.entries@, key@, entries0.len() as int);
            assert forall|k2: Seq<char>| k2 != key@ implies #[trigger] entry_of(*self, k2)
                == entry_of(*old(self), k2) by {
                lemma_frame_push(entries0, self.entries@[entries0.len() as int], k2);
                assert(self.entries@ =~= entries0.push(self.entries@[entries0.len() as int]));
            }
        }
        CacheDecision::Begin
    }

    /// Stores the finished outcome for a key: repeat callers inside the
    /// windows now share it without recomputing.
    pub fn complete(&mut self, key: &str, value: Option<ScrapeResult>, now: u64)
        requires
            old(self).wf(),
        ensures
            final (self).wf(),
            old(self).idle_secs > 0 && old(self).live_secs > 0 ==> final (self).decide(key@, now)
                == CacheDecision::Hit(value),
            !final (self).inflight(key@),
            forall|k2: Seq<char>|
                k2 != key@ ==> #[trigger] entry_of(*final (self), k2) == entry_of(
                    *old(self),
                    k2,
                ),
            final (self).idle_secs == old(self).idle_secs,
            final (self).live_secs == old(self).live_secs,
    {
        let ghost entries0 = self.entries@;
        let n = self.entries.len();
        let mut i: usize = 0;
        while i < n
            invariant
                0 <= i <= n,
                n == self.entries@.len(),
                self.entries@ == entries0,
                *self == *old(self),
                entries0 == old(self).entries@,
                old(self).wf(),
                forall|t: int| 0 <= t < i ==> (#[trigger] entries0[t]).key@ != key@,
            decreases n - i,
        {
            if text::str_eq(self.entries[i].key.as_str(), key) {
                proof {
                    lemma_find_key_at(entries0, key@, i as int);
                }
                let done = CacheEntry {
                    key: String::from_str(key),
                    state: EntryState::Ready(value),
                    created: now,
                    last_read: now,
                };
                self.entries.set(i, done);
                proof {
                    assert(self.entries@ =~= entries0.update(i as int, done));
                    assert forall|k2: Seq<char>| k2 != key@ implies #[trigger] entry_of(
                        *self,
                        k2,
                    ) == entry_of(*old(self), k2) by {
                        lemma_frame_update(entries0, self.entries@, i as int, k2);
                    }
                    assert(self.wf()) by {
                        assert(forall|t: int|
                            0 <= t < self.entries@.len() ==> (
                            #[trigger] self.entries@[t]).key@ == entries0[t].key@);
                    }
                    lemma_find_key_at(self.entries@, key@, i as int);
                }
                return ;
            }
            i = i + 1;
        }
        proof {
            lemma_find_key_none(entries0, key@);
        }
        let done = CacheEntry {
            key: String::from_str(key),
            state: EntryState::Ready(value),
            created: now,
            last_read: now,
        };
        self.entries.push(done);
        proof {
            lemma_find_key_at(self.entries@, key@, entries0.len() as int);
            assert forall|k2: Seq<char>| k2 != key@ implies #[trigger] entry_of(*self, k2)
                == entry_of(*old(self), k2) by {
                lemma_frame_push(entries0, self.entries@[entries0.len() as int], k2);
                assert(self.entries@ =~= entries0.push(self.entries@[entries0.len() as int]));
            }
        }
    }

    /// Drops a failed computation's marker: the failure was shared only
    /// with the callers of its own window, and the next caller retries
    /// from scratch.
    pub fn abandon(&mut self, key: &str)
        requires
            old(self).wf(),
        ensures
            final (self).wf(),
            !final (self).inflight(key@),
            forall|k2: Seq<char>|
                k2 != key@ ==> #[trigger] entry_of(*final (self), k2) == entry_of(
                    *old(self),
                    k2,
                ),
            final (self).idle_secs == old(self).idle_secs,
            final (self).live_secs == old(self).live_secs,
    {
        let ghost entries0 = self.entries@;
        let n = self.entries.len();
        let mut i: usize = 0;
        while i < n
            invariant
                0 <= i <= n,
                n == self.entries@.len(),
                self.entries@ == entries0,
                *self == *old(self),
                entries0 == old(self).entries@,
                old(self).wf(),
                forall|t: int| 0 <= t < i ==> (#[trigger] entries0[t]).key@ != key@,
            decreases n - i,
        {
            if text::str_eq(self.entries[i].key.as_str(), key) {
                self.entries.remove(i);
                proof {
                    assert(self.wf()) by {
                        assert(forall|t: int|
                            0 <= t < self.entries@.len() ==> (#[trigger] self.entries@[t]).key@
                                == (if t < i {
                                entries0[t]
                            } else {
                                entries0[t + 1]
                            }).key@);
                    }
                    lemma_find_key_removed(entries0, key@, i as int, self.entries@);
                    assert forall|k2: Seq<char>| k2 != key@ implies #[trigger] entry_of(
                        *self,
                        k2,
                    ) == entry_of(*old(self), k2) by {
                        lemma_frame_remove(entries0, i as int, k2);
                        assert(self.entries@ =~= entries0.remove(i as int));
                    }
                }
                return ;
            }
            i = i + 1;
        }
        proof {
            lemma_find_key_none(entries0, key@);
        }
    }
}

/// Single-flight: while a computation for a key is under way, a lookup
/// of that key never begins a second one — it always waits.
pub proof fn lemma_single_flight(c: ResultCache, key: Seq<char>, now: u64)
    requires
        c.wf(),
        c.inflight(key),
    ensures
        c.decide(key, now) is Wait,
{
}

/// Different keys never block each other: a lookup's decision reads
/// only its own key's entry, so a computation under way for one key
/// leaves every other key's decision untouched.
pub proof fn lemma_keys_independent(c1: ResultCache, c2: ResultCache, k: Seq<char>, now: u64)
    requires
        c1.wf(),
        c2.wf(),
        c1.idle_secs == c2.idle_secs,
        c1.live_secs == c2.live_secs,
        entry_of(c1, k) == entry_of(c2, k),
    ensures
        c1.decide(k, now) == c2.decide(k, now),
{
}

/// The entry stored for a key, if any.
pub open spec fn entry_of(c: ResultCache, k: Seq<char>) -> Option<CacheEntry> {
    seq_entry_of(c.entries@, k)
}

/// The entry stored for a key among plain entries.
pub open spec fn seq_entry_of(entries: Seq<CacheEntry>, k: Seq<char>) -> Option<CacheEntry> {
    match find_key(entries, k) {
        None => None,
        Some(i) => Some(entries[i]),
    }
}

/// What `find_key` finds is the first entry carrying the key.
proof fn lemma_find_key_props(entries: Seq<CacheEntry>, key: Seq<char>)
    ensures
        match find_key(entries, key) {
            Some(i) => 0 <= i < entries.len() && entries[i].key@ == key && (forall|t: int|
                0 <= t < i ==> (#[trigger] entries[t]).key@ != key),
            None => forall|t: int|
                0 <= t < entries.len() ==> (#[trigger] entries[t]).key@ != key,
        },
    decreases entries.len(),
{
    if entries.len() > 0 && entries[0].key@ != key {
        lemma_find_key_props(entries.skip(1), key);
        match find_key(entries.skip(1), key) {
            Some(i2) => {
                assert(entries.skip(1)[i2] == entries[i2 + 1]);
                assert forall|t: int| 0 <= t < i2 + 1 implies (#[trigger] entries[t]).key@
                    != key by {
                    if t > 0 {
                        assert(entries.skip(1)[t - 1] == entries[t]);
                    }
                }
            },
            None => {
                assert forall|t: int|
                    0 <= t < entries.len() implies (#[trigger] entries[t]).key@ != key by {
                    if t > 0 {
                        assert(entries.skip(1)[t - 1] == entries[t]);
                    }
                }
            },
        }
    }
}

/// Replacing one entry, key kept, leaves every other key's entry alone.
proof fn lemma_frame_update(e1: Seq<CacheEntry>, e2: Seq<CacheEntry>, i: int, k2: Seq<char>)
    requires
        0 <= i < e1.len(),
        e2.len() == e1.len(),
        forall|t: int| 0 <= t < e1.len() && t != i ==> e2[t] == e1[t],
        e2[i].key@ == e1[i].key@,
        e1[i].key@ != k2,
    ensures
        seq_entry_of(e2, k2) == seq_entry_of(e1, k2),
{
    lemma_find_key_props(e1, k2);
    match find_key(e1, k2) {
        None => {
            assert forall|t: int| 0 <= t < e2.len() implies (#[trigger] e2[t]).key@ != k2 by {
                if t == i {
                } else {
                    assert(e2[t] == e1[t]);
                }
            }
            lemma_find_key_none(e2, k2);
        },
        Some(j) => {
            assert(j != i);
            assert forall|t: int| 0 <= t < j implies (#[trigger] e2[t]).key@ != k2 by {
                if t == i {
                } else {
                    assert(e2[t] == e1[t]);
                }
            }
            lemma_find_key_at(e2, k2, j);
        },
    }
}

/// Appending an entry with another key leaves every other key's entry
/// alone.
proof fn lemma_frame_push(e1: Seq<CacheEntry>, x: CacheEntry, k2: Seq<char>)
    requires
        x.key@ != k2,
    ensures
        seq_entry_of(e1.push(x), k2) == seq_entry_of(e1, k2),
{
    let e2 = e1.push(x);
    lemma_find_key_props(e1, k2);
    match find_key(e1, k2) {
        None => {
            assert forall|t: int| 0 <= t < e2.len() implies (#[trigger] e2[t]).key@ != k2 by {
                if t < e1.len() {
                    assert(e2[t] == e1[t]);
                } else {
                    assert(e2[t] == x);
                }
            }
            lemma_find_key_none(e2, k2);
        },
        Some(j) => {
            assert forall|t: int| 0 <= t < j implies (#[trigger] e2[t]).key@ != k2 by {
                assert(e2[t] == e1[t]);
            }
            assert(e2[j] == e1[j]);
            lemma_find_key_at(e2, k2, j);
        },
    }
}

/// Removing one entry leaves every other key's entry alone.
proof fn lemma_frame_remove(e1: Seq<CacheEntry>, i: int, k2: Seq<char>)
    requires
        0 <= i < e1.len(),
        e1[i].key@ != k2,
    ensures
        seq_entry_of(e1.remove(i), k2) == seq_entry_of(e1, k2),
{
    let e2 = e1.remove(i);
    lemma_find_key_props(e1, k2);
    match find_key(e1, k2) {
        None => {
            assert forall|t: int| 0 <= t < e2.len() implies (#[trigger] e2[t]).key@ != k2 by {
                if t < i {
                    assert(e2[t] == e1[t]);
                } else {
                    assert(e2[t] == e1[t + 1]);
                }
            }
            lemma_find_key_none(e2, k2);
        },
        Some(j) => {
            assert(j != i);
            if j < i {
                assert forall|t: int| 0 <= t < j implies (#[trigger] e2[t]).key@ != k2 by {
                    assert(e2[t] == e1[t]);
                }
                assert(e2[j] == e1[j]);
                lemma_find_key_at(e2, k2, j);
            } else {
                assert forall|t: int| 0 <= t < j - 1 implies (#[trigger] e2[t]).key@ != k2 by {
                    if t < i {
                        assert(e2[t] == e1[t]);
                    } else {
                        assert(e2[t] == e1[t + 1]);
                    }
                }
                assert(e2[j - 1] == e1[j]);
                lemma_find_key_at(e2, k2, j - 1);
            }
        },
    }
}

/// The key found first carries the key looked for.
proof fn lemma_find_key_at(entries: Seq<CacheEntry>, key: Seq<char>, i: int)
    requires
        0 <= i < entries.len(),
        entries[i].key@ == key,
        forall|t: int| 0 <= t < i ==> (#[trigger] entries[t]).key@ != key,
    ensures
        find_key(entries, key) == Some(i),
    decreases i,
{
    if i == 0 {
    } else {
        assert forall|t: int| 0 <= t < i - 1 implies (#[trigger] entries.skip(1)[t]).key@
            != key by {
            assert(entries.skip(1)[t] == entries[t + 1]);
        }
        assert(entries.skip(1)[i - 1] == entries[i]);
        lemma_find_key_at(entries.skip(1), key, i - 1);
    }
}

/// With no entry carrying the key there is nothing to find.
proof fn lemma_find_key_none(entries: Seq<CacheEntry>, key: Seq<char>)
    requires
        forall|t: int| 0 <= t < entries.len() ==> (#[trigger] entries[t]).key@ != key,
    ensures
        find_key(entries, key) is None,
    decreases entries.len(),
{
    if entries.len() > 0 {
        assert forall|t: int|
            0 <= t < entries.skip(1).len() implies (#[trigger] entries.skip(1)[t]).key@ != key by {
            assert(entries.skip(1)[t] == entries[t + 1]);
        }
        lemma_find_key_none(entries.skip(1), key);
    }
}

/// Removing the only entry with a key leaves none carrying it.
proof fn lemma_find_key_removed(
    entries: Seq<CacheEntry>,
    key: Seq<char>,
    i: int,
    rest: Seq<CacheEntry>,
)
    requires
        0 <= i < entries.len(),
        rest == entries.remove(i),
        forall|a: int, b: int|
            0 <= a < b < entries.len() ==> (#[trigger] entries[a]).key@ != (
            #[trigger] entries[b]).key@,
        entries[i].key@ == key,
    ensures
        find_key(rest, key) is None,
{
    assert forall|t: int| 0 <= t < rest.len() implies (#[trigger] rest[t]).key@ != key by {
        if t < i {
            assert(rest[t] == entries[t]);
        } else {
            assert(rest[t] == entries[t + 1]);
        }
    }
    lemma_find_key_none(rest, key);
}

// ---------------------------------------------------------------------------
// Deep copies, so a hit hands out the stored value itself
// ---------------------------------------------------------------------------

/// Copies an optional stored outcome, content for content.
pub fn clone_outcome(o: &Option<ScrapeResult>) -> (r: Option<ScrapeResult>)
    ensures
        outcome_like(r, *o),
{
    match o {
        None => None,
        Some(sr) => Some(clone_result(sr)),
    }
}

/// Copies a scrape result, content for content.
pub fn clone_result(sr: &ScrapeResult) -> (r: ScrapeResult)
    ensures
        crate::result::result_like(r, *sr),
{
    match sr {
        ScrapeResult::NoMatch => ScrapeResult::NoMatch,
        ScrapeResult::Failed(e) => ScrapeResult::Failed(
            ScrapeResultError { errors: clone_strings(&e.errors) },
        ),
        ScrapeResult::Found(d) => ScrapeResult::Found(
            ScrapeResultData {
                source_url: clone_opt_string(&d.source_url),
                author_name: clone_opt_string(&d.author_name),
                additional_tags: match &d.additional_tags {
                    None => None,
                    Some(v) => Some(clone_strings(v)),
                },
                description: clone_opt_string(&d.description),
                images: clone_images(&d.images),
            },
        ),
    }
}

/// Copies an optional string, content for content.
fn clone_opt_string(o: &Option<String>) -> (r: Option<String>)
    ensures
        match (r, *o) {
            (None, None) => true,
            (Some(x), Some(y)) => x@ == y@,
            _ => false,
        },
{
    match o {
        None => None,
        Some(s) => Some(s.clone()),
    }
}

/// Copies a string list, content for content.
fn clone_strings(v: &Vec<String>) -> (r: Vec<String>)
    ensures
        r.deep_view() == v.deep_view(),
{
    let mut out: Vec<String> = Vec::new();
    let mut i: usize = 0;
    while i < v.len()
        invariant
            0 <= i <= v@.len(),
            out@ == v@.take(i as int),
        decreases v@.len() - i,
    {
        out.push(v[i].clone());
        proof {
            assert(out@ =~= v@.take(i as int + 1));
        }
        i = i + 1;
    }
    proof {
        assert(v@.take(v@.len() as int) =~= v@);
        assert(out.deep_view() =~= v.deep_view());
    }
    out
}

/// Copies an image list, content for content.
fn clone_images(v: &Vec<ScrapeImage>) -> (r: Vec<ScrapeImage>)
    ensures
        crate::result::image_pairs(r@) == crate::result::image_pairs(v@),
{
    let mut out: Vec<ScrapeImage> = Vec::new();
    let mut i: usize = 0;
    while i < v.len()
        invariant
            0 <= i <= v@.len(),
            out@ == v@.take(i as int),
        decreases v@.len() - i,
    {
        out.push(
            ScrapeImage { url: v[i].url.clone(), camo_url: v[i].camo_url.clone() },
        );
        proof {
            assert(out@ =~= v@.take(i as int + 1));
        }
        i = i + 1;
    }
    proof {
        assert(v@.take(v@.len() as int) =~= v@);
        assert(crate::result::image_pairs(out@) =~= crate::result::image_pairs(v@));
    }
    out
}

} // verus!
