//! Time-bounded memory of the messages that were already edited.
//!
//! Time is counted in nanoseconds on a monotonic clock. Every operation
//! exists in two forms: one that is told the time, which is the form whose
//! behaviour is fully determined, and one that reads the clock itself.

use std::time::{Duration, Instant};
use vstd::prelude::*;

verus! {

/// `std::time::Instant`, a reading of the monotonic clock. Nothing is known
/// of what a value holds.
#[verifier::external_type_specification]
#[verifier::external_body]
pub struct ExInstant(Instant);

/// The length of a `Duration` in whole nanoseconds, as `Duration::as_nanos`
/// reports it.
pub uninterp spec fn duration_nanos(d: Duration) -> nat;

/// `Duration::as_nanos`: the total number of nanoseconds that the duration
/// holds.
pub assume_specification[ Duration::as_nanos ](d: &Duration) -> (n: u128)
    ensures
        n == duration_nanos(*d),
;

/// `Duration::from_secs`: a duration of that many whole seconds.
pub assume_specification[ Duration::from_secs ](secs: u64) -> (d: Duration)
    ensures
        duration_nanos(d) == secs as nat * 1_000_000_000,
;

/// `Instant::now`: the current reading of the clock. Nothing is promised of
/// it.
pub assume_specification[ Instant::now ]() -> (t: Instant)
;

/// `Instant::saturating_duration_since`: the time that went by from the
/// earlier reading to this one, or no time at all where the other reading
/// is the later one. Nothing is promised of it.
pub assume_specification[ Instant::saturating_duration_since ](
    t: &Instant,
    earlier: Instant,
) -> (d: Duration)
;

/// What a [`DedupeCache`] holds.
pub struct DedupeCacheView {
    /// How long an entry counts, in nanoseconds.
    pub ttl: nat,
    /// For each remembered (conversation, message) pair, when it was recorded.
    pub entries: Map<(i64, i32), nat>,
}

impl DedupeCacheView {
    /// Whether an entry recorded at `seen_at` still counts at `now`: no more
    /// than the time to live has gone by since. A clock that reads earlier
    /// than `seen_at` counts as no time gone by.
    pub open spec fn fresh(self, seen_at: nat, now: nat) -> bool {
        now <= seen_at + self.ttl
    }

    /// Whether the pair counts as seen at `now`.
    pub open spec fn contains(self, chat_id: i64, message_id: i32, now: nat) -> bool {
        self.entries.contains_key((chat_id, message_id)) && self.fresh(
            self.entries[(chat_id, message_id)],
            now,
        )
    }

    /// The cache without the entries that no longer count at `now`.
    pub open spec fn evict_expired(self, now: nat) -> DedupeCacheView {
        DedupeCacheView {
            entries: Map::new(
                |k: (i64, i32)| self.entries.contains_key(k) && self.fresh(self.entries[k], now),
                |k: (i64, i32)| self.entries[k],
            ),
            ..self
        }
    }

    /// The cache after the pair was recorded at `now`.
    pub open spec fn insert(self, chat_id: i64, message_id: i32, now: nat) -> DedupeCacheView {
        DedupeCacheView { entries: self.entries.insert((chat_id, message_id), now), ..self }
    }
}

struct DedupeEntry {
    chat_id: i64,
    message_id: i32,
    seen_at: u128,
}

impl DedupeEntry {
    spec fn key(self) -> (i64, i32) {
        (self.chat_id, self.message_id)
    }
}

spec fn keys_distinct(entries: Seq<DedupeEntry>) -> bool {
    forall|i: int, j: int|
        0 <= i < j < entries.len() ==> #[trigger] entries[i].key() != #[trigger] entries[j].key()
}

spec fn seen_at(entries: Seq<DedupeEntry>, key: (i64, i32)) -> Option<nat>
    decreases entries.len(),
{
    if entries.len() == 0 {
        None
    } else if entries.last().key() == key {
        Some(entries.last().seen_at as nat)
    } else {
        seen_at(entries.drop_last(), key)
    }
}

spec fn entries_map(entries: Seq<DedupeEntry>) -> Map<(i64, i32), nat> {
    Map::new(|k: (i64, i32)| seen_at(entries, k) is Some, |k: (i64, i32)| seen_at(entries, k)->0)
}

proof fn lemma_seen_at_index(entries: Seq<DedupeEntry>, i: int)
    requires
        keys_distinct(entries),
        0 <= i < entries.len(),
    ensures
        seen_at(entries, entries[i].key()) == Some(entries[i].seen_at as nat),
    decreases entries.len(),
{
    if i < entries.len() - 1 {
        lemma_seen_at_index(entries.drop_last(), i);
    }
}

proof fn lemma_seen_at_absent(entries: Seq<DedupeEntry>, key: (i64, i32))
    requires
        forall|j: int| 0 <= j < entries.len() ==> entries[j].key() != key,
    ensures
        seen_at(entries, key) is None,
    decreases entries.len(),
{
    if entries.len() > 0 {
        lemma_seen_at_absent(entries.drop_last(), key);
    }
}

/// Remembers, for a limited time, which messages were already edited, so
/// that an update delivered twice is not edited twice.
pub struct DedupeCache {
    entries: Vec<DedupeEntry>,
    ttl_nanos: u128,
    started: Instant,
}

impl View for DedupeCache {
    type V = DedupeCacheView;

    closed spec fn view(&self) -> DedupeCacheView {
        DedupeCacheView { ttl: self.ttl_nanos as nat, entries: entries_map(self.entries@) }
    }
}

impl DedupeCache {
    #[verifier::type_invariant]
    spec fn well_formed(self) -> bool {
        keys_distinct(self.entries@)
    }

    /// An empty cache whose entries count for `ttl`.
    pub fn new(ttl: Duration) -> (cache: Self)
        ensures
            cache@.ttl == duration_nanos(ttl),
            cache@.entries == Map::<(i64, i32), nat>::empty(),
    {
        let cache = DedupeCache {
            entries: Vec::new(),
            ttl_nanos: ttl.as_nanos(),
            started: Instant::now(),
        };
        assert(cache@.entries =~= Map::<(i64, i32), nat>::empty());
        cache
    }

    /// The time to live of an entry, in nanoseconds.
    pub fn ttl_nanos(&self) -> (ttl: u128)
        ensures
            ttl == self@.ttl,
    {
        self.ttl_nanos
    }

    /// Nanoseconds that went by on the clock since the cache was made.
    pub fn clock_nanos(&self) -> u128 {
        Instant::now().saturating_duration_since(self.started).as_nanos()
    }

    /// Whether the pair counts as seen at `now`. Entries that no longer count
    /// are dropped first.
    pub fn contains_at(&mut self, chat_id: i64, message_id: i32, now: u128) -> (seen: bool)
        ensures
            seen == old(self)@.contains(chat_id, message_id, now as nat),
            final(self)@ == old(self)@.evict_expired(now as nat),
    {
        self.evict_expired_at(now);
        proof {
            use_type_invariant(&*self);
        }
        let ghost evicted = self@;
        let mut i: usize = 0;
        while i < self.entries.len()
            invariant
                i <= self.entries.len(),
                self@ == evicted,
                evicted == old(self)@.evict_expired(now as nat),
                keys_distinct(self.entries@),
                forall|j: int| 0 <= j < i ==> self.entries[j].key() != (chat_id, message_id),
            decreases self.entries.len() - i,
        {
            if self.entries[i].chat_id == chat_id && self.entries[i].message_id == message_id {
                proof {
                    lemma_seen_at_index(self.entries@, i as int);
                    assert(evicted.entries.contains_key((chat_id, message_id)));
                }
                return true;
            }
            i = i + 1;
        }
        proof {
            lemma_seen_at_absent(self.entries@, (chat_id, message_id));
            assert(!evicted.entries.contains_key((chat_id, message_id)));
        }
        false
    }

    /// Records the pair as seen at `now`. Nothing is dropped.
    pub fn insert_at(&mut self, chat_id: i64, message_id: i32, now: u128)
        ensures
            final(self)@ == old(self)@.insert(chat_id, message_id, now as nat),
    {
        proof {
            use_type_invariant(&*self);
        }
        let ghost before = self.entries@;
        let ghost key = (chat_id, message_id);
        let mut entries: Vec<DedupeEntry> = Vec::new();
        std::mem::swap(&mut entries, &mut self.entries);
        let mut i: usize = 0;
        let mut found = false;
        while i < entries.len() && !found
            invariant
                i <= entries.len(),
                entries.len() == before.len(),
                keys_distinct(before),
                key == (chat_id, message_id),
                forall|j: int| 0 <= j < before.len() ==> entries[j].key() == before[j].key(),
                forall|j: int|
                    0 <= j < before.len() && !(found && j == i - 1) ==> entries[j].seen_at
                        == before[j].seen_at,
                !found ==> forall|j: int| 0 <= j < i ==> before[j].key() != key,
                found ==> 0 < i && before[i - 1].key() == key && entries[i - 1].seen_at == now,
            decreases entries.len() - i,
        {
            if entries[i].chat_id == chat_id && entries[i].message_id == message_id {
                entries[i].seen_at = now;
                found = true;
            }
            i = i + 1;
        }
        if !found {
            entries.push(DedupeEntry { chat_id, message_id, seen_at: now });
        }
        proof {
            let after = entries@;
            if found {
                assert forall|a: int, b: int| 0 <= a < b < after.len() implies after[a].key()
                    != after[b].key() by {
                    assert(after[a].key() == before[a].key());
                    assert(after[b].key() == before[b].key());
                }
                assert forall|k: (i64, i32)| #[trigger]
                    seen_at(after, k) == (if k == key {
                        Some(now as nat)
                    } else {
                        seen_at(before, k)
                    }) by {
                    lemma_seen_at_updated(before, after, i - 1, k);
                }
            } else {
                assert(after.drop_last() =~= before) by {
                    assert forall|j: int| 0 <= j < before.len() implies after[j] == before[j] by {
                        assert(after[j].key() == before[j].key());
                    }
                }
                assert forall|a: int, b: int| 0 <= a < b < after.len() implies after[a].key()
                    != after[b].key() by {
                    assert(after[a] == before[a]);
                    if b < before.len() {
                        assert(after[b] == before[b]);
                    }
                }
            }
        }
        self.entries = entries;
        proof {
            assert(self@.entries =~= old(self)@.insert(chat_id, message_id, now as nat).entries);
        }
    }

    /// Drops the entries that no longer count at `now`.
    pub fn evict_expired_at(&mut self, now: u128)
        ensures
            final(self)@ == old(self)@.evict_expired(now as nat),
    {
        proof {
            use_type_invariant(&*self);
        }
        let ghost before = self.entries@;
        let ghost model = old(self)@;
        let ttl = self.ttl_nanos;
        let total: usize = self.entries.len();
        let mut kept: Vec<DedupeEntry> = Vec::new();
        let mut i: usize = 0;
        while i < total
            invariant
                i <= total,
                total == before.len(),
                self.entries@ == before,
                keys_distinct(before),
                keys_distinct(kept@),
                model.ttl == ttl,
                forall|a: int|
                    0 <= a < kept.len() ==> exists|p: int|
                        0 <= p < i && #[trigger] kept[a].key() == before[p].key(),
                forall|k: (i64, i32)| #[trigger]
                    seen_at(kept@, k) == match seen_at(before.take(i as int), k) {
                        Some(t) => if model.fresh(t, now as nat) {
                            Some(t)
                        } else {
                            None
                        },
                        None => None,
                    },
            decreases total - i,
        {
            let ghost kept_before = kept@;
            let seen = self.entries[i].seen_at;
            proof {
                assert(before.take(i + 1).drop_last() =~= before.take(i as int));
                assert(before.take(i + 1).last() == before[i as int]);
                assert(seen_at(before.take(i as int), before[i as int].key()) is None) by {
                    assert forall|j: int| 0 <= j < i implies before.take(i as int)[j].key()
                        != before[i as int].key() by {}
                    lemma_seen_at_absent(before.take(i as int), before[i as int].key());
                }
            }
            if now <= seen || now - seen <= ttl {
                kept.push(
                    DedupeEntry {
                        chat_id: self.entries[i].chat_id,
                        message_id: self.entries[i].message_id,
                        seen_at: seen,
                    },
                );
                proof {
                    assert(kept@.drop_last() =~= kept_before);
                    assert(kept@.last().key() == before[i as int].key());
                    assert(keys_distinct(kept@)) by {
                        assert forall|a: int, b: int|
                            0 <= a < b < kept@.len() implies kept@[a].key() != kept@[b].key() by {
                            if b == kept@.len() - 1 {
                                let p = choose|p: int|
                                    0 <= p < i && kept_before[a].key() == before[p].key();
                                assert(before[p].key() != before[i as int].key());
                            } else {
                                assert(kept@[a] == kept_before[a]);
                                assert(kept@[b] == kept_before[b]);
                            }
                        }
                    }
                    assert forall|a: int| 0 <= a < kept.len() implies exists|p: int|
                        0 <= p < i + 1 && #[trigger] kept[a].key() == before[p].key() by {
                        if a == kept@.len() - 1 {
                            assert(kept[a].key() == before[i as int].key());
                        } else {
                            let p = choose|p: int|
                                0 <= p < i && kept_before[a].key() == before[p].key();
                            assert(kept[a].key() == before[p].key());
                        }
                    }
                }
            }
            proof {
                assert forall|k: (i64, i32)| #[trigger]
                    seen_at(kept@, k) == match seen_at(before.take(i + 1), k) {
                        Some(t) => if model.fresh(t, now as nat) {
                            Some(t)
                        } else {
                            None
                        },
                        None => None,
                    } by {
                    assert(seen_at(kept_before, k) == match seen_at(before.take(i as int), k) {
                        Some(t) => if model.fresh(t, now as nat) {
                            Some(t)
                        } else {
                            None
                        },
                        None => None,
                    });
                    assert(kept@ == kept_before || (kept@.drop_last() == kept_before
                        && kept@.last().key() == before[i as int].key() && kept@.last().seen_at
                        == seen));
                }
            }
            i = i + 1;
        }
        proof {
            assert(before.take(total as int) =~= before);
        }
        self.entries = kept;
        proof {
            assert(self@.entries =~= model.evict_expired(now as nat).entries);
        }
    }

    /// Whether the pair counts as seen now, by the clock. Entries that no
    /// longer count are dropped first. A pair is reported only if it was
    /// recorded: there is a time at which the told-the-time form gives this
    /// answer and this state.
    pub fn contains(&mut self, chat_id: i64, message_id: i32) -> (seen: bool)
        ensures
            exists|now: nat|
                seen == old(self)@.contains(chat_id, message_id, now) && final(self)@ == old(
                    self,
                )@.evict_expired(now),
            seen ==> old(self)@.entries.contains_key((chat_id, message_id)),
    {
        let now = self.clock_nanos();
        let seen = self.contains_at(chat_id, message_id, now);
        assert(seen == old(self)@.contains(chat_id, message_id, now as nat) && self@ == old(
            self,
        )@.evict_expired(now as nat));
        seen
    }

    /// Records the pair as seen now, by the clock.
    pub fn insert(&mut self, chat_id: i64, message_id: i32)
        ensures
            exists|now: nat| final(self)@ == old(self)@.insert(chat_id, message_id, now),
    {
        let now = self.clock_nanos();
        self.insert_at(chat_id, message_id, now);
        assert(self@ == old(self)@.insert(chat_id, message_id, now as nat));
    }

    /// Drops the entries that no longer count now, by the clock.
    pub fn evict_expired(&mut self)
        ensures
            exists|now: nat| final(self)@ == old(self)@.evict_expired(now),
    {
        let now = self.clock_nanos();
        self.evict_expired_at(now);
        assert(self@ == old(self)@.evict_expired(now as nat));
    }
}

proof fn lemma_seen_at_updated(
    before: Seq<DedupeEntry>,
    after: Seq<DedupeEntry>,
    i: int,
    k: (i64, i32),
)
    requires
        0 <= i < before.len(),
        before.len() == after.len(),
        keys_distinct(before),
        forall|j: int| 0 <= j < before.len() ==> after[j].key() == before[j].key(),
        forall|j: int| 0 <= j < before.len() && j != i ==> after[j].seen_at == before[j].seen_at,
    ensures
        seen_at(after, k) == (if k == before[i].key() {
            Some(after[i].seen_at as nat)
        } else {
            seen_at(before, k)
        }),
    decreases before.len(),
{
    if k == before[i].key() {
        assert(keys_distinct(after));
        lemma_seen_at_index(after, i);
    } else if before.last().key() == k {
    } else if i < before.len() - 1 {
        lemma_seen_at_updated(before.drop_last(), after.drop_last(), i, k);
    } else {
        lemma_seen_at_same(before.drop_last(), after.drop_last(), k);
    }
}

proof fn lemma_seen_at_same(before: Seq<DedupeEntry>, after: Seq<DedupeEntry>, k: (i64, i32))
    requires
        before.len() == after.len(),
        forall|j: int| 0 <= j < before.len() ==> after[j].key() == before[j].key(),
        forall|j: int| 0 <= j < before.len() ==> after[j].seen_at == before[j].seen_at,
    ensures
        seen_at(after, k) == seen_at(before, k),
    decreases before.len(),
{
    if before.len() > 0 {
        lemma_seen_at_same(before.drop_last(), after.drop_last(), k);
    }
}

/// A pair counts as seen from the moment it is recorded until its time to
/// live has gone by, and no longer; recording one pair tells nothing about
/// another; and what was never recorded is never reported.
pub proof fn law_insert_then_contains(
    cache: DedupeCacheView,
    chat_id: i64,
    message_id: i32,
    recorded_at: nat,
    now: nat,
    other_chat: i64,
    other_message: i32,
)
    ensures
        now <= recorded_at + cache.ttl ==> cache.insert(chat_id, message_id, recorded_at).contains(
            chat_id,
            message_id,
            now,
        ),
        now > recorded_at + cache.ttl ==> !cache.insert(chat_id, message_id, recorded_at).contains(
            chat_id,
            message_id,
            now,
        ),
        (other_chat, other_message) != (chat_id, message_id) ==> cache.insert(
            chat_id,
            message_id,
            recorded_at,
        ).contains(other_chat, other_message, now) == cache.contains(
            other_chat,
            other_message,
            now,
        ),
        cache.contains(chat_id, message_id, now) ==> cache.entries.contains_key(
            (chat_id, message_id),
        ),
{
}

/// Dropping expired entries never changes an answer: at the time of the
/// eviction and at any later time the cache reports the same pairs as it
/// would have without it.
pub proof fn law_eviction_is_unobservable(
    cache: DedupeCacheView,
    chat_id: i64,
    message_id: i32,
    evicted_at: nat,
    now: nat,
)
    requires
        evicted_at <= now,
    ensures
        cache.evict_expired(evicted_at).contains(chat_id, message_id, now) == cache.contains(
            chat_id,
            message_id,
            now,
        ),
{
}

} // verus!
