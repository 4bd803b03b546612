//! Bounded per-scope history of recent messages, with the flag that records
//! whether a scope's history has already been fetched from the platform.

use crate::context::{resolve_sender_name, ContextMessage, ContextMessageView};
use crate::text::{trim, trimmed};
use std::collections::{HashSet, VecDeque};
use vstd::prelude::*;
use vstd::string::*;

verus! {

/// A conversation and, within it, an optional topic thread. Two scopes are the
/// same only if both parts agree.
#[derive(Debug, Clone, Copy, PartialEq, Eq, Hash)]
pub struct ContextScope {
    pub chat_id: i64,
    pub topic_root_id: Option<i32>,
}

impl ContextScope {
    /// Whether both the conversation and the topic agree.
    pub fn same_as(&self, other: &ContextScope) -> (r: bool)
        ensures
            r == (*self == *other),
    {
        self.chat_id == other.chat_id && match (self.topic_root_id, other.topic_root_id) {
            (Some(a), Some(b)) => a == b,
            (None, None) => true,
            _ => false,
        }
    }
}

/// A message as the cache remembers it.
pub struct CachedEntry {
    pub message_id: i32,
    pub message: ContextMessageView,
}

struct CachedContextMessage {
    message_id: i32,
    message: ContextMessage,
}

impl View for CachedContextMessage {
    type V = CachedEntry;

    closed spec fn view(&self) -> CachedEntry {
        CachedEntry { message_id: self.message_id, message: self.message@ }
    }
}

struct ScopeHistory {
    scope: ContextScope,
    messages: VecDeque<CachedContextMessage>,
}

/// The last `n` items of `s`, or all of `s` where it holds no more than `n`.
pub open spec fn keep_last<A>(s: Seq<A>, n: nat) -> Seq<A> {
    if s.len() <= n {
        s
    } else {
        s.skip(s.len() - n)
    }
}

/// Whether some entry of `h` carries the id.
pub open spec fn holds_id(h: Seq<CachedEntry>, id: i32) -> bool {
    exists|i: int| 0 <= i < h.len() && #[trigger] h[i].message_id == id
}

/// No two entries of `h` carry the same id.
pub open spec fn ids_unique(h: Seq<CachedEntry>) -> bool {
    forall|i: int, j: int|
        0 <= i < j < h.len() ==> #[trigger] h[i].message_id != #[trigger] h[j].message_id
}

/// A history after one more observation: an id already present changes
/// nothing; a new one goes to the back, and the oldest entries leave until
/// the history fits the limit.
pub open spec fn recorded(
    h: Seq<CachedEntry>,
    limit: nat,
    id: i32,
    message: ContextMessageView,
) -> Seq<CachedEntry> {
    if holds_id(h, id) {
        h
    } else {
        keep_last(h.push(CachedEntry { message_id: id, message }), limit)
    }
}

/// The place at which `h` first holds the id; the length of `h` where it
/// does not hold it.
pub open spec fn place_of_id(h: Seq<CachedEntry>, id: i32) -> nat
    decreases h.len(),
{
    if h.len() == 0 || h.first().message_id == id {
        0
    } else {
        1 + place_of_id(h.drop_first(), id)
    }
}

/// The entries of `h` that stand before the entry that carries `id`, by
/// their place in `h` and not by the value of their ids; all of `h` where no
/// entry carries it.
pub open spec fn preceding(h: Seq<CachedEntry>, id: i32) -> Seq<CachedEntry> {
    h.take(place_of_id(h, id) as int)
}

/// The `count` most recent of the entries of `h` that stand before the
/// entry that carries `id`, oldest first.
pub open spec fn recent_window(h: Seq<CachedEntry>, id: i32, count: nat) -> Seq<CachedEntry> {
    keep_last(preceding(h, id), count)
}

/// The messages of a run of entries, without their ids.
pub open spec fn entry_messages(h: Seq<CachedEntry>) -> Seq<ContextMessageView> {
    h.map_values(|e: CachedEntry| e.message)
}

/// The scopes whose conversation is one of `chats`.
pub open spec fn scopes_of(chats: Set<i64>) -> Set<ContextScope> {
    Set::new(|s: ContextScope| chats.contains(s.chat_id))
}

/// What a [`ContextCache`] holds.
pub struct ContextCacheView {
    /// Most entries that one scope may hold.
    pub per_chat_limit: nat,
    /// The history of each scope that was ever written to, oldest entry first.
    pub entries: Map<ContextScope, Seq<CachedEntry>>,
    /// The scopes for which a backfill was already attempted.
    pub hydrated_scopes: Set<ContextScope>,
}

impl ContextCacheView {
    /// The history of a scope; empty where nothing was recorded.
    pub open spec fn history(self, scope: ContextScope) -> Seq<CachedEntry> {
        if self.entries.contains_key(scope) {
            self.entries[scope]
        } else {
            Seq::empty()
        }
    }

    /// Every history fits the limit and holds each id once.
    pub open spec fn inv(self) -> bool {
        forall|s: ContextScope| #[trigger]
            self.entries.contains_key(s) ==> self.entries[s].len() <= self.per_chat_limit
                && ids_unique(self.entries[s])
    }

    /// The cache after a message was recorded under a scope. Only that scope
    /// changes.
    pub open spec fn record_message(
        self,
        scope: ContextScope,
        id: i32,
        message: ContextMessageView,
    ) -> ContextCacheView {
        ContextCacheView {
            entries: self.entries.insert(
                scope,
                recorded(self.history(scope), self.per_chat_limit, id, message),
            ),
            ..self
        }
    }

    /// The cache after an incoming message was observed: unchanged where its
    /// text is blank, else with the message recorded under the name of its
    /// sender and with its text trimmed.
    pub open spec fn observe(
        self,
        scope: ContextScope,
        id: i32,
        outgoing: bool,
        peer_name: Option<Seq<char>>,
        text: Seq<char>,
    ) -> ContextCacheView {
        if trimmed(text).len() == 0 {
            self
        } else {
            self.record_message(
                scope,
                id,
                ContextMessageView {
                    sender_name: crate::context::sender_name_of(outgoing, peer_name),
                    text: trimmed(text),
                },
            )
        }
    }

    /// The cache under a new limit, with every history cut to it from the
    /// front.
    pub open spec fn set_per_chat_limit(self, limit: nat) -> ContextCacheView {
        ContextCacheView {
            per_chat_limit: limit,
            entries: self.entries.map_values(|h: Seq<CachedEntry>| keep_last(h, limit)),
            ..self
        }
    }

    /// The cache without the scopes, and the hydration flags, of the
    /// conversations that are not among `chats`.
    pub open spec fn retain_chats(self, chats: Set<i64>) -> ContextCacheView {
        ContextCacheView {
            entries: self.entries.restrict(scopes_of(chats)),
            hydrated_scopes: self.hydrated_scopes.intersect(scopes_of(chats)),
            ..self
        }
    }

    /// The cache with the scope marked as backfilled.
    pub open spec fn mark_hydrated(self, scope: ContextScope) -> ContextCacheView {
        ContextCacheView { hydrated_scopes: self.hydrated_scopes.insert(scope), ..self }
    }

    /// The `count` most recent messages of the scope that stand before the
    /// message `id` in the scope's history, oldest first; where the history
    /// does not hold `id`, its `count` most recent messages.
    pub open spec fn recent_before(
        self,
        scope: ContextScope,
        id: i32,
        count: nat,
    ) -> Seq<ContextMessageView> {
        entry_messages(recent_window(self.history(scope), id, count))
    }

    /// Whether history is to be fetched for the scope: some is wanted, the
    /// cache gave less, and the scope was not backfilled before.
    pub open spec fn should_backfill(
        self,
        scope: ContextScope,
        count: nat,
        cached_count: nat,
    ) -> bool {
        count > 0 && cached_count < count && !self.hydrated_scopes.contains(scope)
    }
}

spec fn cached_views(messages: Seq<CachedContextMessage>) -> Seq<CachedEntry> {
    messages.map_values(|m: CachedContextMessage| m@)
}

/// The history that the first entry for `scope` holds.
spec fn lookup(entries: Seq<ScopeHistory>, scope: ContextScope) -> Option<Seq<CachedEntry>>
    decreases entries.len(),
{
    if entries.len() == 0 {
        None
    } else {
        match lookup(entries.drop_last(), scope) {
            Some(h) => Some(h),
            None => if entries.last().scope == scope {
                Some(cached_views(entries.last().messages@))
            } else {
                None
            },
        }
    }
}

spec fn entries_map(entries: Seq<ScopeHistory>) -> Map<ContextScope, Seq<CachedEntry>> {
    Map::new(
        |s: ContextScope| lookup(entries, s) is Some,
        |s: ContextScope| lookup(entries, s)->0,
    )
}

proof fn lemma_lookup_first(entries: Seq<ScopeHistory>, scope: ContextScope, i: int)
    requires
        0 <= i < entries.len(),
        entries[i].scope == scope,
        forall|j: int| 0 <= j < i ==> entries[j].scope != scope,
    ensures
        lookup(entries, scope) == Some(cached_views(entries[i].messages@)),
    decreases entries.len(),
{
    if i < entries.len() - 1 {
        lemma_lookup_first(entries.drop_last(), scope, i);
    } else {
        lemma_lookup_absent(entries.drop_last(), scope);
    }
}

proof fn lemma_lookup_absent(entries: Seq<ScopeHistory>, scope: ContextScope)
    requires
        forall|j: int| 0 <= j < entries.len() ==> entries[j].scope != scope,
    ensures
        lookup(entries, scope) is None,
    decreases entries.len(),
{
    if entries.len() > 0 {
        lemma_lookup_absent(entries.drop_last(), scope);
    }
}

proof fn lemma_lookup_mapped(
    before: Seq<ScopeHistory>,
    after: Seq<ScopeHistory>,
    scope: ContextScope,
    f: spec_fn(Seq<CachedEntry>) -> Seq<CachedEntry>,
)
    requires
        before.len() == after.len(),
        forall|j: int| 0 <= j < before.len() ==> after[j].scope == before[j].scope,
        forall|j: int|
            0 <= j < before.len() && before[j].scope == scope ==> cached_views(after[j].messages@)
                == f(cached_views(before[j].messages@)),
    ensures
        lookup(after, scope) == match lookup(before, scope) {
            Some(h) => Some(f(h)),
            None => None,
        },
    decreases before.len(),
{
    if before.len() > 0 {
        lemma_lookup_mapped(before.drop_last(), after.drop_last(), scope, f);
    }
}

spec fn scopes_distinct(entries: Seq<ScopeHistory>) -> bool {
    forall|i: int, j: int|
        0 <= i < j < entries.len() ==> #[trigger] entries[i].scope != #[trigger] entries[j].scope
}

spec fn fits(entry: ScopeHistory, limit: nat) -> bool {
    entry.messages@.len() <= limit && ids_unique(cached_views(entry.messages@))
}

spec fn all_fit(entries: Seq<ScopeHistory>, limit: nat) -> bool {
    forall|i: int| 0 <= i < entries.len() ==> fits(#[trigger] entries[i], limit)
}

proof fn lemma_lookup_fits(entries: Seq<ScopeHistory>, limit: nat, scope: ContextScope)
    requires
        all_fit(entries, limit),
    ensures
        match lookup(entries, scope) {
            Some(h) => h.len() <= limit && ids_unique(h),
            None => true,
        },
    decreases entries.len(),
{
    if entries.len() > 0 {
        assert(fits(entries.last(), limit));
        assert forall|i: int| 0 <= i < entries.drop_last().len() implies fits(
            #[trigger] entries.drop_last()[i],
            limit,
        ) by {
            assert(entries.drop_last()[i] == entries[i]);
        }
        lemma_lookup_fits(entries.drop_last(), limit, scope);
    }
}

/// A cache of recent messages, kept apart by scope and bounded per scope.
pub struct ContextCache {
    per_chat_limit: usize,
    entries: Vec<ScopeHistory>,
    hydrated_scopes: Vec<ContextScope>,
}

impl View for ContextCache {
    type V = ContextCacheView;

    closed spec fn view(&self) -> ContextCacheView {
        ContextCacheView {
            per_chat_limit: self.per_chat_limit as nat,
            entries: entries_map(self.entries@),
            hydrated_scopes: self.hydrated_scopes@.to_set(),
        }
    }
}

/// Drops entries from the front until at most `limit` are left.
fn trim_front(messages: &mut VecDeque<CachedContextMessage>, limit: usize)
    ensures
        cached_views(final(messages)@) == keep_last(cached_views(old(messages)@), limit as nat),
{
    let ghost before = messages@;
    let mut dropped: usize = 0;
    while messages.len() > limit
        invariant
            dropped + messages.len() == before.len(),
            before.len() == old(messages).len(),
            dropped == 0 || messages.len() >= limit,
            messages@ == before.skip(dropped as int),
        decreases messages.len(),
    {
        let _ = messages.pop_front();
        dropped = dropped + 1;
        assert(messages@ =~= before.skip(dropped as int));
    }
    proof {
        let views = cached_views(before);
        if before.len() <= limit {
            assert(before.skip(0) =~= before);
        } else {
            assert(cached_views(messages@) =~= views.skip(views.len() - limit));
        }
    }
}

/// The position of the first entry for `scope`, if there is one.
fn position_in(entries: &Vec<ScopeHistory>, scope: ContextScope) -> (r: Option<usize>)
    ensures
        match r {
            Some(i) => i < entries.len() && entries[i as int].scope == scope && lookup(
                entries@,
                scope,
            ) == Some(cached_views(entries[i as int].messages@)) && forall|j: int|
                0 <= j < i ==> entries[j].scope != scope,
            None => lookup(entries@, scope) is None && forall|j: int|
                0 <= j < entries.len() ==> entries[j].scope != scope,
        },
{
    let mut i: usize = 0;
    while i < entries.len()
        invariant
            i <= entries.len(),
            forall|j: int| 0 <= j < i ==> entries[j].scope != scope,
        decreases entries.len() - i,
    {
        if entries[i].scope.same_as(&scope) {
            proof {
                lemma_lookup_first(entries@, scope, i as int);
            }
            return Some(i);
        }
        i = i + 1;
    }
    proof {
        lemma_lookup_absent(entries@, scope);
    }
    None
}

impl ContextCache {
    /// No scope and no hydration flag is held twice, and every history fits
    /// the limit and holds each id once.
    #[verifier::type_invariant]
    spec fn well_formed(self) -> bool {
        &&& scopes_distinct(self.entries@)
        &&& self.hydrated_scopes@.no_duplicates()
        &&& all_fit(self.entries@, self.per_chat_limit as nat)
    }

    proof fn lemma_view_inv(self)
        requires
            all_fit(self.entries@, self.per_chat_limit as nat),
        ensures
            self@.inv(),
    {
        assert forall|s: ContextScope| #[trigger]
            self@.entries.contains_key(s) implies self@.entries[s].len() <= self@.per_chat_limit
            && ids_unique(self@.entries[s]) by {
            lemma_lookup_fits(self.entries@, self.per_chat_limit as nat, s);
        }
    }

    /// An empty cache that keeps at most `per_chat_limit` messages per scope.
    pub fn new(per_chat_limit: usize) -> (cache: Self)
        ensures
            cache@.per_chat_limit == per_chat_limit,
            cache@.entries == Map::<ContextScope, Seq<CachedEntry>>::empty(),
            cache@.hydrated_scopes == Set::<ContextScope>::empty(),
            cache@.inv(),
    {
        let cache = ContextCache {
            per_chat_limit,
            entries: Vec::new(),
            hydrated_scopes: Vec::new(),
        };
        proof {
            assert(cache@.entries =~= Map::<ContextScope, Seq<CachedEntry>>::empty());
            assert(cache@.hydrated_scopes =~= Set::<ContextScope>::empty());
        }
        cache
    }

    /// The position of the first entry for `scope`, if there is one.
    fn position_of(&self, scope: ContextScope) -> (r: Option<usize>)
        ensures
            match r {
                Some(i) => i < self.entries.len() && self.entries[i as int].scope == scope
                    && lookup(self.entries@, scope) == Some(
                    cached_views(self.entries[i as int].messages@),
                ),
                None => lookup(self.entries@, scope) is None,
            },
    {
        position_in(&self.entries, scope)
    }

    /// Changes the per-scope limit and trims every history to it, oldest
    /// entries first.
    pub fn set_per_chat_limit(&mut self, per_chat_limit: usize)
        ensures
            final(self)@ == old(self)@.set_per_chat_limit(per_chat_limit as nat),
            final(self)@.inv(),
    {
        proof {
            use_type_invariant(&*self);
        }
        let ghost before = self.entries@;
        let ghost old_limit = self.per_chat_limit as nat;
        let ghost f = |h: Seq<CachedEntry>| keep_last(h, per_chat_limit as nat);
        let mut entries: Vec<ScopeHistory> = Vec::new();
        std::mem::swap(&mut entries, &mut self.entries);
        self.per_chat_limit = per_chat_limit;
        let mut i: usize = 0;
        while i < entries.len()
            invariant
                i <= entries.len(),
                entries.len() == before.len(),
                forall|j: int| 0 <= j < before.len() ==> entries[j].scope == before[j].scope,
                forall|j: int|
                    0 <= j < i ==> cached_views(entries[j].messages@) == keep_last(
                        cached_views(before[j].messages@),
                        per_chat_limit as nat,
                    ),
                forall|j: int| i <= j < before.len() ==> entries[j] == before[j],
            decreases entries.len() - i,
        {
            trim_front(&mut entries[i].messages, per_chat_limit);
            i = i + 1;
        }
        proof {
            let after = entries@;
            assert forall|s: ContextScope| #[trigger]
                lookup(after, s) == match lookup(before, s) {
                    Some(h) => Some(f(h)),
                    None => None,
                } by {
                lemma_lookup_mapped(before, after, s, f);
            }
            assert forall|j: int| 0 <= j < after.len() implies fits(
                #[trigger] after[j],
                per_chat_limit as nat,
            ) by {
                assert(fits(before[j], old_limit));
                lemma_keep_last_unique(cached_views(before[j].messages@), per_chat_limit as nat);
                assert(cached_views(after[j].messages@).len() == after[j].messages@.len());
            }
            assert forall|a: int, b: int| 0 <= a < b < after.len() implies after[a].scope
                != after[b].scope by {
                assert(before[a].scope != before[b].scope);
            }
        }
        self.entries = entries;
        proof {
            assert(self@.entries =~= old(self)@.set_per_chat_limit(
                per_chat_limit as nat,
            ).entries);
            self.lemma_view_inv();
        }
    }

    /// Forgets every scope, and every hydration flag, whose conversation is
    /// not one of `chats`.
    pub fn retain_chats(&mut self, chats: &HashSet<i64>)
        ensures
            final(self)@ == old(self)@.retain_chats(chats@),
            final(self)@.inv(),
    {
        broadcast use vstd::std_specs::hash::group_hash_axioms;

        proof {
            use_type_invariant(&*self);
        }
        let ghost before = self.entries@;
        let ghost limit = self.per_chat_limit as nat;
        let ghost allowed = scopes_of(chats@);
        let total: usize = self.entries.len();
        let mut kept: Vec<ScopeHistory> = Vec::new();
        let mut rest: Vec<ScopeHistory> = Vec::new();
        std::mem::swap(&mut rest, &mut self.entries);
        let mut i: usize = 0;
        while rest.len() > 0
            invariant
                i + rest.len() == before.len(),
                before.len() == total,
                rest@ == before.skip(i as int),
                scopes_distinct(before),
                all_fit(before, limit),
                scopes_distinct(kept@),
                all_fit(kept@, limit),
                forall|a: int|
                    0 <= a < kept.len() ==> exists|p: int|
                        0 <= p < i && #[trigger] kept[a].scope == before[p].scope,
                forall|s: ContextScope| #[trigger]
                    lookup(kept@, s) == if allowed.contains(s) {
                        lookup(before.take(i as int), s)
                    } else {
                        None
                    },
                allowed == scopes_of(chats@),
            decreases rest.len(),
        {
            let entry = rest.remove(0);
            proof {
                assert(before.take(i + 1).drop_last() =~= before.take(i as int));
                assert(before.take(i + 1).last() == entry);
                assert(rest@ =~= before.skip(i + 1));
                assert(entry == before[i as int]);
                assert(fits(before[i as int], limit));
            }
            let ghost kept_before = kept@;
            if chats.contains(&entry.scope.chat_id) {
                kept.push(entry);
                proof {
                    assert forall|a: int, b: int| 0 <= a < b < kept@.len() implies kept@[a].scope
                        != kept@[b].scope by {
                        if b == kept@.len() - 1 {
                            let p = choose|p: int|
                                0 <= p < i && kept_before[a].scope == before[p].scope;
                            assert(before[p].scope != before[i as int].scope);
                        } else {
                            assert(kept@[a] == kept_before[a]);
                            assert(kept@[b] == kept_before[b]);
                        }
                    }
                    assert forall|a: int| 0 <= a < kept@.len() implies fits(
                        #[trigger] kept@[a],
                        limit,
                    ) by {
                        if a < kept_before.len() {
                            assert(kept@[a] == kept_before[a]);
                        }
                    }
                }
            }
            proof {
                assert(kept@ == kept_before || kept@.drop_last() =~= kept_before);
                assert forall|a: int| 0 <= a < kept.len() implies exists|p: int|
                    0 <= p < i + 1 && #[trigger] kept[a].scope == before[p].scope by {
                    if a < kept_before.len() {
                        let p = choose|p: int|
                            0 <= p < i && kept_before[a].scope == before[p].scope;
                        assert(kept[a] == kept_before[a]);
                        assert(kept[a].scope == before[p].scope);
                    } else {
                        assert(kept[a].scope == before[i as int].scope);
                    }
                }
                assert forall|s: ContextScope| #[trigger]
                    lookup(kept@, s) == if allowed.contains(s) {
                        lookup(before.take(i + 1), s)
                    } else {
                        None
                    } by {
                    assert(lookup(kept_before, s) == if allowed.contains(s) {
                        lookup(before.take(i as int), s)
                    } else {
                        None
                    });
                }
            }
            i = i + 1;
        }
        self.entries = kept;
        let ghost marks = self.hydrated_scopes@;
        let mut kept_marks: Vec<ContextScope> = Vec::new();
        let mut k: usize = 0;
        while k < self.hydrated_scopes.len()
            invariant
                k <= self.hydrated_scopes.len(),
                self.hydrated_scopes@ == marks,
                marks.no_duplicates(),
                kept_marks@.no_duplicates(),
                allowed == scopes_of(chats@),
                forall|a: int|
                    0 <= a < kept_marks.len() ==> exists|p: int|
                        0 <= p < k && #[trigger] kept_marks[a] == marks[p],
                kept_marks@.to_set() == marks.take(k as int).to_set().intersect(allowed),
            decreases self.hydrated_scopes.len() - k,
        {
            let scope = self.hydrated_scopes[k];
            let ghost marks_before = kept_marks@;
            proof {
                assert(marks.take(k + 1) =~= marks.take(k as int).push(scope));
                lemma_to_set_push(marks.take(k as int), scope);
                lemma_to_set_push(kept_marks@, scope);
            }
            if chats.contains(&scope.chat_id) {
                kept_marks.push(scope);
                proof {
                    assert(kept_marks@.to_set() =~= marks.take(k + 1).to_set().intersect(allowed));
                    assert forall|a: int, b: int|
                        0 <= a < kept_marks@.len() && 0 <= b < kept_marks@.len() && a
                            != b implies kept_marks@[a] != kept_marks@[b] by {
                        let lo = if a < b {
                            a
                        } else {
                            b
                        };
                        let hi = if a < b {
                            b
                        } else {
                            a
                        };
                        if hi == kept_marks@.len() - 1 {
                            let p = choose|p: int| 0 <= p < k && marks_before[lo] == marks[p];
                            assert(marks[p] != marks[k as int]);
                        } else {
                            assert(kept_marks@[lo] == marks_before[lo]);
                            assert(kept_marks@[hi] == marks_before[hi]);
                        }
                    }
                }
            } else {
                assert(kept_marks@.to_set() =~= marks.take(k + 1).to_set().intersect(allowed));
            }
            proof {
                assert forall|a: int| 0 <= a < kept_marks.len() implies exists|p: int|
                    0 <= p < k + 1 && #[trigger] kept_marks[a] == marks[p] by {
                    if a < marks_before.len() {
                        let p = choose|p: int| 0 <= p < k && marks_before[a] == marks[p];
                        assert(kept_marks[a] == marks[p]);
                    } else {
                        assert(kept_marks[a] == marks[k as int]);
                    }
                }
            }
            k = k + 1;
        }
        proof {
            assert(marks.take(k as int) =~= marks);
            assert(before.take(i as int) =~= before);
        }
        self.hydrated_scopes = kept_marks;
        proof {
            assert(self@.entries =~= old(self)@.retain_chats(chats@).entries);
            self.lemma_view_inv();
        }
    }

    /// Records a message under its scope unless the scope already holds its
    /// id, then trims the scope to the limit.
    pub fn record_message(&mut self, scope: ContextScope, message_id: i32, message: ContextMessage)
        ensures
            final(self)@ == old(self)@.record_message(scope, message_id, message@),
            final(self)@.inv(),
    {
        proof {
            use_type_invariant(&*self);
        }
        let ghost before = self.entries@;
        let limit = self.per_chat_limit;
        let mut entries: Vec<ScopeHistory> = Vec::new();
        std::mem::swap(&mut entries, &mut self.entries);
        let found = position_in(&entries, scope);
        let at: usize = match found {
            Some(i) => i,
            None => {
                entries.push(ScopeHistory { scope, messages: VecDeque::new() });
                proof {
                    assert(entries@.drop_last() =~= before);
                    lemma_lookup_first(entries@, scope, before.len() as int);
                    assert(cached_views(Seq::<CachedContextMessage>::empty()) =~= Seq::<
                        CachedEntry,
                    >::empty());
                }
                entries.len() - 1
            },
        };
        let ghost mid = entries@;
        let ghost h = old(self)@.history(scope);
        assert(cached_views(mid[at as int].messages@) == h);
        assert(forall|s: ContextScope| s != scope ==> lookup(mid, s) == lookup(before, s)) by {
            if found is None {
                assert(mid.drop_last() =~= before);
            }
        }
        assert(scopes_distinct(mid) && all_fit(mid, limit as nat)) by {
            assert forall|j: int| 0 <= j < mid.len() implies fits(
                #[trigger] mid[j],
                limit as nat,
            ) by {
                if j < before.len() {
                    assert(mid[j] == before[j]);
                    assert(fits(before[j], limit as nat));
                } else {
                    assert(cached_views(mid[j].messages@) =~= Seq::<CachedEntry>::empty());
                }
            }
            assert forall|a: int, b: int| 0 <= a < b < mid.len() implies mid[a].scope
                != mid[b].scope by {
                if b < before.len() {
                    assert(mid[a] == before[a] && mid[b] == before[b]);
                } else {
                    assert(mid[a] == before[a]);
                }
            }
        }
        let present = holds_message(&entries[at].messages, message_id);
        if !present {
            let entry = &mut entries[at];
            entry.messages.push_back(CachedContextMessage { message_id, message });
            proof {
                assert(cached_views(entry.messages@) =~= h.push(
                    CachedEntry { message_id, message: message@ },
                ));
            }
            trim_front(&mut entry.messages, limit);
        }
        proof {
            let after = entries@;
            let g = |x: Seq<CachedEntry>| x;
            assert(after.len() == mid.len());
            assert(forall|j: int| 0 <= j < mid.len() && j != at ==> after[j] == mid[j]);
            assert(after[at as int].scope == scope);
            lemma_lookup_first(after, scope, at as int);
            assert forall|s: ContextScope| s != scope implies lookup(after, s) == lookup(
                mid,
                s,
            ) by {
                lemma_lookup_mapped(mid, after, s, g);
            }
            assert forall|a: int, b: int| 0 <= a < b < after.len() implies after[a].scope
                != after[b].scope by {
                assert(mid[a].scope != mid[b].scope);
            }
            assert forall|j: int| 0 <= j < after.len() implies fits(
                #[trigger] after[j],
                limit as nat,
            ) by {
                assert(fits(mid[j], limit as nat));
                if j == at && !present {
                    let pushed = h.push(CachedEntry { message_id, message: message@ });
                    assert(ids_unique(pushed));
                    lemma_keep_last_unique(pushed, limit as nat);
                    assert(cached_views(after[j].messages@).len() == after[j].messages@.len());
                }
            }
        }
        self.entries = entries;
        proof {
            assert(self@.entries =~= old(self)@.record_message(
                scope,
                message_id,
                message@,
            ).entries);
            self.lemma_view_inv();
        }
    }

    /// Records what an incoming message shows of itself, unless its text is
    /// blank.
    pub fn observe_update_message(
        &mut self,
        scope: ContextScope,
        message_id: i32,
        outgoing: bool,
        peer_name: Option<&str>,
        text: &str,
    )
        ensures
            final(self)@ == old(self)@.observe(
                scope,
                message_id,
                outgoing,
                match peer_name {
                    Some(name) => Some(name@),
                    None => None,
                },
                text@,
            ),
            final(self)@.inv(),
    {
        let body = trim(text);
        if body.unicode_len() == 0 {
            proof {
                use_type_invariant(&*self);
                self.lemma_view_inv();
            }
            return ;
        }
        let sender_name = resolve_sender_name(outgoing, peer_name);
        self.record_message(
            scope,
            message_id,
            ContextMessage { sender_name, text: body.to_owned() },
        );
    }

    /// The `count` most recent messages of the scope that stand before the
    /// message `message_id` in the scope's history, oldest first. The place
    /// in the history decides, not the value of the ids. Where the history
    /// does not hold `message_id`, its `count` most recent messages are
    /// given.
    pub fn recent_before(&self, scope: ContextScope, message_id: i32, count: usize) -> (recent: Vec<
        ContextMessage,
    >)
        ensures
            crate::context::message_views(recent@) == self@.recent_before(
                scope,
                message_id,
                count as nat,
            ),
            recent.len() <= count,
    {
        let mut recent: Vec<ContextMessage> = Vec::new();
        let found = self.position_of(scope);
        let at: usize = match found {
            Some(i) => i,
            None => {
                proof {
                    let none = Seq::<CachedEntry>::empty();
                    assert(preceding(none, message_id) =~= none);
                    assert(crate::context::message_views(recent@) =~= entry_messages(none));
                }
                return recent;
            },
        };
        let messages = &self.entries[at].messages;
        let ghost h = cached_views(messages@);
        assert(h == self@.history(scope));
        let mut place: usize = 0;
        while place < messages.len() && messages[place].message_id != message_id
            invariant
                place <= messages.len(),
                h == cached_views(messages@),
                forall|j: int| 0 <= j < place ==> h[j].message_id != message_id,
            decreases messages.len() - place,
        {
            assert(h[place as int] == messages@[place as int]@);
            place = place + 1;
        }
        proof {
            if place < messages.len() {
                assert(h[place as int] == messages@[place as int]@);
            }
            lemma_place_of_id(h, message_id, place as int);
        }
        let start: usize = if count < place {
            place - count
        } else {
            0
        };
        let mut i: usize = start;
        proof {
            assert(h.subrange(start as int, place as int) =~= keep_last(
                h.take(place as int),
                count as nat,
            ));
            assert(crate::context::message_views(recent@) =~= entry_messages(
                h.subrange(start as int, start as int),
            ));
        }
        while i < place
            invariant
                start <= i <= place <= messages.len(),
                h == cached_views(messages@),
                recent.len() == i - start,
                crate::context::message_views(recent@) == entry_messages(
                    h.subrange(start as int, i as int),
                ),
            decreases place - i,
        {
            let ghost sofar = recent@;
            let copy = messages[i].message.clone();
            recent.push(copy);
            proof {
                let picked = h.subrange(start as int, i as int);
                assert(h[i as int] == messages@[i as int]@);
                assert(copy@ == h[i as int].message);
                assert(h.subrange(start as int, i + 1) =~= picked.push(h[i as int]));
                assert(crate::context::message_views(sofar.push(copy))
                    =~= crate::context::message_views(sofar).push(copy@));
                assert(entry_messages(picked.push(h[i as int])) =~= entry_messages(picked).push(
                    h[i as int].message,
                ));
            }
            i = i + 1;
        }
        recent
    }

    /// Whether the platform should be asked for history: only where some is
    /// wanted, the cache holds less, and the scope was not asked for before.
    pub fn should_backfill(&self, scope: ContextScope, count: usize, cached_count: usize) -> (r:
        bool)
        ensures
            r == self@.should_backfill(scope, count as nat, cached_count as nat),
    {
        count > 0 && cached_count < count && !self.is_hydrated(scope)
    }

    /// Whether a backfill was already attempted for the scope.
    pub fn is_hydrated(&self, scope: ContextScope) -> (r: bool)
        ensures
            r == self@.hydrated_scopes.contains(scope),
    {
        let mut i: usize = 0;
        while i < self.hydrated_scopes.len()
            invariant
                i <= self.hydrated_scopes.len(),
                forall|j: int| 0 <= j < i ==> self.hydrated_scopes[j] != scope,
            decreases self.hydrated_scopes.len() - i,
        {
            if self.hydrated_scopes[i].same_as(&scope) {
                assert(self.hydrated_scopes@.contains(scope));
                return true;
            }
            i = i + 1;
        }
        false
    }

    /// Notes that a backfill was attempted for the scope.
    pub fn mark_hydrated(&mut self, scope: ContextScope)
        ensures
            final(self)@ == old(self)@.mark_hydrated(scope),
            final(self)@.inv(),
    {
        proof {
            use_type_invariant(&*self);
        }
        if !self.is_hydrated(scope) {
            let ghost marks = self.hydrated_scopes@;
            let mut hydrated: Vec<ContextScope> = Vec::new();
            std::mem::swap(&mut hydrated, &mut self.hydrated_scopes);
            hydrated.push(scope);
            proof {
                lemma_to_set_push(marks, scope);
                assert(!marks.contains(scope));
                assert forall|a: int, b: int|
                    0 <= a < hydrated@.len() && 0 <= b < hydrated@.len() && a
                        != b implies hydrated@[a] != hydrated@[b] by {
                    if a < marks.len() && b < marks.len() {
                        assert(hydrated@[a] == marks[a] && hydrated@[b] == marks[b]);
                    } else if a < marks.len() {
                        assert(marks.contains(marks[a]));
                    } else {
                        assert(marks.contains(marks[b]));
                    }
                }
            }
            self.hydrated_scopes = hydrated;
        }
        proof {
            assert(self@.hydrated_scopes =~= old(self)@.hydrated_scopes.insert(scope));
            self.lemma_view_inv();
        }
    }
}

/// Whether some message of the list carries the id.
fn holds_message(messages: &VecDeque<CachedContextMessage>, message_id: i32) -> (r: bool)
    ensures
        r == holds_id(cached_views(messages@), message_id),
{
    let mut i: usize = 0;
    while i < messages.len()
        invariant
            i <= messages.len(),
            forall|j: int| 0 <= j < i ==> messages@[j].message_id != message_id,
        decreases messages.len() - i,
    {
        if messages[i].message_id == message_id {
            assert(cached_views(messages@)[i as int].message_id == message_id);
            return true;
        }
        i = i + 1;
    }
    assert(forall|j: int|
        0 <= j < messages.len() ==> #[trigger] cached_views(messages@)[j].message_id
            == messages@[j].message_id);
    false
}

proof fn lemma_to_set_push<A>(s: Seq<A>, a: A)
    ensures
        s.push(a).to_set() == s.to_set().insert(a),
{
    assert forall|x: A| s.push(a).to_set().contains(x) <==> s.to_set().insert(a).contains(x) by {
        if s.push(a).contains(x) {
            let i = choose|i: int| 0 <= i < s.push(a).len() && s.push(a)[i] == x;
            if i < s.len() {
                assert(s[i] == x);
            }
        }
        if s.contains(x) {
            let i = choose|i: int| 0 <= i < s.len() && s[i] == x;
            assert(s.push(a)[i] == x);
        }
        if x == a {
            assert(s.push(a)[s.len() as int] == a);
        }
    }
    assert(s.push(a).to_set() =~= s.to_set().insert(a));
}

/// Before the place of the id no entry carries it, and the entry at that
/// place, if there is one, does.
pub proof fn lemma_place_of_id_is_first(h: Seq<CachedEntry>, id: i32)
    ensures
        place_of_id(h, id) <= h.len(),
        forall|j: int| 0 <= j < place_of_id(h, id) ==> (#[trigger] h[j]).message_id != id,
        place_of_id(h, id) < h.len() ==> h[place_of_id(h, id) as int].message_id == id,
        place_of_id(h, id) == h.len() <==> !holds_id(h, id),
    decreases h.len(),
{
    if h.len() > 0 && h.first().message_id != id {
        let rest = h.drop_first();
        lemma_place_of_id_is_first(rest, id);
        let p = place_of_id(h, id);
        assert forall|j: int| 0 <= j < p implies (#[trigger] h[j]).message_id != id by {
            if j > 0 {
                assert(h[j] == rest[j - 1]);
            }
        }
        if p < h.len() {
            assert(h[p as int] == rest[p - 1]);
        }
        if holds_id(h, id) {
            let k = choose|k: int| 0 <= k < h.len() && h[k].message_id == id;
            assert(rest[k - 1].message_id == id);
        }
        if holds_id(rest, id) {
            let k = choose|k: int| 0 <= k < rest.len() && rest[k].message_id == id;
            assert(h[k + 1].message_id == id);
        }
    } else if h.len() > 0 {
        assert(h[0].message_id == id);
    }
}

proof fn lemma_place_of_id(h: Seq<CachedEntry>, id: i32, p: int)
    requires
        0 <= p <= h.len(),
        forall|j: int| 0 <= j < p ==> h[j].message_id != id,
        p < h.len() ==> h[p].message_id == id,
    ensures
        place_of_id(h, id) == p,
{
    lemma_place_of_id_is_first(h, id);
    let q = place_of_id(h, id) as int;
    if q < p {
        assert(h[q].message_id == id);
    } else if p < q {
        assert(h[p].message_id != id);
    }
}

/// What `recent_before` hands out is a run of the history, in the order of
/// the history: the run that ends just before the message asked about, or
/// at the end of the history where it does not hold that message. The run
/// holds `count` entries, or all that stand before that place where they
/// are fewer; none of them carries the id asked about, and none stands
/// behind it.
pub proof fn law_recent_before_window(
    cache: ContextCacheView,
    scope: ContextScope,
    id: i32,
    count: nat,
)
    ensures
        ({
            let h = cache.history(scope);
            let p = place_of_id(h, id) as int;
            let w = recent_window(h, id, count);
            &&& cache.recent_before(scope, id, count) == entry_messages(w)
            &&& cache.recent_before(scope, id, count).len() == w.len()
            &&& p <= h.len()
            &&& p < h.len() ==> h[p].message_id == id
            &&& p == h.len() <==> !holds_id(h, id)
            &&& w.len() == if count <= p {
                count as int
            } else {
                p
            }
            &&& w == h.subrange(p - w.len(), p)
            &&& forall|i: int| 0 <= i < w.len() ==> #[trigger] w[i].message_id != id
            &&& count == 0 ==> cache.recent_before(scope, id, count) == Seq::<
                ContextMessageView,
            >::empty()
        }),
{
    let h = cache.history(scope);
    lemma_place_of_id_is_first(h, id);
    let p = place_of_id(h, id) as int;
    let w = recent_window(h, id, count);
    assert(w =~= h.subrange(p - w.len(), p));
    assert forall|i: int| 0 <= i < w.len() implies #[trigger] w[i].message_id != id by {
        assert(w[i] == h[p - w.len() + i]);
    }
    if count == 0 {
        assert(entry_messages(w) =~= Seq::<ContextMessageView>::empty());
    }
}

/// Recording an id that the scope has just been given changes nothing,
/// whatever the second message says: no second entry, no change of length.
pub proof fn law_record_same_id_twice(
    cache: ContextCacheView,
    scope: ContextScope,
    id: i32,
    first: ContextMessageView,
    second: ContextMessageView,
)
    ensures
        cache.record_message(scope, id, first).record_message(scope, id, second)
            == cache.record_message(scope, id, first),
        cache.record_message(scope, id, first).record_message(scope, id, second).history(
            scope,
        ).len() == cache.record_message(scope, id, first).history(scope).len(),
{
    let h = cache.history(scope);
    let once = cache.record_message(scope, id, first);
    let h1 = recorded(h, cache.per_chat_limit, id, first);
    assert(once.history(scope) == h1);
    if !holds_id(h, id) {
        let pushed = h.push(CachedEntry { message_id: id, message: first });
        if cache.per_chat_limit == 0 {
            assert(h1.len() == 0);
            let again = h1.push(CachedEntry { message_id: id, message: second });
            assert(keep_last(again, 0) =~= h1);
            assert(!holds_id(h1, id));
        } else {
            assert(h1.last() == pushed.last());
            assert(h1[h1.len() - 1].message_id == id);
        }
    }
    assert(recorded(h1, cache.per_chat_limit, id, second) == h1);
    assert(once.record_message(scope, id, second).entries =~= once.entries);
}

/// Observing a message a second time leaves the cache as the first
/// observation left it, even where the text differs.
pub proof fn law_observe_same_id_twice(
    cache: ContextCacheView,
    scope: ContextScope,
    id: i32,
    outgoing: bool,
    peer_name: Option<Seq<char>>,
    text: Seq<char>,
    outgoing_again: bool,
    peer_name_again: Option<Seq<char>>,
    text_again: Seq<char>,
)
    requires
        trimmed(text).len() > 0,
    ensures
        cache.observe(scope, id, outgoing, peer_name, text).observe(
            scope,
            id,
            outgoing_again,
            peer_name_again,
            text_again,
        ) == cache.observe(scope, id, outgoing, peer_name, text),
{
    let first = ContextMessageView {
        sender_name: crate::context::sender_name_of(outgoing, peer_name),
        text: trimmed(text),
    };
    let second = ContextMessageView {
        sender_name: crate::context::sender_name_of(outgoing_again, peer_name_again),
        text: trimmed(text_again),
    };
    law_record_same_id_twice(cache, scope, id, first, second);
}

/// Whether two caches answer alike for one scope: the same history, hence
/// the same windows, and the same hydration flag.
pub open spec fn same_for_scope(
    a: ContextCacheView,
    b: ContextCacheView,
    scope: ContextScope,
) -> bool {
    &&& a.history(scope) == b.history(scope)
    &&& a.hydrated_scopes.contains(scope) == b.hydrated_scopes.contains(scope)
    &&& forall|id: i32, count: nat| #[trigger]
        a.recent_before(scope, id, count) == b.recent_before(scope, id, count)
    &&& forall|count: nat, cached_count: nat| #[trigger]
        a.should_backfill(scope, count, cached_count) == b.should_backfill(
            scope,
            count,
            cached_count,
        )
}

/// Scopes are kept apart: what is recorded, observed or marked in one scope
/// is invisible in every other one, also in another topic of the same
/// conversation.
pub proof fn law_scopes_isolated(
    cache: ContextCacheView,
    touched: ContextScope,
    other: ContextScope,
    id: i32,
    message: ContextMessageView,
    outgoing: bool,
    peer_name: Option<Seq<char>>,
    text: Seq<char>,
)
    requires
        touched != other,
    ensures
        same_for_scope(cache.record_message(touched, id, message), cache, other),
        same_for_scope(cache.observe(touched, id, outgoing, peer_name, text), cache, other),
        same_for_scope(cache.mark_hydrated(touched), cache, other),
{
}

/// Two topics of one conversation are different scopes.
pub proof fn law_topics_are_distinct_scopes(chat_id: i64, a: Option<i32>, b: Option<i32>)
    requires
        a != b,
    ensures
        (ContextScope { chat_id, topic_root_id: a }) != (ContextScope {
            chat_id,
            topic_root_id: b,
        }),
{
}

/// A backfill is asked for at most once per scope: asking changes nothing,
/// marking the scope silences the question for good, whatever is recorded or
/// however the limit changes, and only dropping the scope's conversation
/// opens it again.
pub proof fn law_backfill_once_per_scope(
    cache: ContextCacheView,
    scope: ContextScope,
    count: nat,
    cached_count: nat,
    chats: Set<i64>,
    id: i32,
    message: ContextMessageView,
    limit: nat,
)
    ensures
        !cache.hydrated_scopes.contains(scope) ==> cache.should_backfill(
            scope,
            count,
            cached_count,
        ) == (count > 0 && cached_count < count),
        !cache.mark_hydrated(scope).should_backfill(scope, count, cached_count),
        cache.mark_hydrated(scope).mark_hydrated(scope) == cache.mark_hydrated(scope),
        !cache.mark_hydrated(scope).record_message(scope, id, message).should_backfill(
            scope,
            count,
            cached_count,
        ),
        !cache.mark_hydrated(scope).set_per_chat_limit(limit).should_backfill(
            scope,
            count,
            cached_count,
        ),
        chats.contains(scope.chat_id) ==> !cache.mark_hydrated(scope).retain_chats(
            chats,
        ).should_backfill(scope, count, cached_count),
        !chats.contains(scope.chat_id) ==> cache.mark_hydrated(scope).retain_chats(
            chats,
        ).should_backfill(scope, count, cached_count) == (count > 0 && cached_count < count),
{
    assert(cache.mark_hydrated(scope).mark_hydrated(scope).hydrated_scopes
        =~= cache.mark_hydrated(scope).hydrated_scopes);
}

/// Dropping a conversation purges it: no history and no hydration flag is
/// left for any of its scopes, and the other conversations keep theirs.
pub proof fn law_retain_chats_purges(cache: ContextCacheView, chats: Set<i64>, scope: ContextScope)
    ensures
        !chats.contains(scope.chat_id) ==> cache.retain_chats(chats).history(scope) == Seq::<
            CachedEntry,
        >::empty() && !cache.retain_chats(chats).hydrated_scopes.contains(scope),
        chats.contains(scope.chat_id) ==> same_for_scope(cache.retain_chats(chats), cache, scope),
{
}

proof fn lemma_record_keeps_invariant(
    cache: ContextCacheView,
    scope: ContextScope,
    id: i32,
    message: ContextMessageView,
)
    requires
        cache.inv(),
    ensures
        cache.record_message(scope, id, message).inv(),
{
    let h = cache.history(scope);
    assert(h.len() <= cache.per_chat_limit && ids_unique(h));
    let pushed = h.push(CachedEntry { message_id: id, message });
    if !holds_id(h, id) {
        assert(ids_unique(pushed));
        lemma_keep_last_unique(pushed, cache.per_chat_limit);
    }
    let after = cache.record_message(scope, id, message);
    assert forall|s: ContextScope| #[trigger]
        after.entries.contains_key(s) implies after.entries[s].len() <= after.per_chat_limit
        && ids_unique(after.entries[s]) by {
        if s != scope {
            assert(cache.entries.contains_key(s));
        }
    }
}

proof fn lemma_limit_keeps_invariant(cache: ContextCacheView, limit: nat)
    requires
        cache.inv(),
    ensures
        cache.set_per_chat_limit(limit).inv(),
{
    let after = cache.set_per_chat_limit(limit);
    assert forall|s: ContextScope| #[trigger]
        after.entries.contains_key(s) implies after.entries[s].len() <= limit && ids_unique(
        after.entries[s],
    ) by {
        assert(cache.entries.contains_key(s));
        lemma_keep_last_unique(cache.entries[s], limit);
    }
}

proof fn lemma_retain_keeps_invariant(cache: ContextCacheView, chats: Set<i64>)
    requires
        cache.inv(),
    ensures
        cache.retain_chats(chats).inv(),
{
    let after = cache.retain_chats(chats);
    assert forall|s: ContextScope| #[trigger]
        after.entries.contains_key(s) implies after.entries[s].len() <= after.per_chat_limit
        && ids_unique(after.entries[s]) by {
        assert(cache.entries.contains_key(s));
    }
}

/// Every operation keeps each history within the limit and free of repeated
/// ids.
pub proof fn law_cache_invariant_kept(
    cache: ContextCacheView,
    scope: ContextScope,
    id: i32,
    message: ContextMessageView,
    outgoing: bool,
    peer_name: Option<Seq<char>>,
    text: Seq<char>,
    limit: nat,
    chats: Set<i64>,
)
    requires
        cache.inv(),
    ensures
        cache.record_message(scope, id, message).inv(),
        cache.observe(scope, id, outgoing, peer_name, text).inv(),
        cache.set_per_chat_limit(limit).inv(),
        cache.retain_chats(chats).inv(),
        cache.mark_hydrated(scope).inv(),
{
    lemma_record_keeps_invariant(cache, scope, id, message);
    lemma_record_keeps_invariant(
        cache,
        scope,
        id,
        ContextMessageView {
            sender_name: crate::context::sender_name_of(outgoing, peer_name),
            text: trimmed(text),
        },
    );
    lemma_limit_keeps_invariant(cache, limit);
    lemma_retain_keeps_invariant(cache, chats);
}

proof fn lemma_keep_last_unique(h: Seq<CachedEntry>, n: nat)
    requires
        ids_unique(h),
    ensures
        ids_unique(keep_last(h, n)),
        keep_last(h, n).len() <= n,
{
}

} // verus!
