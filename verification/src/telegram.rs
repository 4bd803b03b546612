//! What the library decides about the platform's data: which topic a message
//! belongs to, which monitored conversations the account does not know, and
//! which messages of a conversation's history serve as context.

use crate::context::{resolve_sender_name, sender_name_of, ContextMessage, ContextMessageView};
use crate::context::message_views;
use crate::events::text_view;
use crate::text::{trim, trimmed};
use std::collections::HashSet;
use vstd::prelude::*;
use vstd::std_specs::iter::IteratorSpec;
use vstd::string::*;

verus! {

/// Messages of history that may be looked at for each message of context
/// that is wanted.
pub const CONTEXT_SCAN_FACTOR: usize = 20;

/// Messages of history that may be looked at in any case.
pub const CONTEXT_SCAN_MIN_MESSAGES: usize = 200;

/// Updates that the client may hold back before it drops any.
pub const UPDATE_QUEUE_LIMIT: usize = 10_000;

/// How many messages of history may be looked at to find `count` messages
/// of context: twenty for each one wanted, as far as the machine can count,
/// and never fewer than two hundred.
pub open spec fn scan_limit(count: nat) -> nat {
    let scaled = if count * CONTEXT_SCAN_FACTOR as nat > usize::MAX as nat {
        usize::MAX as nat
    } else {
        count * CONTEXT_SCAN_FACTOR as nat
    };
    if scaled < CONTEXT_SCAN_MIN_MESSAGES as nat {
        CONTEXT_SCAN_MIN_MESSAGES as nat
    } else {
        scaled
    }
}

/// How many messages of history may be looked at to find `count` messages
/// of context.
pub fn context_scan_limit(count: usize) -> (limit: usize)
    ensures
        limit == scan_limit(count as nat),
{
    let scaled: usize = if count > usize::MAX / CONTEXT_SCAN_FACTOR {
        usize::MAX
    } else {
        count * CONTEXT_SCAN_FACTOR
    };
    if scaled < CONTEXT_SCAN_MIN_MESSAGES {
        CONTEXT_SCAN_MIN_MESSAGES
    } else {
        scaled
    }
}

/// Whether the numbers rise strictly from one to the next.
pub open spec fn strictly_ascending(v: Seq<i64>) -> bool {
    forall|i: int, j: int| 0 <= i < j < v.len() ==> v[i] < v[j]
}

fn insert_ascending(v: &mut Vec<i64>, x: i64)
    requires
        strictly_ascending(old(v)@),
        !old(v)@.contains(x),
    ensures
        strictly_ascending(final(v)@),
        final(v)@.to_set() == old(v)@.to_set().insert(x),
        final(v)@.len() == old(v)@.len() + 1,
{
    let ghost before = v@;
    let mut at: usize = 0;
    while at < v.len() && v[at] < x
        invariant
            at <= v.len(),
            v@ == before,
            forall|j: int| 0 <= j < at ==> before[j] < x,
        decreases v.len() - at,
    {
        at = at + 1;
    }
    v.insert(at, x);
    proof {
        let after = v@;
        assert forall|i: int, j: int| 0 <= i < j < after.len() implies after[i] < after[j] by {
            if j == at {
                assert(after[i] == before[i]);
            } else if i == at {
                assert(after[j] == before[j - 1]);
                assert(before.contains(before[at as int]));
            } else {
                assert(after[i] == if i < at {
                    before[i]
                } else {
                    before[i - 1]
                });
                assert(after[j] == if j < at {
                    before[j]
                } else {
                    before[j - 1]
                });
            }
        }
        assert forall|y: i64| after.to_set().contains(y) <==> before.to_set().insert(x).contains(
            y,
        ) by {
            if after.contains(y) {
                let k = choose|k: int| 0 <= k < after.len() && after[k] == y;
                if k < at {
                    assert(before[k] == y);
                } else if k > at {
                    assert(before[k - 1] == y);
                }
            }
            if before.contains(y) {
                let k = choose|k: int| 0 <= k < before.len() && before[k] == y;
                if k < at {
                    assert(after[k] == y);
                } else {
                    assert(after[k + 1] == y);
                }
            }
            if y == x {
                assert(after[at as int] == x);
            }
        }
        assert(after.to_set() =~= before.to_set().insert(x));
    }
}

/// The monitored conversations that the account does not list, in rising
/// order.
pub fn unresolved_monitored_chats(
    monitored_chats: &HashSet<i64>,
    known_chat_ids: &HashSet<i64>,
) -> (unresolved: Vec<i64>)
    ensures
        unresolved@.to_set() == monitored_chats@.difference(known_chat_ids@),
        strictly_ascending(unresolved@),
{
    broadcast use vstd::std_specs::hash::group_hash_axioms;

    let mut unresolved: Vec<i64> = Vec::new();
    let ghost missing = monitored_chats@.difference(known_chat_ids@);
    let ghost all = vstd::std_specs::hash::spec_hash_keys_iter(monitored_chats).remaining();
    for chat_id in it: monitored_chats.iter()
        invariant
            it.seq() == all,
            all.unref().to_set() == monitored_chats@,
            all.no_duplicates(),
            missing == monitored_chats@.difference(known_chat_ids@),
            strictly_ascending(unresolved@),
            forall|x: i64|
                unresolved@.contains(x) <==> exists|j: int|
                    0 <= j < it.index() && *it.seq()[j] == x && !known_chat_ids@.contains(x),
    {
        let ghost at = it.index();
        let ghost sofar = unresolved@;
        if !known_chat_ids.contains(chat_id) {
            proof {
                if sofar.contains(*chat_id) {
                    let j = choose|j: int| 0 <= j < at && *it.seq()[j] == *chat_id;
                    assert(it.seq()[j] == it.seq()[at]);
                }
            }
            insert_ascending(&mut unresolved, *chat_id);
            proof {
                assert forall|x: i64| unresolved@.contains(x) <==> exists|j: int|
                    0 <= j < at + 1 && *it.seq()[j] == x && !known_chat_ids@.contains(x) by {
                    assert(unresolved@.to_set().contains(x) == sofar.to_set().insert(
                        *chat_id,
                    ).contains(x));
                    if unresolved@.contains(x) {
                        if x == *chat_id {
                            assert(*it.seq()[at] == x);
                        } else {
                            assert(sofar.contains(x));
                        }
                    }
                    if exists|j: int|
                        0 <= j < at + 1 && *it.seq()[j] == x && !known_chat_ids@.contains(x) {
                        let j = choose|j: int|
                            0 <= j < at + 1 && *it.seq()[j] == x && !known_chat_ids@.contains(x);
                        if j < at {
                            assert(sofar.contains(x));
                        }
                    }
                }
            }
        } else {
            proof {
                assert forall|x: i64| unresolved@.contains(x) <==> exists|j: int|
                    0 <= j < at + 1 && *it.seq()[j] == x && !known_chat_ids@.contains(x) by {
                    if exists|j: int|
                        0 <= j < at + 1 && *it.seq()[j] == x && !known_chat_ids@.contains(x) {
                        let j = choose|j: int|
                            0 <= j < at + 1 && *it.seq()[j] == x && !known_chat_ids@.contains(x);
                        assert(j < at);
                    }
                }
            }
        }
    }
    proof {
        assert forall|x: i64| unresolved@.to_set().contains(x) <==> missing.contains(x) by {
            if unresolved@.contains(x) {
                let j = choose|j: int|
                    0 <= j < all.len() && *all[j] == x && !known_chat_ids@.contains(x);
                assert(all.unref()[j] == x);
                assert(all.unref().to_set().contains(x));
            }
            if missing.contains(x) {
                assert(all.unref().to_set().contains(x));
                let j = choose|j: int| 0 <= j < all.unref().len() && all.unref()[j] == x;
                assert(*all[j] == x);
            }
        }
        assert(unresolved@.to_set() =~= missing);
    }
    unresolved
}

/// Holds the monitored conversations against those that the account knows:
/// all is well if it knows each of them; else the unknown ones are named,
/// in rising order.
pub fn preflight_monitored_chats(
    monitored_chats: &HashSet<i64>,
    known_chat_ids: &HashSet<i64>,
) -> (r: Result<(), Vec<i64>>)
    ensures
        match r {
            Ok(()) => monitored_chats@.subset_of(known_chat_ids@),
            Err(missing) => missing@.len() > 0 && missing@.to_set()
                == monitored_chats@.difference(known_chat_ids@) && strictly_ascending(missing@),
        },
        r is Ok <==> monitored_chats@.subset_of(known_chat_ids@),
{
    let unresolved = unresolved_monitored_chats(monitored_chats, known_chat_ids);
    if unresolved.len() == 0 {
        proof {
            assert forall|x: i64| monitored_chats@.contains(x) implies known_chat_ids@.contains(
                x,
            ) by {
                if !known_chat_ids@.contains(x) {
                    assert(monitored_chats@.difference(known_chat_ids@).contains(x));
                    assert(unresolved@.to_set().contains(x));
                    assert(unresolved@.contains(x));
                }
            }
        }
        Ok(())
    } else {
        proof {
            assert(unresolved@.to_set().contains(unresolved@[0]));
        }
        Err(unresolved)
    }
}

/// What a reply carries about the thread it belongs to.
#[derive(Debug, Clone, Copy, PartialEq, Eq)]
pub struct ReplyHeader {
    pub reply_to_top_id: Option<i32>,
    pub forum_topic: bool,
    pub reply_to_msg_id: Option<i32>,
}

/// What a message shows of the topic it belongs to.
#[derive(Debug, Clone, Copy, PartialEq, Eq)]
pub struct TopicMarkers {
    pub message_id: i32,
    /// The reply header, where the message has one of the ordinary kind.
    pub reply_header: Option<ReplyHeader>,
    /// Whether the message is the service message that opens a topic.
    pub creates_topic: bool,
}

/// The root of the topic that a message belongs to: the top of the thread
/// that its reply header names; else, in a forum topic, the message it
/// replies to; else, for the message that opens a topic, the message itself;
/// else none.
pub open spec fn topic_root_of(m: TopicMarkers) -> Option<i32> {
    let from_header = match m.reply_header {
        Some(h) => if h.reply_to_top_id is Some {
            h.reply_to_top_id
        } else if h.forum_topic {
            h.reply_to_msg_id
        } else {
            None
        },
        None => None,
    };
    if from_header is Some {
        from_header
    } else if m.creates_topic {
        Some(m.message_id)
    } else {
        None
    }
}

/// The root of the topic that a message belongs to, if it belongs to one.
pub fn message_topic_root_id(message: &TopicMarkers) -> (root: Option<i32>)
    ensures
        root == topic_root_of(*message),
{
    match message.reply_header {
        Some(reply_header) => {
            match reply_header.reply_to_top_id {
                Some(top_id) => {
                    return Some(top_id);
                },
                None => {},
            }
            if reply_header.forum_topic {
                match reply_header.reply_to_msg_id {
                    Some(reply_to_id) => {
                        return Some(reply_to_id);
                    },
                    None => {},
                }
            }
        },
        None => {},
    }
    if message.creates_topic {
        return Some(message.message_id);
    }
    None
}

/// A message of a conversation's history, reduced to plain values.
#[derive(Debug, PartialEq, Eq)]
pub struct HistoryMessage {
    pub message_id: i32,
    pub topic_root_id: Option<i32>,
    pub outgoing: bool,
    pub sender_name: Option<String>,
    pub text: String,
}

/// The values of a [`HistoryMessage`].
pub struct HistoryMessageView {
    pub message_id: i32,
    pub topic_root_id: Option<i32>,
    pub outgoing: bool,
    pub sender_name: Option<Seq<char>>,
    pub text: Seq<char>,
}

impl View for HistoryMessage {
    type V = HistoryMessageView;

    open spec fn view(&self) -> HistoryMessageView {
        HistoryMessageView {
            message_id: self.message_id,
            topic_root_id: self.topic_root_id,
            outgoing: self.outgoing,
            sender_name: text_view(self.sender_name),
            text: self.text@,
        }
    }
}

/// The context message that a message of the history gives.
pub open spec fn context_of(m: HistoryMessageView) -> ContextMessageView {
    ContextMessageView {
        sender_name: sender_name_of(m.outgoing, m.sender_name),
        text: trimmed(m.text),
    }
}

/// What a [`HistoryScan`] holds.
pub struct HistoryScanView {
    /// The message that context is sought for; it is no context of its own.
    pub message_id: i32,
    /// How many messages of context are wanted.
    pub count: usize,
    /// The topic that context is taken from.
    pub target_topic_root_id: Option<i32>,
    /// How many messages were looked at.
    pub scanned: nat,
    /// Whether the scan is over.
    pub stopped: bool,
    /// The context found so far, newest first.
    pub found: Seq<ContextMessageView>,
}

impl HistoryScanView {
    /// A scan that has looked at nothing yet. Where no context is wanted it
    /// is over at once.
    pub open spec fn begin(
        message_id: i32,
        count: usize,
        target_topic_root_id: Option<i32>,
    ) -> Self {
        HistoryScanView {
            message_id,
            count,
            target_topic_root_id,
            scanned: 0,
            stopped: count == 0,
            found: Seq::empty(),
        }
    }

    /// Whether a message serves as context: it is another message than the
    /// one context is sought for, it belongs to the topic, and it has text.
    pub open spec fn serves(self, m: HistoryMessageView) -> bool {
        m.message_id != self.message_id && m.topic_root_id == self.target_topic_root_id && trimmed(
            m.text,
        ).len() > 0
    }

    /// The scan after the next message of the history, which comes newest
    /// first. A scan that is over stays as it is. One that has looked at as
    /// many messages as it may is over, and the message is not looked at.
    /// Else the message is looked at and kept if it serves, and the scan is
    /// over once enough was found.
    pub open spec fn offer(self, m: HistoryMessageView) -> Self {
        if self.stopped {
            self
        } else if self.scanned >= scan_limit(self.count as nat) {
            HistoryScanView { stopped: true, ..self }
        } else if self.serves(m) {
            HistoryScanView {
                scanned: self.scanned + 1,
                found: self.found.push(context_of(m)),
                stopped: self.found.len() + 1 >= self.count,
                ..self
            }
        } else {
            HistoryScanView { scanned: self.scanned + 1, ..self }
        }
    }

    /// The context found, oldest first.
    pub open spec fn result(self) -> Seq<ContextMessageView> {
        self.found.reverse()
    }

    /// No more was looked at than may be, and no more was found than was
    /// wanted; a scan that found enough is over.
    pub open spec fn inv(self) -> bool {
        &&& self.scanned <= scan_limit(self.count as nat)
        &&& self.found.len() <= self.count
        &&& self.found.len() <= self.scanned
        &&& self.found.len() >= self.count ==> self.stopped
    }

    /// The scan after a run of messages.
    pub open spec fn offer_all(self, history: Seq<HistoryMessageView>) -> Self
        decreases history.len(),
    {
        if history.len() == 0 {
            self
        } else {
            self.offer_all(history.drop_last()).offer(history.last())
        }
    }
}

/// The search through a conversation's history for the messages that serve
/// as context. The driver fetches the history, newest message first, and
/// offers it one message at a time for as long as more is wanted.
pub struct HistoryScan {
    message_id: i32,
    count: usize,
    target_topic_root_id: Option<i32>,
    max_scan: usize,
    scanned: usize,
    stopped: bool,
    found: Vec<ContextMessage>,
}

impl View for HistoryScan {
    type V = HistoryScanView;

    closed spec fn view(&self) -> HistoryScanView {
        HistoryScanView {
            message_id: self.message_id,
            count: self.count,
            target_topic_root_id: self.target_topic_root_id,
            scanned: self.scanned as nat,
            stopped: self.stopped,
            found: message_views(self.found@),
        }
    }
}

impl HistoryScan {
    #[verifier::type_invariant]
    spec fn well_formed(self) -> bool {
        self.max_scan == scan_limit(self.count as nat) && self@.inv()
    }

    /// A scan for `count` messages of context for the message `message_id`, in
    /// the given topic.
    pub fn new(message_id: i32, count: usize, target_topic_root_id: Option<i32>) -> (scan: Self)
        ensures
            scan@ == HistoryScanView::begin(message_id, count, target_topic_root_id),
            scan@.inv(),
    {
        let scan = HistoryScan {
            message_id,
            count,
            target_topic_root_id,
            max_scan: context_scan_limit(count),
            scanned: 0,
            stopped: count == 0,
            found: Vec::new(),
        };
        assert(message_views(scan.found@) =~= Seq::<ContextMessageView>::empty());
        scan
    }

    /// Whether the driver is to fetch and offer another message.
    pub fn wants_more(&self) -> (more: bool)
        ensures
            more == !self@.stopped,
            self@.inv(),
    {
        proof {
            use_type_invariant(self);
        }
        !self.stopped
    }

    /// Takes the next message of the history and says whether more is
    /// wanted.
    pub fn offer(&mut self, message: &HistoryMessage) -> (more: bool)
        ensures
            final(self)@ == old(self)@.offer(message@),
            more == !final(self)@.stopped,
            final(self)@.inv(),
    {
        proof {
            use_type_invariant(&*self);
        }
        if self.stopped {
            return false;
        }
        if self.scanned >= self.max_scan {
            self.stopped = true;
            return false;
        }
        self.scanned = self.scanned + 1;
        if message.message_id == self.message_id {
            return true;
        }
        if !same_topic(message.topic_root_id, self.target_topic_root_id) {
            return true;
        }
        let text = trim(message.text.as_str());
        if text.unicode_len() == 0 {
            return true;
        }
        let peer_name: Option<&str> = match &message.sender_name {
            Some(name) => Some(name.as_str()),
            None => None,
        };
        let sender_name = resolve_sender_name(message.outgoing, peer_name);
        let ghost sofar = self.found@;
        let mut found: Vec<ContextMessage> = Vec::new();
        std::mem::swap(&mut found, &mut self.found);
        found.push(ContextMessage { sender_name, text: text.to_owned() });
        proof {
            assert(message_views(found@) =~= message_views(sofar).push(context_of(message@)));
        }
        let enough = found.len() >= self.count;
        if enough {
            self.stopped = true;
        }
        self.found = found;
        !enough
    }

    /// The context found, oldest first.
    pub fn finish(self) -> (context: Vec<ContextMessage>)
        ensures
            message_views(context@) == self@.result(),
            context.len() <= self@.count,
    {
        proof {
            use_type_invariant(&self);
        }
        let ghost all = self.found@;
        let mut found = self.found;
        let mut context: Vec<ContextMessage> = Vec::new();
        assert(message_views(context@) =~= message_views(all).reverse().take(0));
        while found.len() > 0
            invariant
                found.len() <= all.len(),
                found@ == all.take(found.len() as int),
                message_views(context@) == message_views(all).reverse().take(
                    all.len() - found.len(),
                ),
            decreases found.len(),
        {
            let ghost sofar = context@;
            let ghost left = found.len();
            let message = found.pop().unwrap();
            context.push(message);
            proof {
                let views = message_views(all);
                assert(found@ =~= all.take(found.len() as int));
                assert(message == all[left - 1]);
                assert(views.reverse()[all.len() - left] == views[left - 1]);
                assert(message_views(context@) =~= message_views(sofar).push(message@));
                assert(message_views(context@) =~= views.reverse().take(all.len() - found.len()));
            }
        }
        proof {
            let views = message_views(all);
            assert(views.reverse().take(all.len() as int) =~= views.reverse());
        }
        context
    }
}

fn same_topic(a: Option<i32>, b: Option<i32>) -> (r: bool)
    ensures
        r == (a == b),
{
    match (a, b) {
        (Some(x), Some(y)) => x == y,
        (None, None) => true,
        _ => false,
    }
}

/// However the history runs, a scan looks at no more messages than it may
/// and finds no more than were wanted; once it is over, nothing changes it;
/// and where no context is wanted, nothing is looked at.
pub proof fn law_history_scan_bounded(
    message_id: i32,
    count: usize,
    target_topic_root_id: Option<i32>,
    history: Seq<HistoryMessageView>,
    next: HistoryMessageView,
)
    ensures
        HistoryScanView::begin(message_id, count, target_topic_root_id).offer_all(history).inv(),
        HistoryScanView::begin(message_id, count, target_topic_root_id).offer_all(history).count
            == count,
        HistoryScanView::begin(message_id, count, target_topic_root_id).offer_all(
            history,
        ).result().len() <= count,
        HistoryScanView::begin(message_id, count, target_topic_root_id).offer_all(
            history,
        ).stopped ==> HistoryScanView::begin(message_id, count, target_topic_root_id).offer_all(
            history,
        ).offer(next) == HistoryScanView::begin(message_id, count, target_topic_root_id).offer_all(
            history,
        ),
        count == 0 ==> HistoryScanView::begin(message_id, count, target_topic_root_id).offer_all(
            history,
        ).scanned == 0,
    decreases history.len(),
{
    if history.len() > 0 {
        law_history_scan_bounded(
            message_id,
            count,
            target_topic_root_id,
            history.drop_last(),
            history.last(),
        );
    }
    let end = HistoryScanView::begin(message_id, count, target_topic_root_id).offer_all(history);
    assert(end.result().len() == end.found.len());
}

} // verus!
