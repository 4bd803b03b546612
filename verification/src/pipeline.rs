//! The path of one message through the rewriter: filter, dedupe check,
//! context assembly, rewrite, post-processing and commit.
//!
//! The path is cut at the three points where work outside the library is
//! due: fetching history, asking the model, and editing the message. Each
//! function here takes the path from one such point to the next and says
//! what is due then. A driver does the outside work and hands back what came
//! of it.

use crate::config::{RewriteConfig, RewriteConfigView};
use crate::context::{message_views, ContextMessage, ContextMessageView};
use crate::context_cache::{ContextCache, ContextCacheView, ContextScope};
use crate::dedupe::{DedupeCache, DedupeCacheView};
use crate::events::{str_view, text_view, RewriteEvent, RewriteEventView};
use crate::text::{str_equal, trim, trimmed, truncate_to_telegram_limit, truncated};
use vstd::prelude::*;
use vstd::string::*;

verus! {

/// The length that the platform allows a message, in UTF-16 code units.
pub const TELEGRAM_MESSAGE_MAX_CHARS: usize = 4096;

/// A message as the platform delivered it, reduced to plain values.
#[derive(Debug, PartialEq, Eq)]
pub struct IncomingMessage {
    pub chat_id: i64,
    pub topic_root_id: Option<i32>,
    pub message_id: i32,
    pub date_unix: i64,
    pub outgoing: bool,
    pub sender_name: Option<String>,
    pub text: String,
}

/// The values of an [`IncomingMessage`].
pub struct IncomingMessageView {
    pub chat_id: i64,
    pub topic_root_id: Option<i32>,
    pub message_id: i32,
    pub date_unix: i64,
    pub outgoing: bool,
    pub sender_name: Option<Seq<char>>,
    pub text: Seq<char>,
}

impl View for IncomingMessage {
    type V = IncomingMessageView;

    open spec fn view(&self) -> IncomingMessageView {
        IncomingMessageView {
            chat_id: self.chat_id,
            topic_root_id: self.topic_root_id,
            message_id: self.message_id,
            date_unix: self.date_unix,
            outgoing: self.outgoing,
            sender_name: text_view(self.sender_name),
            text: self.text@,
        }
    }
}

impl IncomingMessageView {
    /// The scope that the message belongs to.
    pub open spec fn scope(self) -> ContextScope {
        ContextScope { chat_id: self.chat_id, topic_root_id: self.topic_root_id }
    }
}

impl IncomingMessage {
    /// The scope that the message belongs to.
    pub fn scope(&self) -> (scope: ContextScope)
        ensures
            scope == self@.scope(),
    {
        ContextScope { chat_id: self.chat_id, topic_root_id: self.topic_root_id }
    }
}

/// How the handling of an update ended.
#[derive(Debug, Clone, Copy, PartialEq, Eq)]
pub enum Outcome {
    /// The update was of a kind that is not handled.
    Unsupported,
    /// The conversation is not monitored.
    Unmonitored,
    /// The message predates the start of the runtime and such messages are
    /// skipped.
    SkippedHistorical,
    /// The message was not written by the operator.
    NotOutgoing,
    /// The message was edited before, within the dedupe window.
    Duplicate,
    /// The message has no text.
    EmptyText,
    /// The model call failed; the message stays as it is.
    RewriteFailed,
    /// Nothing was left of the rewritten text.
    EmptyRewrite,
    /// The rewritten text is what the message says already.
    Unchanged,
    /// The message was edited.
    Edited,
    /// The platform refused the edit; nothing was recorded.
    EditFailed,
}

/// A message that waits for its history to be fetched.
#[derive(Debug, PartialEq, Eq)]
pub struct PendingHistory {
    pub chat_id: i64,
    pub topic_root_id: Option<i32>,
    pub message_id: i32,
    /// The trimmed text of the message.
    pub original: String,
    /// How many messages of history to ask for.
    pub count: usize,
    /// What the cache had, to fall back on if the fetch fails.
    pub cached: Vec<ContextMessage>,
}

/// The values of a [`PendingHistory`].
pub struct PendingHistoryView {
    pub chat_id: i64,
    pub topic_root_id: Option<i32>,
    pub message_id: i32,
    pub original: Seq<char>,
    pub count: usize,
    pub cached: Seq<ContextMessageView>,
}

impl View for PendingHistory {
    type V = PendingHistoryView;

    open spec fn view(&self) -> PendingHistoryView {
        PendingHistoryView {
            chat_id: self.chat_id,
            topic_root_id: self.topic_root_id,
            message_id: self.message_id,
            original: self.original@,
            count: self.count,
            cached: message_views(self.cached@),
        }
    }
}

/// A message that waits for the model's answer. It holds what the model is
/// to be given.
#[derive(Debug, PartialEq, Eq)]
pub struct PendingRewrite {
    pub chat_id: i64,
    pub message_id: i32,
    pub system_prompt: String,
    pub context: Vec<ContextMessage>,
    /// The trimmed text of the message.
    pub original: String,
}

/// The values of a [`PendingRewrite`].
pub struct PendingRewriteView {
    pub chat_id: i64,
    pub message_id: i32,
    pub system_prompt: Seq<char>,
    pub context: Seq<ContextMessageView>,
    pub original: Seq<char>,
}

impl View for PendingRewrite {
    type V = PendingRewriteView;

    open spec fn view(&self) -> PendingRewriteView {
        PendingRewriteView {
            chat_id: self.chat_id,
            message_id: self.message_id,
            system_prompt: self.system_prompt@,
            context: message_views(self.context@),
            original: self.original@,
        }
    }
}

/// A message that waits for the platform to take its new text.
#[derive(Debug, PartialEq, Eq)]
pub struct PendingEdit {
    pub chat_id: i64,
    pub message_id: i32,
    pub text: String,
}

/// The values of a [`PendingEdit`].
pub struct PendingEditView {
    pub chat_id: i64,
    pub message_id: i32,
    pub text: Seq<char>,
}

impl View for PendingEdit {
    type V = PendingEditView;

    open spec fn view(&self) -> PendingEditView {
        PendingEditView { chat_id: self.chat_id, message_id: self.message_id, text: self.text@ }
    }
}

/// Where a message stands: done, or waiting for one piece of outside work.
#[derive(Debug, PartialEq, Eq)]
pub enum MessageStep {
    Done(Outcome),
    FetchHistory(PendingHistory),
    CallModel(PendingRewrite),
    EditMessage(PendingEdit),
}

/// The values of a [`MessageStep`].
pub enum MessageStepView {
    Done(Outcome),
    FetchHistory(PendingHistoryView),
    CallModel(PendingRewriteView),
    EditMessage(PendingEditView),
}

impl View for MessageStep {
    type V = MessageStepView;

    open spec fn view(&self) -> MessageStepView {
        match *self {
            MessageStep::Done(outcome) => MessageStepView::Done(outcome),
            MessageStep::FetchHistory(pending) => MessageStepView::FetchHistory(pending@),
            MessageStep::CallModel(pending) => MessageStepView::CallModel(pending@),
            MessageStep::EditMessage(pending) => MessageStepView::EditMessage(pending@),
        }
    }
}

/// A rewritten text made ready for the platform: trimmed, then cut to the
/// platform's length.
pub open spec fn polished(rewritten: Seq<char>) -> Seq<char> {
    truncated(trimmed(rewritten), TELEGRAM_MESSAGE_MAX_CHARS as nat)
}

/// What follows once the rewritten text is known: nothing where it is empty
/// or equal to the message's own text, else the edit.
pub open spec fn with_rewritten(
    chat_id: i64,
    message_id: i32,
    original: Seq<char>,
    rewritten: Seq<char>,
) -> MessageStepView {
    let text = polished(rewritten);
    if text.len() == 0 {
        MessageStepView::Done(Outcome::EmptyRewrite)
    } else if text == original {
        MessageStepView::Done(Outcome::Unchanged)
    } else {
        MessageStepView::EditMessage(PendingEditView { chat_id, message_id, text })
    }
}

/// What follows once the context is settled: the fixed replacement text
/// where one is set, without any model call, else the model call.
pub open spec fn with_context(
    chat_id: i64,
    message_id: i32,
    original: Seq<char>,
    context: Seq<ContextMessageView>,
    system_prompt: Seq<char>,
    rewrite_override: Option<Seq<char>>,
) -> MessageStepView {
    match rewrite_override {
        Some(text) => with_rewritten(chat_id, message_id, original, text),
        None => MessageStepView::CallModel(
            PendingRewriteView { chat_id, message_id, system_prompt, context, original },
        ),
    }
}

/// The caches and the step after a message entered the pipeline.
pub struct Started {
    pub dedupe: DedupeCacheView,
    pub context: ContextCacheView,
    pub step: MessageStepView,
}

/// The first leg of the pipeline. A message of another author, one already
/// edited, or one without text ends here. Else the context is taken from
/// the cache; where the cache falls short and the scope was never
/// backfilled, the scope is marked and history is asked for.
pub open spec fn started(
    message: IncomingMessageView,
    rewrite: RewriteConfigView,
    rewrite_override: Option<Seq<char>>,
    dedupe: DedupeCacheView,
    context: ContextCacheView,
    now: nat,
) -> Started {
    let original = trimmed(message.text);
    let count = rewrite.context_messages;
    if !message.outgoing {
        Started { dedupe, context, step: MessageStepView::Done(Outcome::NotOutgoing) }
    } else if dedupe.contains(message.chat_id, message.message_id, now) {
        Started {
            dedupe: dedupe.evict_expired(now),
            context,
            step: MessageStepView::Done(Outcome::Duplicate),
        }
    } else if original.len() == 0 {
        Started {
            dedupe: dedupe.evict_expired(now),
            context,
            step: MessageStepView::Done(Outcome::EmptyText),
        }
    } else {
        let cached = context.recent_before(message.scope(), message.message_id, count as nat);
        if context.should_backfill(message.scope(), count as nat, cached.len()) {
            Started {
                dedupe: dedupe.evict_expired(now),
                context: context.mark_hydrated(message.scope()),
                step: MessageStepView::FetchHistory(
                    PendingHistoryView {
                        chat_id: message.chat_id,
                        topic_root_id: message.topic_root_id,
                        message_id: message.message_id,
                        original,
                        count,
                        cached,
                    },
                ),
            }
        } else {
            Started {
                dedupe: dedupe.evict_expired(now),
                context,
                step: with_context(
                    message.chat_id,
                    message.message_id,
                    original,
                    cached,
                    rewrite.system_prompt,
                    rewrite_override,
                ),
            }
        }
    }
}

/// The leg after the fetch: what was fetched replaces what the cache had; a
/// failed fetch leaves the cached context in place.
pub open spec fn after_history(
    pending: PendingHistoryView,
    fetched: Option<Seq<ContextMessageView>>,
    rewrite: RewriteConfigView,
    rewrite_override: Option<Seq<char>>,
) -> MessageStepView {
    with_context(
        pending.chat_id,
        pending.message_id,
        pending.original,
        match fetched {
            Some(messages) => messages,
            None => pending.cached,
        },
        rewrite.system_prompt,
        rewrite_override,
    )
}

/// The leg after the model call: a failed call ends the path and leaves the
/// message unedited.
pub open spec fn after_rewrite(
    pending: PendingRewriteView,
    reply: Option<Seq<char>>,
) -> MessageStepView {
    match reply {
        Some(text) => with_rewritten(pending.chat_id, pending.message_id, pending.original, text),
        None => MessageStepView::Done(Outcome::RewriteFailed),
    }
}

/// The dedupe cache, the outcome and the report after the edit was tried.
pub struct Committed {
    pub dedupe: DedupeCacheView,
    pub outcome: Outcome,
    pub event: Option<RewriteEventView>,
}

/// The last leg: an edit that went through is recorded and reported; one
/// that failed leaves no trace.
pub open spec fn after_edit(
    pending: PendingEditView,
    edited: bool,
    dedupe: DedupeCacheView,
    now: nat,
) -> Committed {
    if edited {
        Committed {
            dedupe: dedupe.insert(pending.chat_id, pending.message_id, now),
            outcome: Outcome::Edited,
            event: Some(
                RewriteEventView::MessageEdited {
                    chat_id: pending.chat_id,
                    message_id: pending.message_id,
                },
            ),
        }
    } else {
        Committed { dedupe, outcome: Outcome::EditFailed, event: None }
    }
}

fn rewritten_step(chat_id: i64, message_id: i32, original: String, rewritten: &str) -> (step:
    MessageStep)
    ensures
        step@ == with_rewritten(chat_id, message_id, original@, rewritten@),
{
    let text = truncate_to_telegram_limit(trim(rewritten), TELEGRAM_MESSAGE_MAX_CHARS);
    if text.unicode_len() == 0 {
        MessageStep::Done(Outcome::EmptyRewrite)
    } else if str_equal(text, original.as_str()) {
        MessageStep::Done(Outcome::Unchanged)
    } else {
        MessageStep::EditMessage(PendingEdit { chat_id, message_id, text: text.to_owned() })
    }
}

fn context_step(
    chat_id: i64,
    message_id: i32,
    original: String,
    context: Vec<ContextMessage>,
    rewrite: &RewriteConfig,
    rewrite_override: Option<&str>,
) -> (step: MessageStep)
    ensures
        step@ == with_context(
            chat_id,
            message_id,
            original@,
            message_views(context@),
            rewrite@.system_prompt,
            str_view(rewrite_override),
        ),
{
    match rewrite_override {
        Some(text) => rewritten_step(chat_id, message_id, original, text),
        None => MessageStep::CallModel(
            PendingRewrite {
                chat_id,
                message_id,
                system_prompt: rewrite.system_prompt.clone(),
                context,
                original,
            },
        ),
    }
}

/// Takes a message of a monitored conversation into the pipeline, as far as
/// the first piece of outside work.
pub fn process_message(
    message: &IncomingMessage,
    rewrite: &RewriteConfig,
    rewrite_override: Option<&str>,
    dedupe_cache: &mut DedupeCache,
    context_cache: &mut ContextCache,
    now: u128,
) -> (step: MessageStep)
    ensures
        (Started { dedupe: final(dedupe_cache)@, context: final(context_cache)@, step: step@ })
            == started(
            message@,
            rewrite@,
            str_view(rewrite_override),
            old(dedupe_cache)@,
            old(context_cache)@,
            now as nat,
        ),
{
    if !message.outgoing {
        return MessageStep::Done(Outcome::NotOutgoing);
    }
    if dedupe_cache.contains_at(message.chat_id, message.message_id, now) {
        return MessageStep::Done(Outcome::Duplicate);
    }
    let original = trim(message.text.as_str());
    if original.unicode_len() == 0 {
        return MessageStep::Done(Outcome::EmptyText);
    }
    let scope = message.scope();
    let count = rewrite.context_messages;
    let cached = context_cache.recent_before(scope, message.message_id, count);
    assert(cached@.len() == message_views(cached@).len());
    if context_cache.should_backfill(scope, count, cached.len()) {
        context_cache.mark_hydrated(scope);
        return MessageStep::FetchHistory(
            PendingHistory {
                chat_id: message.chat_id,
                topic_root_id: message.topic_root_id,
                message_id: message.message_id,
                original: original.to_owned(),
                count,
                cached,
            },
        );
    }
    context_step(
        message.chat_id,
        message.message_id,
        original.to_owned(),
        cached,
        rewrite,
        rewrite_override,
    )
}

/// The views of an optional list of messages.
pub open spec fn fetched_view(fetched: Option<Vec<ContextMessage>>) -> Option<
    Seq<ContextMessageView>,
> {
    match fetched {
        Some(messages) => Some(message_views(messages@)),
        None => None,
    }
}

/// Goes on after the history fetch. `fetched` is `None` where the fetch
/// failed.
pub fn history_fetched(
    pending: PendingHistory,
    fetched: Option<Vec<ContextMessage>>,
    rewrite: &RewriteConfig,
    rewrite_override: Option<&str>,
) -> (step: MessageStep)
    ensures
        step@ == after_history(
            pending@,
            fetched_view(fetched),
            rewrite@,
            str_view(rewrite_override),
        ),
{
    let PendingHistory { chat_id, topic_root_id: _, message_id, original, count: _, cached } =
        pending;
    let context = match fetched {
        Some(messages) => messages,
        None => cached,
    };
    context_step(chat_id, message_id, original, context, rewrite, rewrite_override)
}

/// Goes on after the model call. `reply` is `None` where the call failed.
pub fn rewrite_finished(pending: PendingRewrite, reply: Option<String>) -> (step: MessageStep)
    ensures
        step@ == after_rewrite(pending@, text_view(reply)),
{
    let PendingRewrite { chat_id, message_id, system_prompt: _, context: _, original } = pending;
    match reply {
        Some(text) => rewritten_step(chat_id, message_id, original, text.as_str()),
        None => MessageStep::Done(Outcome::RewriteFailed),
    }
}

/// The view of an optional event.
pub open spec fn event_view(event: Option<RewriteEvent>) -> Option<RewriteEventView> {
    match event {
        Some(e) => Some(e@),
        None => None,
    }
}

/// Ends the path after the edit was tried.
pub fn edit_finished(
    pending: PendingEdit,
    edited: bool,
    dedupe_cache: &mut DedupeCache,
    now: u128,
) -> (r: (Outcome, Option<RewriteEvent>))
    ensures
        (Committed { dedupe: final(dedupe_cache)@, outcome: r.0, event: event_view(r.1) })
            == after_edit(pending@, edited, old(dedupe_cache)@, now as nat),
{
    if edited {
        dedupe_cache.insert_at(pending.chat_id, pending.message_id, now);
        (
            Outcome::Edited,
            Some(
                RewriteEvent::MessageEdited {
                    chat_id: pending.chat_id,
                    message_id: pending.message_id,
                },
            ),
        )
    } else {
        (Outcome::EditFailed, None)
    }
}

/// History is asked for at most once per scope: where the first leg asks
/// for it, it leaves the scope marked, and for a marked scope it never asks.
pub proof fn law_history_is_fetched_once_per_scope(
    message: IncomingMessageView,
    rewrite: RewriteConfigView,
    rewrite_override: Option<Seq<char>>,
    dedupe: DedupeCacheView,
    context: ContextCacheView,
    now: nat,
)
    ensures
        started(message, rewrite, rewrite_override, dedupe, context, now).step is FetchHistory
            ==> started(
            message,
            rewrite,
            rewrite_override,
            dedupe,
            context,
            now,
        ).context.hydrated_scopes.contains(message.scope()),
        context.hydrated_scopes.contains(message.scope()) ==> !(started(
            message,
            rewrite,
            rewrite_override,
            dedupe,
            context,
            now,
        ).step is FetchHistory),
        rewrite.context_messages == 0 ==> !(started(
            message,
            rewrite,
            rewrite_override,
            dedupe,
            context,
            now,
        ).step is FetchHistory),
{
}

} // verus!
