//! The dispatcher: one owner for the active policy and both caches, driven
//! by the three sources of a running rewriter (the update stream, a changed
//! configuration, and the request to stop).

use crate::config::{HotConfig, HotConfigView};
use crate::context::{ContextMessage, ContextMessageView};
use crate::context_cache::{
    law_cache_invariant_kept, CachedEntry, ContextCache, ContextCacheView, ContextScope,
};
use crate::dedupe::{DedupeCache, DedupeCacheView};
use crate::events::{
    event_views, is_historical_catch_up_message, kind_name, normalize_rewrite_override,
    normalized_override, text_view, update_kind_name, MonitoredUpdateKind, RewriteEvent,
    RewriteEventView, RewriteRuntimeOptions, UpdateKind, UpdateKindView,
};
use crate::llm::{settings_of, LlmError, LlmErrorView, OpenAiSettings, OpenAiSettingsView};
use crate::pipeline::{
    after_edit, after_history, after_rewrite, edit_finished, fetched_view, history_fetched,
    polished, process_message, rewrite_finished, started, with_context, with_rewritten,
    IncomingMessage, IncomingMessageView, MessageStep, MessageStepView, Outcome, PendingEdit,
    PendingEditView, PendingHistory, PendingRewrite, TELEGRAM_MESSAGE_MAX_CHARS,
};
use crate::text::{lemma_truncated_is_longest, trimmed, utf16_len};
use std::collections::HashSet;
use std::time::Duration;
use vstd::prelude::*;
use vstd::string::*;

verus! {

/// How long an edit is remembered, in seconds.
pub const DEDUPE_TTL_SECONDS: u64 = 300;

/// The policy in force: the hot configuration, the set of monitored
/// conversations that it names, and the settings for the model client.
pub struct ActiveRewriteState {
    hot_config: HotConfig,
    monitored_chats: HashSet<i64>,
    settings: OpenAiSettings,
}

/// What an [`ActiveRewriteState`] holds.
pub struct ActiveRewriteStateView {
    pub hot_config: HotConfigView,
    pub monitored_chats: Set<i64>,
    pub settings: OpenAiSettingsView,
}

impl View for ActiveRewriteState {
    type V = ActiveRewriteStateView;

    closed spec fn view(&self) -> ActiveRewriteStateView {
        ActiveRewriteStateView {
            hot_config: self.hot_config@,
            monitored_chats: self.monitored_chats@,
            settings: self.settings@,
        }
    }
}

/// The policy that a hot configuration gives, or why it gives none: its key
/// and model must do for a model client.
pub open spec fn active_state_of(hot: HotConfigView) -> Result<
    ActiveRewriteStateView,
    LlmErrorView,
> {
    match settings_of(hot.openai_api_key, hot.openai_model) {
        Ok(settings) => Ok(
            ActiveRewriteStateView {
                hot_config: hot,
                monitored_chats: hot.rewrite.chats.to_set(),
                settings,
            },
        ),
        Err(e) => Err(e),
    }
}

/// The values of the outcome of making a policy.
pub open spec fn active_result_view(r: Result<ActiveRewriteState, LlmError>) -> Result<
    ActiveRewriteStateView,
    LlmErrorView,
> {
    match r {
        Ok(active) => Ok(active@),
        Err(e) => Err(e@),
    }
}

fn chat_set(chats: &Vec<i64>) -> (set: HashSet<i64>)
    ensures
        set@ == chats@.to_set(),
{
    broadcast use vstd::std_specs::hash::group_hash_axioms;

    let mut set: HashSet<i64> = HashSet::new();
    let mut i: usize = 0;
    assert(chats@.take(0).to_set() =~= Set::<i64>::empty());
    while i < chats.len()
        invariant
            i <= chats.len(),
            set@ == chats@.take(i as int).to_set(),
        decreases chats.len() - i,
    {
        set.insert(chats[i]);
        proof {
            let before = chats@.take(i as int);
            let after = chats@.take(i + 1);
            assert(after =~= before.push(chats@[i as int]));
            assert(after.to_set() =~= before.to_set().insert(chats@[i as int])) by {
                assert forall|x: i64| after.to_set().contains(x) <==> before.to_set().insert(
                    chats@[i as int],
                ).contains(x) by {
                    if after.contains(x) {
                        let j = choose|j: int| 0 <= j < after.len() && after[j] == x;
                        if j < before.len() {
                            assert(before[j] == x);
                        }
                    }
                    if before.contains(x) {
                        let j = choose|j: int| 0 <= j < before.len() && before[j] == x;
                        assert(after[j] == x);
                    }
                    if x == chats@[i as int] {
                        assert(after[i as int] == x);
                    }
                }
            }
        }
        i = i + 1;
    }
    assert(chats@.take(i as int) =~= chats@);
    set
}

impl ActiveRewriteState {
    /// Makes a hot configuration the policy, if its key and model will do.
    pub fn from_hot_config(hot_config: HotConfig) -> (r: Result<Self, LlmError>)
        ensures
            active_result_view(r) == active_state_of(hot_config@),
    {
        let monitored_chats = chat_set(&hot_config.rewrite.chats);
        let settings = match OpenAiSettings::new(
            hot_config.openai_api_key.as_str(),
            hot_config.openai_model.as_str(),
        ) {
            Ok(settings) => settings,
            Err(e) => {
                return Err(e);
            },
        };
        Ok(ActiveRewriteState { hot_config, monitored_chats, settings })
    }

    /// The hot configuration that the policy was made of.
    pub fn hot_config(&self) -> (r: &HotConfig)
        ensures
            r@ == self@.hot_config,
    {
        &self.hot_config
    }

    /// The conversations that the policy names.
    pub fn monitored_chats(&self) -> (r: &HashSet<i64>)
        ensures
            r@ == self@.monitored_chats,
    {
        &self.monitored_chats
    }

    /// The settings for the model client.
    pub fn settings(&self) -> (r: &OpenAiSettings)
        ensures
            r@ == self@.settings,
    {
        &self.settings
    }

    /// Whether the policy names the conversation.
    pub fn is_monitored_chat(&self, chat_id: i64) -> (r: bool)
        ensures
            r == self@.monitored_chats.contains(chat_id),
    {
        broadcast use vstd::std_specs::hash::group_hash_axioms;

        self.monitored_chats.contains(&chat_id)
    }
}

/// An update as the platform delivered it.
#[derive(Debug, PartialEq, Eq)]
pub enum PlatformUpdate {
    NewMessage(IncomingMessage),
    Other(UpdateKind),
}

/// The values of a [`PlatformUpdate`].
pub enum PlatformUpdateView {
    NewMessage(IncomingMessageView),
    Other(UpdateKindView),
}

impl View for PlatformUpdate {
    type V = PlatformUpdateView;

    open spec fn view(&self) -> PlatformUpdateView {
        match *self {
            PlatformUpdate::NewMessage(message) => PlatformUpdateView::NewMessage(message@),
            PlatformUpdate::Other(kind) => PlatformUpdateView::Other(kind@),
        }
    }
}

/// What one turn of the dispatcher leaves for the driver: what to report,
/// and where the message stands.
#[derive(Debug, PartialEq, Eq)]
pub struct UpdateStep {
    pub events: Vec<RewriteEvent>,
    pub step: MessageStep,
}

/// What the three sources of the loop deliver.
#[derive(Debug, PartialEq)]
pub enum LoopEvent {
    /// The request to stop.
    Shutdown,
    /// The next update of the stream.
    Update(PlatformUpdate),
    /// The stream failed to deliver an update.
    UpdateFailed,
    /// A changed hot configuration.
    HotConfigChanged(HotConfig),
}

/// The values of a [`LoopEvent`].
pub enum LoopEventView {
    Shutdown,
    Update(PlatformUpdateView),
    UpdateFailed,
    HotConfigChanged(HotConfigView),
}

impl View for LoopEvent {
    type V = LoopEventView;

    open spec fn view(&self) -> LoopEventView {
        match *self {
            LoopEvent::Shutdown => LoopEventView::Shutdown,
            LoopEvent::Update(update) => LoopEventView::Update(update@),
            LoopEvent::UpdateFailed => LoopEventView::UpdateFailed,
            LoopEvent::HotConfigChanged(hot) => LoopEventView::HotConfigChanged(hot@),
        }
    }
}

/// What the loop is to do after one event.
#[derive(Debug, PartialEq, Eq)]
pub enum LoopStep {
    /// Leave the loop and close the connection.
    Stop,
    /// Nothing to do; wait for the next event.
    Idle,
    /// An update was taken in.
    Update(UpdateStep),
    /// The changed configuration is in force.
    Reloaded,
    /// The changed configuration was turned down; the previous one stays.
    ReloadRejected(LlmError),
}

/// The values of a [`LoopStep`].
pub enum LoopStepView {
    Stop,
    Idle,
    Update(Seq<RewriteEventView>, MessageStepView),
    Reloaded,
    ReloadRejected(LlmErrorView),
}

impl View for LoopStep {
    type V = LoopStepView;

    open spec fn view(&self) -> LoopStepView {
        match *self {
            LoopStep::Stop => LoopStepView::Stop,
            LoopStep::Idle => LoopStepView::Idle,
            LoopStep::Update(update) => LoopStepView::Update(
                event_views(update.events@),
                update.step@,
            ),
            LoopStep::Reloaded => LoopStepView::Reloaded,
            LoopStep::ReloadRejected(e) => LoopStepView::ReloadRejected(e@),
        }
    }
}

/// What a [`RewriteRuntime`] holds.
pub struct RewriteRuntimeView {
    pub active: ActiveRewriteStateView,
    pub catch_up_enabled: bool,
    pub skip_historical_catch_up_messages: bool,
    pub rewrite_override: Option<Seq<char>>,
    pub startup_unix: i64,
    pub dedupe: DedupeCacheView,
    pub context: ContextCacheView,
}

/// The runtime, the reports and the step after an update was taken in.
pub struct Dispatched {
    pub runtime: RewriteRuntimeView,
    pub events: Seq<RewriteEventView>,
    pub step: MessageStepView,
}

/// The runtime and the directive after one event of the loop.
pub struct Looped {
    pub runtime: RewriteRuntimeView,
    pub step: LoopStepView,
}

impl RewriteRuntimeView {
    /// A new message of a monitored conversation is first noted in the
    /// context cache. One that predates the start is then left alone, where
    /// such messages are skipped; any other is reported and enters the
    /// pipeline. Messages of other conversations, and updates of other
    /// kinds, change nothing; the latter are reported by name.
    pub open spec fn on_update(self, update: PlatformUpdateView, now: nat) -> Dispatched {
        match update {
            PlatformUpdateView::Other(kind) => Dispatched {
                runtime: self,
                events: seq![
                    RewriteEventView::UnsupportedUpdateIgnored { update_kind: kind_name(kind) },
                ],
                step: MessageStepView::Done(Outcome::Unsupported),
            },
            PlatformUpdateView::NewMessage(message) => {
                if !self.active.monitored_chats.contains(message.chat_id) {
                    Dispatched {
                        runtime: self,
                        events: Seq::empty(),
                        step: MessageStepView::Done(Outcome::Unmonitored),
                    }
                } else {
                    let observed = self.context.observe(
                        message.scope(),
                        message.message_id,
                        message.outgoing,
                        message.sender_name,
                        message.text,
                    );
                    if self.skip_historical_catch_up_messages && message.date_unix
                        < self.startup_unix {
                        Dispatched {
                            runtime: RewriteRuntimeView { context: observed, ..self },
                            events: Seq::empty(),
                            step: MessageStepView::Done(Outcome::SkippedHistorical),
                        }
                    } else {
                        let s = started(
                            message,
                            self.active.hot_config.rewrite,
                            self.rewrite_override,
                            self.dedupe,
                            observed,
                            now,
                        );
                        Dispatched {
                            runtime: RewriteRuntimeView {
                                dedupe: s.dedupe,
                                context: s.context,
                                ..self
                            },
                            events: seq![
                                RewriteEventView::MonitoredUpdate {
                                    chat_id: message.chat_id,
                                    topic_root_id: message.topic_root_id,
                                    message_id: message.message_id,
                                    outgoing: message.outgoing,
                                    kind: MonitoredUpdateKind::NewMessage,
                                },
                            ],
                            step: s.step,
                        }
                    }
                }
            },
        }
    }

    /// The runtime under a new policy: the caches are cut down to the
    /// conversations and the context depth that the policy names, and the
    /// policy takes the place of the old one as a whole.
    pub open spec fn with_policy(self, active: ActiveRewriteStateView) -> RewriteRuntimeView {
        RewriteRuntimeView {
            active,
            context: self.context.retain_chats(active.monitored_chats).set_per_chat_limit(
                active.hot_config.rewrite.context_messages as nat,
            ),
            ..self
        }
    }

    /// A changed configuration takes force if it gives a policy; else
    /// nothing changes.
    pub open spec fn reload(self, hot: HotConfigView) -> RewriteRuntimeView {
        match active_state_of(hot) {
            Ok(active) => self.with_policy(active),
            Err(_) => self,
        }
    }

    /// The runtime after the edit of a message was tried: an edit that went
    /// through is remembered and reported.
    pub open spec fn on_edit(self, pending: PendingEditView, edited: bool, now: nat) -> Dispatched {
        let c = after_edit(pending, edited, self.dedupe, now);
        Dispatched {
            runtime: RewriteRuntimeView { dedupe: c.dedupe, ..self },
            events: match c.event {
                Some(e) => seq![e],
                None => Seq::empty(),
            },
            step: MessageStepView::Done(c.outcome),
        }
    }

    /// One turn of the loop.
    pub open spec fn dispatch(self, event: LoopEventView, now: nat) -> Looped {
        match event {
            LoopEventView::Shutdown => Looped { runtime: self, step: LoopStepView::Stop },
            LoopEventView::UpdateFailed => Looped { runtime: self, step: LoopStepView::Idle },
            LoopEventView::Update(update) => {
                let d = self.on_update(update, now);
                Looped { runtime: d.runtime, step: LoopStepView::Update(d.events, d.step) }
            },
            LoopEventView::HotConfigChanged(hot) => Looped {
                runtime: self.reload(hot),
                step: match active_state_of(hot) {
                    Ok(_) => LoopStepView::Reloaded,
                    Err(e) => LoopStepView::ReloadRejected(e),
                },
            },
        }
    }
}

/// The state of a running rewriter.
pub struct RewriteRuntime {
    active: ActiveRewriteState,
    catch_up_enabled: bool,
    skip_historical_catch_up_messages: bool,
    rewrite_override: Option<String>,
    startup_unix: i64,
    dedupe_cache: DedupeCache,
    context_cache: ContextCache,
}

impl View for RewriteRuntime {
    type V = RewriteRuntimeView;

    closed spec fn view(&self) -> RewriteRuntimeView {
        RewriteRuntimeView {
            active: self.active@,
            catch_up_enabled: self.catch_up_enabled,
            skip_historical_catch_up_messages: self.skip_historical_catch_up_messages,
            rewrite_override: text_view(self.rewrite_override),
            startup_unix: self.startup_unix,
            dedupe: self.dedupe_cache@,
            context: self.context_cache@,
        }
    }
}

impl RewriteRuntime {
    /// A runtime under the given policy, with both caches empty.
    pub fn new(
        active: ActiveRewriteState,
        options: RewriteRuntimeOptions,
        startup_unix: i64,
    ) -> (rt: Self)
        ensures
            rt@.active == active@,
            rt@.catch_up_enabled == options.catch_up_enabled,
            rt@.skip_historical_catch_up_messages == options.skip_historical_catch_up_messages,
            rt@.rewrite_override == normalized_override(text_view(options.rewrite_override)),
            rt@.startup_unix == startup_unix,
            rt@.dedupe.ttl == DEDUPE_TTL_SECONDS as nat * 1_000_000_000,
            rt@.dedupe.entries == Map::<(i64, i32), nat>::empty(),
            rt@.context.per_chat_limit == active@.hot_config.rewrite.context_messages,
            rt@.context.entries == Map::<ContextScope, Seq<CachedEntry>>::empty(),
            rt@.context.hydrated_scopes == Set::<ContextScope>::empty(),
    {
        let RewriteRuntimeOptions {
            catch_up_enabled,
            skip_historical_catch_up_messages,
            rewrite_override,
        } = options;
        let context_cache = ContextCache::new(active.hot_config().rewrite.context_messages);
        RewriteRuntime {
            active,
            catch_up_enabled,
            skip_historical_catch_up_messages,
            rewrite_override: normalize_rewrite_override(rewrite_override),
            startup_unix,
            dedupe_cache: DedupeCache::new(Duration::from_secs(DEDUPE_TTL_SECONDS)),
            context_cache,
        }
    }

    /// The policy in force.
    pub fn active(&self) -> (r: &ActiveRewriteState)
        ensures
            r@ == self@.active,
    {
        &self.active
    }

    /// Whether updates of the conversation are handled.
    pub fn is_monitored_chat(&self, chat_id: i64) -> (r: bool)
        ensures
            r == self@.active.monitored_chats.contains(chat_id),
    {
        self.active.is_monitored_chat(chat_id)
    }

    /// The reading of the clock by which edits are remembered, for the calls
    /// that are told the time.
    pub fn clock_nanos(&self) -> u128 {
        self.dedupe_cache.clock_nanos()
    }

    /// The report that the runtime is up.
    pub fn ready_event(&self) -> (event: RewriteEvent)
        ensures
            event@ == (RewriteEventView::RuntimeReady {
                catch_up_enabled: self@.catch_up_enabled,
                skip_historical_catch_up_messages: self@.skip_historical_catch_up_messages,
                startup_unix: self@.startup_unix,
            }),
    {
        RewriteEvent::RuntimeReady {
            catch_up_enabled: self.catch_up_enabled,
            skip_historical_catch_up_messages: self.skip_historical_catch_up_messages,
            startup_unix: self.startup_unix,
        }
    }

    /// Takes in one update of the stream.
    pub fn on_update(&mut self, update: PlatformUpdate, now: u128) -> (r: UpdateStep)
        ensures
            (Dispatched { runtime: final(self)@, events: event_views(r.events@), step: r.step@ })
                == old(self)@.on_update(update@, now as nat),
    {
        let mut events: Vec<RewriteEvent> = Vec::new();
        match update {
            PlatformUpdate::Other(kind) => {
                events.push(
                    RewriteEvent::UnsupportedUpdateIgnored { update_kind: update_kind_name(&kind) },
                );
                proof {
                    assert(event_views(events@) =~= seq![
                        RewriteEventView::UnsupportedUpdateIgnored {
                            update_kind: kind_name(kind@),
                        },
                    ]);
                }
                UpdateStep { events, step: MessageStep::Done(Outcome::Unsupported) }
            },
            PlatformUpdate::NewMessage(message) => {
                if !self.active.is_monitored_chat(message.chat_id) {
                    proof {
                        assert(event_views(events@) =~= Seq::<RewriteEventView>::empty());
                    }
                    return UpdateStep { events, step: MessageStep::Done(Outcome::Unmonitored) };
                }
                let sender_name: Option<&str> = match &message.sender_name {
                    Some(name) => Some(name.as_str()),
                    None => None,
                };
                self.context_cache.observe_update_message(
                    message.scope(),
                    message.message_id,
                    message.outgoing,
                    sender_name,
                    message.text.as_str(),
                );
                if self.skip_historical_catch_up_messages && is_historical_catch_up_message(
                    message.date_unix,
                    self.startup_unix,
                ) {
                    proof {
                        assert(event_views(events@) =~= Seq::<RewriteEventView>::empty());
                    }
                    return UpdateStep {
                        events,
                        step: MessageStep::Done(Outcome::SkippedHistorical),
                    };
                }
                events.push(
                    RewriteEvent::MonitoredUpdate {
                        chat_id: message.chat_id,
                        topic_root_id: message.topic_root_id,
                        message_id: message.message_id,
                        outgoing: message.outgoing,
                        kind: MonitoredUpdateKind::NewMessage,
                    },
                );
                proof {
                    assert(event_views(events@) =~= seq![
                        RewriteEventView::MonitoredUpdate {
                            chat_id: message.chat_id,
                            topic_root_id: message.topic_root_id,
                            message_id: message.message_id,
                            outgoing: message.outgoing,
                            kind: MonitoredUpdateKind::NewMessage,
                        },
                    ]);
                }
                let rewrite_override: Option<&str> = match &self.rewrite_override {
                    Some(text) => Some(text.as_str()),
                    None => None,
                };
                let step = process_message(
                    &message,
                    &self.active.hot_config.rewrite,
                    rewrite_override,
                    &mut self.dedupe_cache,
                    &mut self.context_cache,
                    now,
                );
                UpdateStep { events, step }
            },
        }
    }

    /// Goes on with a message after its history was fetched, or could not
    /// be.
    pub fn on_history(
        &self,
        pending: PendingHistory,
        fetched: Option<Vec<ContextMessage>>,
    ) -> (step: MessageStep)
        ensures
            step@ == after_history(
                pending@,
                fetched_view(fetched),
                self@.active.hot_config.rewrite,
                self@.rewrite_override,
            ),
    {
        let rewrite_override: Option<&str> = match &self.rewrite_override {
            Some(text) => Some(text.as_str()),
            None => None,
        };
        history_fetched(pending, fetched, &self.active.hot_config.rewrite, rewrite_override)
    }

    /// Goes on with a message after the model answered, or failed to.
    pub fn on_rewrite(&self, pending: PendingRewrite, reply: Option<String>) -> (step: MessageStep)
        ensures
            step@ == after_rewrite(pending@, text_view(reply)),
    {
        rewrite_finished(pending, reply)
    }

    /// Ends the handling of a message after its edit was tried.
    pub fn on_edit(&mut self, pending: PendingEdit, edited: bool, now: u128) -> (r: UpdateStep)
        ensures
            (Dispatched { runtime: final(self)@, events: event_views(r.events@), step: r.step@ })
                == old(self)@.on_edit(pending@, edited, now as nat),
    {
        let (outcome, event) = edit_finished(pending, edited, &mut self.dedupe_cache, now);
        let mut events: Vec<RewriteEvent> = Vec::new();
        match event {
            Some(e) => {
                events.push(e);
                proof {
                    assert(event_views(events@) =~= seq![e@]);
                }
            },
            None => {
                proof {
                    assert(event_views(events@) =~= Seq::<RewriteEventView>::empty());
                }
            },
        }
        UpdateStep { events, step: MessageStep::Done(outcome) }
    }

    /// Puts a policy in force and cuts both caches down to it.
    pub fn apply_policy(&mut self, active: ActiveRewriteState)
        ensures
            final(self)@ == old(self)@.with_policy(active@),
    {
        self.context_cache.retain_chats(active.monitored_chats());
        self.context_cache.set_per_chat_limit(active.hot_config().rewrite.context_messages);
        self.active = active;
    }

    /// Takes in a changed hot configuration. One that gives no policy is
    /// turned down, and the runtime stays as it was.
    pub fn reload(&mut self, hot_config: HotConfig) -> (r: Result<(), LlmError>)
        ensures
            final(self)@ == old(self)@.reload(hot_config@),
            match r {
                Ok(()) => active_state_of(hot_config@) is Ok,
                Err(e) => active_state_of(hot_config@) == Err::<
                    ActiveRewriteStateView,
                    LlmErrorView,
                >(e@),
            },
    {
        match ActiveRewriteState::from_hot_config(hot_config) {
            Ok(active) => {
                self.apply_policy(active);
                Ok(())
            },
            Err(e) => Err(e),
        }
    }

    /// One turn of the loop: takes one event of any of the three sources and
    /// says what the loop is to do next.
    pub fn dispatch(&mut self, event: LoopEvent, now: u128) -> (step: LoopStep)
        ensures
            (Looped { runtime: final(self)@, step: step@ }) == old(self)@.dispatch(
                event@,
                now as nat,
            ),
    {
        match event {
            LoopEvent::Shutdown => LoopStep::Stop,
            LoopEvent::UpdateFailed => LoopStep::Idle,
            LoopEvent::Update(update) => LoopStep::Update(self.on_update(update, now)),
            LoopEvent::HotConfigChanged(hot_config) => match self.reload(hot_config) {
                Ok(()) => LoopStep::Reloaded,
                Err(e) => LoopStep::ReloadRejected(e),
            },
        }
    }
}

/// At most one edit per message: once an edit went through, the same
/// message, delivered again while the edit is remembered, is dropped as a
/// duplicate before any outside work is asked for.
pub proof fn law_edited_message_is_not_edited_again(
    runtime: RewriteRuntimeView,
    pending: PendingEditView,
    edited_at: nat,
    message: IncomingMessageView,
    now: nat,
)
    requires
        runtime.active.monitored_chats.contains(message.chat_id),
        message.chat_id == pending.chat_id,
        message.message_id == pending.message_id,
        message.outgoing,
        !(runtime.skip_historical_catch_up_messages && message.date_unix < runtime.startup_unix),
        now <= edited_at + runtime.dedupe.ttl,
    ensures
        runtime.on_edit(pending, true, edited_at).runtime.on_update(
            PlatformUpdateView::NewMessage(message),
            now,
        ).step == MessageStepView::Done(Outcome::Duplicate),
        runtime.on_edit(pending, false, edited_at).runtime == runtime,
{
}

/// An edit is asked for only where there is something new to say: the text
/// that goes out is the rewritten text, trimmed and cut to the platform's
/// length; it is not empty and differs from what the message says. A
/// rewritten text that comes out equal to the message's own text, or empty,
/// leads to no edit.
pub proof fn law_edit_only_on_change(
    chat_id: i64,
    message_id: i32,
    original: Seq<char>,
    rewritten: Seq<char>,
)
    ensures
        match with_rewritten(chat_id, message_id, original, rewritten) {
            MessageStepView::EditMessage(edit) => edit.text == polished(rewritten) && edit.text
                != original && edit.text.len() > 0 && utf16_len(edit.text)
                <= TELEGRAM_MESSAGE_MAX_CHARS && edit.chat_id == chat_id && edit.message_id
                == message_id,
            MessageStepView::Done(outcome) => (outcome == Outcome::Unchanged && polished(rewritten)
                == original) || (outcome == Outcome::EmptyRewrite && polished(rewritten).len()
                == 0),
            _ => false,
        },
{
    lemma_truncated_is_longest(trimmed(rewritten), TELEGRAM_MESSAGE_MAX_CHARS as nat);
}

/// With a fixed replacement text set, the model is never asked: once the
/// context is settled the path goes straight to the edit, or ends.
pub proof fn law_override_bypasses_model(
    chat_id: i64,
    message_id: i32,
    original: Seq<char>,
    context: Seq<ContextMessageView>,
    system_prompt: Seq<char>,
    replacement: Seq<char>,
)
    ensures
        !(with_context(
            chat_id,
            message_id,
            original,
            context,
            system_prompt,
            Some(replacement),
        ) is CallModel),
        with_context(chat_id, message_id, original, context, system_prompt, Some(replacement))
            == with_rewritten(chat_id, message_id, original, replacement),
{
}

/// A reload that drops a conversation takes it out of the runtime: updates
/// from it are ignored from then on, without report and without any change,
/// and nothing of it is left in the context cache, neither history nor
/// hydration flag, in any of its topics. A reload that is turned down
/// changes nothing.
pub proof fn law_reload_drops_conversation(
    runtime: RewriteRuntimeView,
    hot: HotConfigView,
    message: IncomingMessageView,
    now: nat,
)
    ensures
        active_state_of(hot) is Err ==> runtime.reload(hot) == runtime,
        active_state_of(hot) is Ok && !hot.rewrite.chats.contains(message.chat_id) ==> {
            let after = runtime.reload(hot);
            &&& after.on_update(PlatformUpdateView::NewMessage(message), now) == (Dispatched {
                runtime: after,
                events: Seq::empty(),
                step: MessageStepView::Done(Outcome::Unmonitored),
            })
            &&& after.context.history(message.scope()) == Seq::<CachedEntry>::empty()
            &&& !after.context.hydrated_scopes.contains(message.scope())
            &&& after.active.hot_config == hot
            &&& after.dedupe == runtime.dedupe
        },
{
}

/// Whatever the runtime is handed, the histories of its context cache stay
/// within the limit of the policy in force and free of repeated ids.
pub proof fn law_runtime_keeps_cache_invariant(
    runtime: RewriteRuntimeView,
    event: LoopEventView,
    pending: PendingEditView,
    edited: bool,
    now: nat,
)
    requires
        runtime.context.inv(),
    ensures
        runtime.dispatch(event, now).runtime.context.inv(),
        runtime.on_edit(pending, edited, now).runtime.context.inv(),
{
    match event {
        LoopEventView::Update(PlatformUpdateView::NewMessage(message)) => {
            let observed = runtime.context.observe(
                message.scope(),
                message.message_id,
                message.outgoing,
                message.sender_name,
                message.text,
            );
            law_cache_invariant_kept(
                runtime.context,
                message.scope(),
                message.message_id,
                ContextMessageView { sender_name: Seq::empty(), text: Seq::empty() },
                message.outgoing,
                message.sender_name,
                message.text,
                0,
                Set::empty(),
            );
            law_cache_invariant_kept(
                observed,
                message.scope(),
                message.message_id,
                ContextMessageView { sender_name: Seq::empty(), text: Seq::empty() },
                message.outgoing,
                message.sender_name,
                message.text,
                0,
                Set::empty(),
            );
        },
        LoopEventView::HotConfigChanged(hot) => {
            match active_state_of(hot) {
                Ok(active) => {
                    let none = ContextMessageView {
                        sender_name: Seq::empty(),
                        text: Seq::empty(),
                    };
                    let scope = ContextScope { chat_id: 0, topic_root_id: None };
                    law_cache_invariant_kept(
                        runtime.context,
                        scope,
                        0,
                        none,
                        false,
                        None,
                        Seq::empty(),
                        0,
                        active.monitored_chats,
                    );
                    law_cache_invariant_kept(
                        runtime.context.retain_chats(active.monitored_chats),
                        scope,
                        0,
                        none,
                        false,
                        None,
                        Seq::empty(),
                        active.hot_config.rewrite.context_messages as nat,
                        Set::empty(),
                    );
                },
                Err(_) => {},
            }
        },
        _ => {},
    }
}

} // verus!
