use brainrot_tg_llm_rewrite::config::{HotConfig, RewriteConfig};
use brainrot_tg_llm_rewrite::context::ContextMessage;
use brainrot_tg_llm_rewrite::context_cache::{ContextCache, ContextScope};
use brainrot_tg_llm_rewrite::dedupe::DedupeCache;
use brainrot_tg_llm_rewrite::events::{
    is_historical_catch_up_message, normalize_rewrite_override, take_before, update_kind_name,
    MonitoredUpdateKind, RewriteEvent, RewriteRuntimeOptions, UpdateKind,
};
use brainrot_tg_llm_rewrite::llm::LlmError;
use brainrot_tg_llm_rewrite::pipeline::{
    edit_finished, history_fetched, process_message, rewrite_finished, IncomingMessage,
    MessageStep, Outcome, PendingEdit, PendingHistory, PendingRewrite,
    TELEGRAM_MESSAGE_MAX_CHARS,
};
use brainrot_tg_llm_rewrite::runtime::{
    ActiveRewriteState, LoopEvent, LoopStep, PlatformUpdate, RewriteRuntime, UpdateStep,
    DEDUPE_TTL_SECONDS,
};
use std::time::Duration;

const CHAT: i64 = -1001234567890;
const SECOND: u128 = 1_000_000_000;

fn hot(chats: Vec<i64>, context_messages: usize) -> HotConfig {
    HotConfig {
        openai_api_key: "sk-test".to_owned(),
        openai_model: "gpt-4.1-mini".to_owned(),
        rewrite: RewriteConfig {
            chats,
            system_prompt: "rewrite this".to_owned(),
            context_messages,
        },
    }
}

fn options(rewrite_override: Option<&str>) -> RewriteRuntimeOptions {
    RewriteRuntimeOptions {
        catch_up_enabled: true,
        skip_historical_catch_up_messages: true,
        rewrite_override: rewrite_override.map(str::to_owned),
    }
}

fn runtime(
    chats: Vec<i64>,
    context_messages: usize,
    rewrite_override: Option<&str>,
) -> RewriteRuntime {
    let active = ActiveRewriteState::from_hot_config(hot(chats, context_messages))
        .expect("policy should be accepted");
    RewriteRuntime::new(active, options(rewrite_override), 1_000)
}

fn message(chat_id: i64, message_id: i32, outgoing: bool, text: &str) -> IncomingMessage {
    IncomingMessage {
        chat_id,
        topic_root_id: None,
        message_id,
        date_unix: 2_000,
        outgoing,
        sender_name: Some("Alice".to_owned()),
        text: text.to_owned(),
    }
}

fn new_message(m: IncomingMessage) -> PlatformUpdate {
    PlatformUpdate::NewMessage(m)
}

fn seen(chat_id: i64, message_id: i32, outgoing: bool) -> RewriteEvent {
    RewriteEvent::MonitoredUpdate {
        chat_id,
        topic_root_id: None,
        message_id,
        outgoing,
        kind: MonitoredUpdateKind::NewMessage,
    }
}

fn ctx(sender: &str, text: &str) -> ContextMessage {
    ContextMessage {
        sender_name: sender.to_owned(),
        text: text.to_owned(),
    }
}

/// Plays the driver: carries out what the runtime asks for with canned
/// answers, and counts the edits.
struct Driver {
    history: Option<Vec<ContextMessage>>,
    model_reply: Option<String>,
    edit_succeeds: bool,
    fetches: usize,
    model_calls: usize,
    edits: Vec<(i64, i32, String)>,
    events: Vec<RewriteEvent>,
}

impl Driver {
    fn new() -> Self {
        Driver {
            history: Some(Vec::new()),
            model_reply: None,
            edit_succeeds: true,
            fetches: 0,
            model_calls: 0,
            edits: Vec::new(),
            events: Vec::new(),
        }
    }

    fn deliver(&mut self, rt: &mut RewriteRuntime, update: PlatformUpdate, now: u128) -> Outcome {
        let UpdateStep { events, step } = rt.on_update(update, now);
        self.events.extend(events);
        let mut step = step;
        loop {
            step = match step {
                MessageStep::Done(outcome) => return outcome,
                MessageStep::FetchHistory(pending) => {
                    self.fetches += 1;
                    rt.on_history(pending, self.history.clone())
                }
                MessageStep::CallModel(pending) => {
                    self.model_calls += 1;
                    rt.on_rewrite(pending, self.model_reply.clone())
                }
                MessageStep::EditMessage(pending) => {
                    self.edits
                        .push((pending.chat_id, pending.message_id, pending.text.clone()));
                    let UpdateStep { events, step } = rt.on_edit(pending, self.edit_succeeds, now);
                    self.events.extend(events);
                    step
                }
            };
        }
    }
}

#[test]
fn catch_up_message_after_startup_is_not_historical() {
    assert!(!is_historical_catch_up_message(105, 100));
}

#[test]
fn catch_up_message_before_startup_is_historical() {
    assert!(is_historical_catch_up_message(99, 100));
    assert!(!is_historical_catch_up_message(100, 100));
    assert!(is_historical_catch_up_message(i64::MIN, i64::MAX));
}

#[test]
fn runtime_options_respect_explicit_rewrite_override() {
    assert_eq!(
        normalize_rewrite_override(Some(" [forced] ".to_owned())).as_deref(),
        Some("[forced]")
    );
    assert_eq!(normalize_rewrite_override(Some("   ".to_owned())), None);
}

#[test]
fn rewrite_override_edge_cases() {
    assert_eq!(normalize_rewrite_override(None), None);
    assert_eq!(normalize_rewrite_override(Some(String::new())), None);
    assert_eq!(
        normalize_rewrite_override(Some("x".to_owned())).as_deref(),
        Some("x")
    );
}

#[test]
fn runtime_options_from_the_environment() {
    let defaults = RewriteRuntimeOptions::from_env_values(false, false, None);
    assert!(defaults.catch_up_enabled);
    assert!(defaults.skip_historical_catch_up_messages);
    assert_eq!(defaults.rewrite_override, None);
    let switched = RewriteRuntimeOptions::from_env_values(true, true, Some(" [x] ".to_owned()));
    assert!(!switched.catch_up_enabled);
    assert!(!switched.skip_historical_catch_up_messages);
    assert_eq!(switched.rewrite_override.as_deref(), Some(" [x] "));
}

#[test]
fn update_kind_name_includes_tl_variant_for_raw_updates() {
    let update = UpdateKind::Raw("Config".to_owned());
    assert_eq!(update_kind_name(&update), "raw/Config");
}

#[test]
fn update_kind_names() {
    assert_eq!(update_kind_name(&UpdateKind::NewMessage), "new_message");
    assert_eq!(update_kind_name(&UpdateKind::MessageEdited), "message_edited");
    assert_eq!(update_kind_name(&UpdateKind::MessageDeleted), "message_deleted");
    assert_eq!(update_kind_name(&UpdateKind::CallbackQuery), "callback_query");
    assert_eq!(update_kind_name(&UpdateKind::InlineQuery), "inline_query");
    assert_eq!(update_kind_name(&UpdateKind::InlineSend), "inline_send");
    assert_eq!(update_kind_name(&UpdateKind::Unknown), "unknown");
    assert_eq!(
        update_kind_name(&UpdateKind::Raw(
            "UserStatus(UpdateUserStatus { user_id: 1, status: Online(x) })".to_owned()
        )),
        "raw/UserStatus"
    );
    assert_eq!(update_kind_name(&UpdateKind::Raw(String::new())), "raw/");
    assert_eq!(update_kind_name(&UpdateKind::Raw("(x)".to_owned())), "raw/");
}

#[test]
fn take_before_stops_at_the_first_occurrence() {
    assert_eq!(take_before("a(b(c", '('), "a");
    assert_eq!(take_before("abc", '('), "abc");
    assert_eq!(take_before("", '('), "");
    assert_eq!(take_before("\u{1F600}x(", '('), "\u{1F600}x");
}

#[test]
fn active_rewrite_state_rejects_empty_openai_api_key() {
    let hot = HotConfig {
        openai_api_key: "   ".to_owned(),
        openai_model: "gpt-4.1-mini".to_owned(),
        rewrite: RewriteConfig {
            chats: vec![-1001234567890],
            system_prompt: "rewrite this".to_owned(),
            context_messages: 10,
        },
    };
    let result = ActiveRewriteState::from_hot_config(hot);
    assert!(result.is_err(), "empty api key should fail");
    let err = match result {
        Ok(_) => unreachable!("checked above"),
        Err(err) => err,
    };
    assert!(err.message().contains("api key"));
}

#[test]
fn active_rewrite_state_holds_the_policy() {
    let mut config = hot(vec![3, 1, 3, 2], 4);
    config.openai_api_key = " sk ".to_owned();
    let active = ActiveRewriteState::from_hot_config(config.clone()).expect("should pass");
    assert_eq!(active.hot_config(), &config);
    assert_eq!(active.monitored_chats().len(), 3);
    assert!(active.is_monitored_chat(1));
    assert!(active.is_monitored_chat(2));
    assert!(active.is_monitored_chat(3));
    assert!(!active.is_monitored_chat(4));
    assert_eq!(active.settings().api_key(), "sk");
    assert_eq!(active.settings().model(), "gpt-4.1-mini");

    let mut no_model = hot(vec![1], 1);
    no_model.openai_model = String::new();
    match ActiveRewriteState::from_hot_config(no_model) {
        Err(e) => assert_eq!(e, LlmError::EmptyModel),
        Ok(_) => panic!("a blank model should fail"),
    }
}

#[test]
fn runtime_reports_that_it_is_ready() {
    let rt = runtime(vec![CHAT], 0, Some(" [x] "));
    assert_eq!(
        rt.ready_event(),
        RewriteEvent::RuntimeReady {
            catch_up_enabled: true,
            skip_historical_catch_up_messages: true,
            startup_unix: 1_000,
        }
    );
    assert!(rt.is_monitored_chat(CHAT));
    assert!(!rt.is_monitored_chat(1));
    assert_eq!(rt.active().hot_config().rewrite.context_messages, 0);
    assert!(rt.clock_nanos() <= rt.clock_nanos());
    assert_eq!(DEDUPE_TTL_SECONDS, 300);
    assert_eq!(TELEGRAM_MESSAGE_MAX_CHARS, 4096);
}

#[test]
fn end_to_end_override_edits_once_and_dedupes_the_repeat() {
    let mut rt = runtime(vec![CHAT], 10, Some("[x]"));
    let mut driver = Driver::new();
    driver.history = None;

    let outcome = driver.deliver(&mut rt, new_message(message(CHAT, 7, true, "hello")), 0);
    assert_eq!(outcome, Outcome::Edited);
    assert_eq!(driver.edits, vec![(CHAT, 7, "[x]".to_owned())]);
    assert_eq!(driver.model_calls, 0);
    assert_eq!(driver.fetches, 1);
    assert_eq!(
        driver.events,
        vec![
            seen(CHAT, 7, true),
            RewriteEvent::MessageEdited {
                chat_id: CHAT,
                message_id: 7
            },
        ]
    );

    let outcome = driver.deliver(&mut rt, new_message(message(CHAT, 7, true, "hello")), SECOND);
    assert_eq!(outcome, Outcome::Duplicate);
    assert_eq!(driver.edits.len(), 1);
    assert_eq!(driver.fetches, 1);

    // another message of the conversation is none of that
    let outcome = driver.deliver(&mut rt, new_message(message(CHAT, 8, true, "again")), SECOND);
    assert_eq!(outcome, Outcome::Edited);
    assert_eq!(driver.edits.len(), 2);
    assert_eq!(driver.fetches, 1, "a scope is backfilled once");
}

#[test]
fn end_to_end_rewrite_equal_to_message_text_makes_no_edit() {
    let mut rt = runtime(vec![CHAT], 0, None);
    let mut driver = Driver::new();
    driver.model_reply = Some("  hello \n".to_owned());
    let outcome = driver.deliver(&mut rt, new_message(message(CHAT, 7, true, " hello ")), 0);
    assert_eq!(outcome, Outcome::Unchanged);
    assert!(driver.edits.is_empty());
    assert_eq!(driver.model_calls, 1);
    // nothing was recorded: the message is taken up again
    let outcome = driver.deliver(&mut rt, new_message(message(CHAT, 7, true, " hello ")), 0);
    assert_eq!(outcome, Outcome::Unchanged);
    assert_eq!(driver.model_calls, 2);
}

#[test]
fn end_to_end_override_equal_to_message_text_makes_no_edit() {
    let mut rt = runtime(vec![CHAT], 0, Some("hello"));
    let mut driver = Driver::new();
    let outcome = driver.deliver(&mut rt, new_message(message(CHAT, 7, true, "hello")), 0);
    assert_eq!(outcome, Outcome::Unchanged);
    assert!(driver.edits.is_empty());
    assert_eq!(driver.model_calls, 0);
}

#[test]
fn edit_is_remembered_for_the_ttl_and_no_longer() {
    let mut rt = runtime(vec![CHAT], 0, Some("[x]"));
    let mut driver = Driver::new();
    let at = 5 * SECOND;
    assert_eq!(
        driver.deliver(&mut rt, new_message(message(CHAT, 7, true, "hello")), at),
        Outcome::Edited
    );
    assert_eq!(
        driver.deliver(
            &mut rt,
            new_message(message(CHAT, 7, true, "hello")),
            at + 300 * SECOND
        ),
        Outcome::Duplicate
    );
    assert_eq!(
        driver.deliver(
            &mut rt,
            new_message(message(CHAT, 7, true, "hello")),
            at + 300 * SECOND + 1
        ),
        Outcome::Edited
    );
    assert_eq!(driver.edits.len(), 2);
}

#[test]
fn failed_edit_leaves_no_trace() {
    let mut rt = runtime(vec![CHAT], 0, Some("[x]"));
    let mut driver = Driver::new();
    driver.edit_succeeds = false;
    assert_eq!(
        driver.deliver(&mut rt, new_message(message(CHAT, 7, true, "hello")), 0),
        Outcome::EditFailed
    );
    assert_eq!(driver.events, vec![seen(CHAT, 7, true)]);
    driver.edit_succeeds = true;
    assert_eq!(
        driver.deliver(&mut rt, new_message(message(CHAT, 7, true, "hello")), 0),
        Outcome::Edited
    );
    assert_eq!(driver.edits.len(), 2);
}

#[test]
fn messages_of_others_are_observed_but_not_rewritten() {
    let mut rt = runtime(vec![CHAT], 5, None);
    let mut driver = Driver::new();
    driver.model_reply = Some("polite".to_owned());
    assert_eq!(
        driver.deliver(&mut rt, new_message(message(CHAT, 1, false, "hi from alice")), 0),
        Outcome::NotOutgoing
    );
    assert_eq!(driver.events, vec![seen(CHAT, 1, false)]);
    assert_eq!(driver.fetches + driver.model_calls, 0);

    // the operator's message finds the other one in its context
    let UpdateStep { events, step } = rt.on_update(new_message(message(CHAT, 2, true, "yo")), 0);
    assert_eq!(events, vec![seen(CHAT, 2, true)]);
    let pending = match step {
        MessageStep::FetchHistory(p) => p,
        other => panic!("expected a history fetch, got {other:?}"),
    };
    assert_eq!(
        pending,
        PendingHistory {
            chat_id: CHAT,
            topic_root_id: None,
            message_id: 2,
            original: "yo".to_owned(),
            count: 5,
            cached: vec![ctx("Alice", "hi from alice")],
        }
    );
    // the fetch fails: the cached context is used
    let step = rt.on_history(pending, None);
    assert_eq!(
        step,
        MessageStep::CallModel(PendingRewrite {
            chat_id: CHAT,
            message_id: 2,
            system_prompt: "rewrite this".to_owned(),
            context: vec![ctx("Alice", "hi from alice")],
            original: "yo".to_owned(),
        })
    );
}

#[test]
fn fetched_history_replaces_cached_context() {
    let mut rt = runtime(vec![CHAT], 5, None);
    rt.on_update(new_message(message(CHAT, 1, false, "cached")), 0);
    let UpdateStep { step, .. } = rt.on_update(new_message(message(CHAT, 2, true, "yo")), 0);
    let pending = match step {
        MessageStep::FetchHistory(p) => p,
        other => panic!("expected a history fetch, got {other:?}"),
    };
    let fetched = vec![ctx("Bob", "older"), ctx("Alice", "newer")];
    match rt.on_history(pending, Some(fetched.clone())) {
        MessageStep::CallModel(p) => assert_eq!(p.context, fetched),
        other => panic!("expected a model call, got {other:?}"),
    }
    // the scope was marked before the fetch: no second fetch
    let UpdateStep { step, .. } = rt.on_update(new_message(message(CHAT, 3, true, "yo again")), 0);
    match step {
        MessageStep::CallModel(p) => {
            assert_eq!(p.context, vec![ctx("Alice", "cached"), ctx("Me", "yo")])
        }
        other => panic!("expected a model call, got {other:?}"),
    }
}

#[test]
fn failed_model_call_leaves_the_message_alone() {
    let mut rt = runtime(vec![CHAT], 0, None);
    let mut driver = Driver::new();
    driver.model_reply = None;
    assert_eq!(
        driver.deliver(&mut rt, new_message(message(CHAT, 7, true, "hello")), 0),
        Outcome::RewriteFailed
    );
    assert!(driver.edits.is_empty());
    assert_eq!(driver.model_calls, 1);
}

#[test]
fn empty_text_and_empty_rewrite_are_dropped() {
    let mut rt = runtime(vec![CHAT], 0, None);
    let mut driver = Driver::new();
    driver.model_reply = Some(" \n ".to_owned());
    assert_eq!(
        driver.deliver(&mut rt, new_message(message(CHAT, 1, true, "  \t ")), 0),
        Outcome::EmptyText
    );
    assert_eq!(driver.model_calls, 0);
    assert_eq!(
        driver.deliver(&mut rt, new_message(message(CHAT, 2, true, "hello")), 0),
        Outcome::EmptyRewrite
    );
    assert!(driver.edits.is_empty());
}

#[test]
fn rewritten_text_is_trimmed_and_cut_to_the_platform_limit() {
    let long: String = "\u{1F600}".repeat(3000);
    let step = rewrite_finished(
        PendingRewrite {
            chat_id: 1,
            message_id: 2,
            system_prompt: String::new(),
            context: Vec::new(),
            original: "hello".to_owned(),
        },
        Some(format!("  {long}  ")),
    );
    match step {
        MessageStep::EditMessage(PendingEdit {
            chat_id,
            message_id,
            text,
        }) => {
            assert_eq!((chat_id, message_id), (1, 2));
            assert_eq!(text.chars().count(), 2048);
            assert_eq!(text.encode_utf16().count(), 4096);
        }
        other => panic!("expected an edit, got {other:?}"),
    }
}

#[test]
fn unmonitored_conversations_are_ignored_in_silence() {
    let mut rt = runtime(vec![CHAT], 5, Some("[x]"));
    let mut driver = Driver::new();
    assert_eq!(
        driver.deliver(&mut rt, new_message(message(42, 7, true, "hello")), 0),
        Outcome::Unmonitored
    );
    assert!(driver.events.is_empty());
    assert!(driver.edits.is_empty());
}

#[test]
fn unsupported_updates_are_reported_by_name() {
    let mut rt = runtime(vec![CHAT], 5, Some("[x]"));
    let UpdateStep { events, step } =
        rt.on_update(PlatformUpdate::Other(UpdateKind::MessageEdited), 0);
    assert_eq!(step, MessageStep::Done(Outcome::Unsupported));
    assert_eq!(
        events,
        vec![RewriteEvent::UnsupportedUpdateIgnored {
            update_kind: "message_edited".to_owned()
        }]
    );
    let UpdateStep { events, .. } =
        rt.on_update(PlatformUpdate::Other(UpdateKind::Raw("Config".to_owned())), 0);
    assert_eq!(
        events,
        vec![RewriteEvent::UnsupportedUpdateIgnored {
            update_kind: "raw/Config".to_owned()
        }]
    );
}

#[test]
fn historical_messages_are_observed_but_skipped() {
    let mut rt = runtime(vec![CHAT], 5, Some("[x]"));
    let mut driver = Driver::new();
    let mut old = message(CHAT, 1, true, "from before");
    old.date_unix = 999;
    assert_eq!(
        driver.deliver(&mut rt, new_message(old), 0),
        Outcome::SkippedHistorical
    );
    assert!(driver.events.is_empty());
    assert!(driver.edits.is_empty());
    // it still serves as context
    let UpdateStep { step, .. } = rt.on_update(new_message(message(CHAT, 2, true, "now")), 0);
    match step {
        MessageStep::FetchHistory(p) => assert_eq!(p.cached, vec![ctx("Me", "from before")]),
        other => panic!("expected a history fetch, got {other:?}"),
    }
}

#[test]
fn historical_messages_are_handled_where_the_skip_is_off() {
    let active = ActiveRewriteState::from_hot_config(hot(vec![CHAT], 0)).expect("should pass");
    let mut rt = RewriteRuntime::new(
        active,
        RewriteRuntimeOptions {
            catch_up_enabled: true,
            skip_historical_catch_up_messages: false,
            rewrite_override: Some("[x]".to_owned()),
        },
        1_000,
    );
    let mut driver = Driver::new();
    let mut old = message(CHAT, 1, true, "from before");
    old.date_unix = 999;
    assert_eq!(driver.deliver(&mut rt, new_message(old), 0), Outcome::Edited);
}

#[test]
fn topics_of_one_conversation_have_contexts_of_their_own() {
    let mut rt = runtime(vec![CHAT], 5, None);
    let mut in_topic = message(CHAT, 1, false, "in topic");
    in_topic.topic_root_id = Some(9);
    rt.on_update(new_message(in_topic), 0);
    let UpdateStep { step, .. } = rt.on_update(new_message(message(CHAT, 2, true, "general")), 0);
    match step {
        MessageStep::FetchHistory(p) => {
            assert!(p.cached.is_empty());
            assert_eq!(p.topic_root_id, None);
        }
        other => panic!("expected a history fetch, got {other:?}"),
    }
    let mut reply = message(CHAT, 3, true, "reply");
    reply.topic_root_id = Some(9);
    let UpdateStep { step, .. } = rt.on_update(new_message(reply), 0);
    match step {
        MessageStep::FetchHistory(p) => {
            assert_eq!(p.cached, vec![ctx("Alice", "in topic")]);
            assert_eq!(p.topic_root_id, Some(9));
        }
        other => panic!("expected a history fetch, got {other:?}"),
    }
}

#[test]
fn reload_that_drops_a_conversation_purges_and_ignores_it() {
    let other: i64 = -100777;
    let mut rt = runtime(vec![CHAT, other], 5, Some("[x]"));
    let mut driver = Driver::new();
    assert_eq!(
        driver.deliver(&mut rt, new_message(message(CHAT, 1, false, "kept")), 0),
        Outcome::NotOutgoing
    );
    assert_eq!(
        driver.deliver(&mut rt, new_message(message(other, 1, true, "hello")), 0),
        Outcome::Edited
    );
    assert_eq!(driver.fetches, 1);
    assert!(rt.is_monitored_chat(other));

    assert_eq!(rt.reload(hot(vec![CHAT], 5)), Ok(()));
    assert!(!rt.is_monitored_chat(other));
    assert!(rt.is_monitored_chat(CHAT));
    let events_before = driver.events.len();
    assert_eq!(
        driver.deliver(&mut rt, new_message(message(other, 2, true, "hello again")), 0),
        Outcome::Unmonitored
    );
    assert_eq!(driver.events.len(), events_before);
    assert_eq!(driver.edits.len(), 1);

    // monitored again: its scope starts from nothing, and is backfilled anew
    assert_eq!(rt.reload(hot(vec![CHAT, other], 5)), Ok(()));
    let UpdateStep { step, .. } =
        rt.on_update(new_message(message(other, 3, true, "back")), SECOND);
    match step {
        MessageStep::FetchHistory(p) => assert!(p.cached.is_empty()),
        other => panic!("expected a history fetch, got {other:?}"),
    }
}

#[test]
fn reload_changes_the_context_depth() {
    let mut rt = runtime(vec![CHAT], 5, None);
    for id in 1..=4 {
        rt.on_update(new_message(message(CHAT, id, false, &format!("m{id}"))), 0);
    }
    assert_eq!(rt.reload(hot(vec![CHAT], 2)), Ok(()));
    let UpdateStep { step, .. } = rt.on_update(new_message(message(CHAT, 9, true, "mine")), 0);
    match step {
        MessageStep::FetchHistory(p) => {
            assert_eq!(p.count, 2);
            // the limit of two holds the new message and one before it
            assert_eq!(p.cached, vec![ctx("Alice", "m4")]);
        }
        other => panic!("expected a history fetch, got {other:?}"),
    }
}

#[test]
fn rejected_reload_keeps_the_previous_policy() {
    let mut rt = runtime(vec![CHAT], 5, Some("[x]"));
    let mut bad = hot(vec![1], 1);
    bad.openai_api_key = " ".to_owned();
    assert_eq!(rt.reload(bad), Err(LlmError::EmptyApiKey));
    assert!(rt.is_monitored_chat(CHAT));
    assert!(!rt.is_monitored_chat(1));
    assert_eq!(rt.active().hot_config(), &hot(vec![CHAT], 5));
}

#[test]
fn dispatch_takes_each_source_in_turn() {
    let mut rt = runtime(vec![CHAT], 0, Some("[x]"));
    assert_eq!(rt.dispatch(LoopEvent::UpdateFailed, 0), LoopStep::Idle);
    match rt.dispatch(
        LoopEvent::Update(new_message(message(CHAT, 1, true, "hello"))),
        0,
    ) {
        LoopStep::Update(UpdateStep { events, step }) => {
            assert_eq!(events, vec![seen(CHAT, 1, true)]);
            assert_eq!(
                step,
                MessageStep::EditMessage(PendingEdit {
                    chat_id: CHAT,
                    message_id: 1,
                    text: "[x]".to_owned()
                })
            );
        }
        other => panic!("expected an update step, got {other:?}"),
    }
    assert_eq!(
        rt.dispatch(LoopEvent::HotConfigChanged(hot(vec![5], 3)), 0),
        LoopStep::Reloaded
    );
    assert!(rt.is_monitored_chat(5));
    let mut bad = hot(vec![6], 3);
    bad.openai_model = "\t".to_owned();
    assert_eq!(
        rt.dispatch(LoopEvent::HotConfigChanged(bad), 0),
        LoopStep::ReloadRejected(LlmError::EmptyModel)
    );
    assert!(rt.is_monitored_chat(5));
    assert_eq!(rt.dispatch(LoopEvent::Shutdown, 0), LoopStep::Stop);
}

#[test]
fn pipeline_functions_work_on_caches_of_the_caller() {
    let rewrite = RewriteConfig {
        chats: vec![1],
        system_prompt: "p".to_owned(),
        context_messages: 1,
    };
    let mut dedupe = DedupeCache::new(Duration::from_secs(1));
    let mut cache = ContextCache::new(3);
    let scope = ContextScope {
        chat_id: 1,
        topic_root_id: None,
    };
    cache.record_message(scope, 1, ctx("Alice", "before"));
    let m = message(1, 2, true, " text ");
    // the cache has as many messages as are wanted: no fetch
    let step = process_message(&m, &rewrite, None, &mut dedupe, &mut cache, 0);
    assert_eq!(
        step,
        MessageStep::CallModel(PendingRewrite {
            chat_id: 1,
            message_id: 2,
            system_prompt: "p".to_owned(),
            context: vec![ctx("Alice", "before")],
            original: "text".to_owned(),
        })
    );
    assert!(cache.should_backfill(scope, 5, 0));

    let pending = PendingHistory {
        chat_id: 1,
        topic_root_id: None,
        message_id: 2,
        original: "text".to_owned(),
        count: 1,
        cached: vec![],
    };
    assert_eq!(
        history_fetched(pending, Some(vec![ctx("B", "f")]), &rewrite, Some("text")),
        MessageStep::Done(Outcome::Unchanged)
    );

    let (outcome, event) = edit_finished(
        PendingEdit {
            chat_id: 1,
            message_id: 2,
            text: "new".to_owned(),
        },
        true,
        &mut dedupe,
        0,
    );
    assert_eq!(outcome, Outcome::Edited);
    assert_eq!(
        event,
        Some(RewriteEvent::MessageEdited {
            chat_id: 1,
            message_id: 2
        })
    );
    assert_eq!(
        process_message(&m, &rewrite, None, &mut dedupe, &mut cache, SECOND),
        MessageStep::Done(Outcome::Duplicate)
    );
    assert_eq!(m.scope(), scope);
}
