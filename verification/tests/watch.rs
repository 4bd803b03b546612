use brainrot_tg_llm_rewrite::config::{HotConfig, RewriteConfig};
use brainrot_tg_llm_rewrite::watch::{
    asks_for_reload, debounce_step, event_targets_watched_config, is_relevant_config_event_kind,
    path_targets_watched_config, replace_if_changed, settle_reload, AccessKind, CandidatePath,
    CreateKind, DebounceAction, DebounceEvent, DebounceState, EventKind, FsEvent, ModifyKind,
    ReloadOutcome, RemoveKind, CONFIG_SETTLE_MILLIS,
};

fn candidate(path: &str, canonical: Option<&str>) -> CandidatePath {
    CandidatePath {
        path: path.to_owned(),
        canonical: canonical.map(str::to_owned),
    }
}

fn hot(model: &str, chats: Vec<i64>) -> HotConfig {
    HotConfig {
        openai_api_key: "sk-test".to_owned(),
        openai_model: model.to_owned(),
        rewrite: RewriteConfig {
            chats,
            system_prompt: "rewrite this".to_owned(),
            context_messages: 10,
        },
    }
}

fn relevant_kinds_are_detected() {
    assert!(is_relevant_config_event_kind(&EventKind::Modify(
        ModifyKind::Any
    )));
    assert!(is_relevant_config_event_kind(&EventKind::Create(
        CreateKind::Any
    )));
    assert!(is_relevant_config_event_kind(&EventKind::Remove(
        RemoveKind::Any
    )));
    assert!(is_relevant_config_event_kind(&EventKind::Any));
    assert!(!is_relevant_config_event_kind(&EventKind::Access(
        AccessKind::Any
    )));
}

#[test]
fn app_relevant_config_event_kinds_are_detected() {
    relevant_kinds_are_detected();
}

#[test]
fn main_relevant_config_event_kinds_are_detected() {
    relevant_kinds_are_detected();
}

#[test]
fn every_event_kind_is_classified() {
    let relevant = [
        EventKind::Any,
        EventKind::Modify(ModifyKind::Any),
        EventKind::Modify(ModifyKind::Data),
        EventKind::Modify(ModifyKind::Name),
        EventKind::Create(CreateKind::Any),
        EventKind::Create(CreateKind::File),
        EventKind::Remove(RemoveKind::Any),
        EventKind::Remove(RemoveKind::File),
    ];
    for kind in relevant {
        assert!(is_relevant_config_event_kind(&kind), "{kind:?}");
    }
    let ignored = [
        EventKind::Other,
        EventKind::Access(AccessKind::Any),
        EventKind::Access(AccessKind::Read),
        EventKind::Access(AccessKind::Open),
        EventKind::Access(AccessKind::Close),
        EventKind::Access(AccessKind::Other),
        EventKind::Modify(ModifyKind::Metadata),
        EventKind::Modify(ModifyKind::Other),
        EventKind::Create(CreateKind::Folder),
        EventKind::Create(CreateKind::Other),
        EventKind::Remove(RemoveKind::Folder),
        EventKind::Remove(RemoveKind::Other),
    ];
    for kind in ignored {
        assert!(!is_relevant_config_event_kind(&kind), "{kind:?}");
    }
}

fn targets_by_exact_path() {
    let watched_path = "/tmp/brainrot_watcher_exact_match/config.toml";
    let event = FsEvent {
        kind: EventKind::Modify(ModifyKind::Any),
        paths: vec![candidate(watched_path, None)],
    };
    assert!(event_targets_watched_config(&event, watched_path));
}

fn targets_by_normalized_parent_path() {
    let watched_path = "/tmp/brainrot_watcher_normalized_parent/config.toml";
    let path_with_dot = "/tmp/brainrot_watcher_normalized_parent/./config.toml";
    let event = FsEvent {
        kind: EventKind::Create(CreateKind::Any),
        paths: vec![candidate(path_with_dot, Some(watched_path))],
    };
    assert!(event_targets_watched_config(&event, watched_path));
}

fn does_not_target_other_files() {
    let watched_path = "/tmp/brainrot_watcher_other_files/config.toml";
    let other = "/tmp/brainrot_watcher_other_files/other.toml";
    let event = FsEvent {
        kind: EventKind::Modify(ModifyKind::Any),
        paths: vec![candidate(other, Some(other)), candidate(other, None)],
    };
    assert!(!event_targets_watched_config(&event, watched_path));
}

#[test]
fn app_event_targets_watched_config_by_exact_path() {
    targets_by_exact_path();
}

#[test]
fn main_event_targets_watched_config_by_exact_path() {
    targets_by_exact_path();
}

#[test]
fn app_event_targets_watched_config_by_normalized_parent_path() {
    targets_by_normalized_parent_path();
}

#[test]
fn main_event_targets_watched_config_by_normalized_parent_path() {
    targets_by_normalized_parent_path();
}

#[test]
fn app_event_does_not_target_other_files() {
    does_not_target_other_files();
}

#[test]
fn main_event_does_not_target_other_files() {
    does_not_target_other_files();
}

#[test]
fn path_targets_by_either_form() {
    let watched = "/etc/app/config.toml";
    assert!(path_targets_watched_config(&candidate(watched, None), watched));
    assert!(path_targets_watched_config(
        &candidate("config.toml", Some(watched)),
        watched
    ));
    assert!(path_targets_watched_config(
        &candidate(watched, Some("/elsewhere")),
        watched
    ));
    assert!(!path_targets_watched_config(
        &candidate("config.toml", None),
        watched
    ));
    assert!(!path_targets_watched_config(
        &candidate("/etc/app/config.tomlx", Some("/etc/app/config.tom")),
        watched
    ));
}

#[test]
fn event_without_paths_targets_nothing() {
    let event = FsEvent {
        kind: EventKind::Any,
        paths: vec![],
    };
    assert!(!event_targets_watched_config(&event, "/a"));
    assert!(!asks_for_reload(&event, "/a"));
}

#[test]
fn reload_is_asked_for_only_by_relevant_events_on_the_watched_file() {
    let watched = "/a/config.toml";
    let hit = |kind| FsEvent {
        kind,
        paths: vec![candidate("/a/other", None), candidate(watched, None)],
    };
    assert!(asks_for_reload(&hit(EventKind::Modify(ModifyKind::Data)), watched));
    assert!(!asks_for_reload(&hit(EventKind::Access(AccessKind::Open)), watched));
    let miss = FsEvent {
        kind: EventKind::Modify(ModifyKind::Data),
        paths: vec![candidate("/a/other", None)],
    };
    assert!(!asks_for_reload(&miss, watched));
}

#[test]
fn debounce_cycle_drains_settles_drains_and_reloads() {
    let (s, a) = debounce_step(DebounceState::Idle, DebounceEvent::Signal);
    assert_eq!((s, a), (DebounceState::Pending, DebounceAction::DrainPending));
    let (s, a) = debounce_step(s, DebounceEvent::Drained);
    assert_eq!(
        (s, a),
        (DebounceState::Settling, DebounceAction::Settle { millis: 50 })
    );
    assert_eq!(CONFIG_SETTLE_MILLIS, 50);
    let (s, a) = debounce_step(s, DebounceEvent::SettleElapsed);
    assert_eq!((s, a), (DebounceState::Clearing, DebounceAction::DrainPending));
    let (s, a) = debounce_step(s, DebounceEvent::Drained);
    assert_eq!((s, a), (DebounceState::Reloading, DebounceAction::Reload));
    let (s, a) = debounce_step(s, DebounceEvent::ReloadFinished);
    assert_eq!((s, a), (DebounceState::Idle, DebounceAction::AwaitSignal));
}

#[test]
fn debounce_ignores_what_a_state_does_not_wait_for() {
    let states = [
        DebounceState::Idle,
        DebounceState::Pending,
        DebounceState::Settling,
        DebounceState::Clearing,
        DebounceState::Reloading,
        DebounceState::Closed,
    ];
    let events = [
        DebounceEvent::Signal,
        DebounceEvent::Drained,
        DebounceEvent::SettleElapsed,
        DebounceEvent::ReloadFinished,
        DebounceEvent::SourceClosed,
    ];
    let mut moves = 0;
    for state in states {
        for event in events {
            let (next, _) = debounce_step(state, event);
            if next != state {
                moves += 1;
            }
        }
    }
    assert_eq!(moves, 6);
    assert_eq!(
        debounce_step(DebounceState::Settling, DebounceEvent::Signal),
        (
            DebounceState::Settling,
            DebounceAction::Settle { millis: 50 }
        )
    );
    assert_eq!(
        debounce_step(DebounceState::Reloading, DebounceEvent::SourceClosed),
        (DebounceState::Reloading, DebounceAction::Reload)
    );
}

#[test]
fn debounce_stops_when_the_source_closes() {
    let (s, a) = debounce_step(DebounceState::Idle, DebounceEvent::SourceClosed);
    assert_eq!((s, a), (DebounceState::Closed, DebounceAction::Stop));
    let (s, a) = debounce_step(s, DebounceEvent::Signal);
    assert_eq!((s, a), (DebounceState::Closed, DebounceAction::Stop));
}

#[test]
fn unchanged_configuration_is_not_published() {
    let mut current = hot("gpt-4.1-mini", vec![1]);
    assert!(!replace_if_changed(&mut current, hot("gpt-4.1-mini", vec![1])));
    assert_eq!(current, hot("gpt-4.1-mini", vec![1]));
    assert_eq!(
        settle_reload(&mut current, Some(hot("gpt-4.1-mini", vec![1]))),
        ReloadOutcome::Unchanged
    );
}

#[test]
fn changed_configuration_takes_the_slot() {
    let mut current = hot("gpt-4.1-mini", vec![1]);
    assert!(replace_if_changed(&mut current, hot("gpt-4.1", vec![1])));
    assert_eq!(current, hot("gpt-4.1", vec![1]));
    assert_eq!(
        settle_reload(&mut current, Some(hot("gpt-4.1", vec![1, 2]))),
        ReloadOutcome::Published
    );
    assert_eq!(current, hot("gpt-4.1", vec![1, 2]));
    // only the newest value is held
    assert_eq!(
        settle_reload(&mut current, Some(hot("gpt-5", vec![3]))),
        ReloadOutcome::Published
    );
    assert_eq!(current, hot("gpt-5", vec![3]));
}

#[test]
fn failed_reload_keeps_the_previous_configuration() {
    let mut current = hot("gpt-4.1-mini", vec![1]);
    assert_eq!(settle_reload(&mut current, None), ReloadOutcome::Rejected);
    assert_eq!(current, hot("gpt-4.1-mini", vec![1]));
}
