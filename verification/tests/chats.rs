use brainrot_tg_llm_rewrite::args::{AppArgs, AppMode};
use brainrot_tg_llm_rewrite::chats::{chars_of, holds_text, list_chats, ChatListItem, DialogEntry};
use brainrot_tg_llm_rewrite::config::ConfigMode;
use brainrot_tg_llm_rewrite::telegram::preflight_monitored_chats;
use std::collections::HashSet;

fn dialog(id: i64, name: Option<&str>) -> DialogEntry {
    DialogEntry {
        id,
        name: name.map(str::to_owned),
    }
}

fn item(id: i64, name: &str) -> ChatListItem {
    ChatListItem {
        id,
        name: name.to_owned(),
    }
}

/// The listing as the standard library's stable sort gives it.
fn expected(dialogs: &[DialogEntry], query: Option<&str>) -> Vec<ChatListItem> {
    let query = query.map(|q| q.to_lowercase());
    let mut chats: Vec<(String, ChatListItem)> = Vec::new();
    for d in dialogs {
        let name = d.name.clone().unwrap_or_default().trim().to_owned();
        let lower = name.to_lowercase();
        if query.as_ref().map_or(true, |q| lower.contains(q.as_str())) {
            chats.push((lower, item(d.id, &name)));
        }
    }
    chats.sort_by(|l, r| l.0.cmp(&r.0).then(l.1.id.cmp(&r.1.id)));
    chats.into_iter().map(|(_, i)| i).collect()
}

#[test]
fn list_chats_sorts_by_name_then_id() {
    let dialogs = vec![
        dialog(3, Some("work")),
        dialog(1, Some("  Alpha ")),
        dialog(2, Some("Work")),
        dialog(9, None),
        dialog(-4, Some("beta")),
        dialog(1, Some("WORK")),
    ];
    assert_eq!(
        list_chats(&dialogs, None),
        vec![
            item(9, ""),
            item(1, "Alpha"),
            item(-4, "beta"),
            item(1, "WORK"),
            item(2, "Work"),
            item(3, "work"),
        ]
    );
}

#[test]
fn list_chats_filters_without_regard_to_case() {
    let dialogs = vec![
        dialog(1, Some("Team Work")),
        dialog(2, Some("family")),
        dialog(3, Some("HOMEWORK")),
        dialog(4, Some("wor")),
    ];
    assert_eq!(
        list_chats(&dialogs, Some("WoRk")),
        vec![item(3, "HOMEWORK"), item(1, "Team Work")]
    );
    assert!(list_chats(&dialogs, Some("nothing")).is_empty());
    assert_eq!(list_chats(&dialogs, Some("")).len(), 4);
    assert!(list_chats(&Vec::new(), None).is_empty());
}

#[test]
fn list_chats_keeps_the_order_of_equal_entries() {
    let dialogs = vec![
        dialog(5, Some("Same ")),
        dialog(5, Some("same")),
        dialog(5, Some(" SAME")),
    ];
    assert_eq!(
        list_chats(&dialogs, None),
        vec![item(5, "Same"), item(5, "same"), item(5, "SAME")]
    );
}

#[test]
fn list_chats_agrees_with_the_standard_sort() {
    let names = [
        "zeta", "Zeta", "alpha", "", "  ", "\u{C9}cole", "\u{E9}cole", "ecole", "a", "ab", "A",
        "\u{1F600} party", "\u{4E2D}\u{6587}", "Stra\u{DF}e", "alpha", "ALPHA",
    ];
    let mut dialogs = Vec::new();
    for (i, name) in names.iter().enumerate() {
        let id = ((i as i64) * 7919) % 13 - 6;
        dialogs.push(dialog(id, Some(name)));
    }
    dialogs.push(dialog(0, None));
    for query in [None, Some("a"), Some("AL"), Some("\u{C9}"), Some("e"), Some("zz"), Some("")] {
        assert_eq!(
            list_chats(&dialogs, query),
            expected(&dialogs, query),
            "for {query:?}"
        );
    }
}

#[test]
fn holds_text_finds_runs_of_characters() {
    let hay = chars_of("h\u{E9}llo w\u{1F600}rld");
    assert_eq!(hay.len(), 11);
    assert!(holds_text(&hay, &chars_of("")));
    assert!(holds_text(&hay, &chars_of("h")));
    assert!(holds_text(&hay, &chars_of("\u{E9}ll")));
    assert!(holds_text(&hay, &chars_of("w\u{1F600}rld")));
    assert!(holds_text(&hay, &hay.clone()));
    assert!(!holds_text(&hay, &chars_of("world")));
    assert!(!holds_text(&hay, &chars_of("h\u{E9}llo w\u{1F600}rld!")));
    assert!(!holds_text(&chars_of(""), &chars_of("a")));
    assert!(holds_text(&chars_of(""), &chars_of("")));
    assert!(holds_text(&chars_of("aab"), &chars_of("ab")));
}

#[test]
fn preflight_passes_when_every_chat_is_known() {
    let monitored = HashSet::from([1, 2]);
    let known = HashSet::from([3, 2, 1]);
    assert_eq!(preflight_monitored_chats(&monitored, &known), Ok(()));
    assert_eq!(
        preflight_monitored_chats(&HashSet::new(), &HashSet::new()),
        Ok(())
    );
}

#[test]
fn preflight_names_the_unknown_chats_in_rising_order() {
    let monitored = HashSet::from([-1003, -1001, -1002]);
    let known = HashSet::from([-1001]);
    assert_eq!(
        preflight_monitored_chats(&monitored, &known),
        Err(vec![-1003, -1002])
    );
}

#[test]
fn args_choose_the_mode() {
    let args = AppArgs::from_flags("config.toml".to_owned(), false, None);
    assert_eq!(args.mode, AppMode::Rewrite);
    assert_eq!(args.config_path, "config.toml");
    assert_eq!(args.config_mode(), ConfigMode::Rewrite);

    let args = AppArgs::from_flags("x.toml".to_owned(), true, Some("team".to_owned()));
    assert_eq!(
        args.mode,
        AppMode::ListChats {
            query: Some("team".to_string())
        }
    );
    assert_eq!(args.config_path, "x.toml");
    assert_eq!(args.config_mode(), ConfigMode::ListChats);

    let args = AppArgs::from_flags("x.toml".to_owned(), true, None);
    assert_eq!(args.mode, AppMode::ListChats { query: None });
}
