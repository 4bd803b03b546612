//! What the runtime reports to an observer, the options it is started with,
//! and the names it gives to the kinds of update it does not handle.

use crate::text::{trim, trimmed};
use vstd::prelude::*;
use vstd::string::*;

verus! {

/// The kinds of update that are handled in a monitored conversation.
#[derive(Debug, Clone, Copy, PartialEq, Eq)]
pub enum MonitoredUpdateKind {
    NewMessage,
}

/// What an observer is told.
#[derive(Debug, PartialEq, Eq)]
pub enum RewriteEvent {
    RuntimeReady {
        catch_up_enabled: bool,
        skip_historical_catch_up_messages: bool,
        startup_unix: i64,
    },
    MonitoredUpdate {
        chat_id: i64,
        topic_root_id: Option<i32>,
        message_id: i32,
        outgoing: bool,
        kind: MonitoredUpdateKind,
    },
    MessageEdited { chat_id: i64, message_id: i32 },
    UnsupportedUpdateIgnored { update_kind: String },
}

/// The values of a [`RewriteEvent`].
pub enum RewriteEventView {
    RuntimeReady {
        catch_up_enabled: bool,
        skip_historical_catch_up_messages: bool,
        startup_unix: i64,
    },
    MonitoredUpdate {
        chat_id: i64,
        topic_root_id: Option<i32>,
        message_id: i32,
        outgoing: bool,
        kind: MonitoredUpdateKind,
    },
    MessageEdited { chat_id: i64, message_id: i32 },
    UnsupportedUpdateIgnored { update_kind: Seq<char> },
}

impl View for RewriteEvent {
    type V = RewriteEventView;

    open spec fn view(&self) -> RewriteEventView {
        match *self {
            RewriteEvent::RuntimeReady {
                catch_up_enabled,
                skip_historical_catch_up_messages,
                startup_unix,
            } => RewriteEventView::RuntimeReady {
                catch_up_enabled,
                skip_historical_catch_up_messages,
                startup_unix,
            },
            RewriteEvent::MonitoredUpdate {
                chat_id,
                topic_root_id,
                message_id,
                outgoing,
                kind,
            } => RewriteEventView::MonitoredUpdate {
                chat_id,
                topic_root_id,
                message_id,
                outgoing,
                kind,
            },
            RewriteEvent::MessageEdited { chat_id, message_id } => RewriteEventView::MessageEdited {
                chat_id,
                message_id,
            },
            RewriteEvent::UnsupportedUpdateIgnored {
                update_kind,
            } => RewriteEventView::UnsupportedUpdateIgnored { update_kind: update_kind@ },
        }
    }
}

impl Clone for RewriteEvent {
    fn clone(&self) -> (r: Self)
        ensures
            r@ == self@,
    {
        match self {
            RewriteEvent::RuntimeReady {
                catch_up_enabled,
                skip_historical_catch_up_messages,
                startup_unix,
            } => RewriteEvent::RuntimeReady {
                catch_up_enabled: *catch_up_enabled,
                skip_historical_catch_up_messages: *skip_historical_catch_up_messages,
                startup_unix: *startup_unix,
            },
            RewriteEvent::MonitoredUpdate {
                chat_id,
                topic_root_id,
                message_id,
                outgoing,
                kind,
            } => RewriteEvent::MonitoredUpdate {
                chat_id: *chat_id,
                topic_root_id: *topic_root_id,
                message_id: *message_id,
                outgoing: *outgoing,
                kind: *kind,
            },
            RewriteEvent::MessageEdited { chat_id, message_id } => RewriteEvent::MessageEdited {
                chat_id: *chat_id,
                message_id: *message_id,
            },
            RewriteEvent::UnsupportedUpdateIgnored {
                update_kind,
            } => RewriteEvent::UnsupportedUpdateIgnored { update_kind: update_kind.clone() },
        }
    }
}

/// The views of a list of events, in order.
pub open spec fn event_views(events: Seq<RewriteEvent>) -> Seq<RewriteEventView> {
    events.map_values(|e: RewriteEvent| e@)
}

/// The characters of an optional text.
pub open spec fn text_view(text: Option<String>) -> Option<Seq<char>> {
    match text {
        Some(t) => Some(t@),
        None => None,
    }
}

/// The characters of an optional string slice.
pub open spec fn str_view(text: Option<&str>) -> Option<Seq<char>> {
    match text {
        Some(t) => Some(t@),
        None => None,
    }
}

/// How the runtime is asked to behave at start.
#[derive(Debug)]
pub struct RewriteRuntimeOptions {
    pub catch_up_enabled: bool,
    pub skip_historical_catch_up_messages: bool,
    pub rewrite_override: Option<String>,
}

impl Clone for RewriteRuntimeOptions {
    fn clone(&self) -> (r: Self)
        ensures
            r.catch_up_enabled == self.catch_up_enabled,
            r.skip_historical_catch_up_messages == self.skip_historical_catch_up_messages,
            text_view(r.rewrite_override) == text_view(self.rewrite_override),
    {
        RewriteRuntimeOptions {
            catch_up_enabled: self.catch_up_enabled,
            skip_historical_catch_up_messages: self.skip_historical_catch_up_messages,
            rewrite_override: match &self.rewrite_override {
                Some(text) => Some(text.clone()),
                None => None,
            },
        }
    }
}

impl RewriteRuntimeOptions {
    /// The options that the process environment asks for. Each of the first
    /// two behaviours is on unless the variable that switches it off is set;
    /// the fixed replacement text is taken as the environment gives it.
    pub fn from_env_values(
        catch_up_switched_off: bool,
        historical_skip_switched_off: bool,
        rewrite_override: Option<String>,
    ) -> (options: Self)
        ensures
            options.catch_up_enabled == !catch_up_switched_off,
            options.skip_historical_catch_up_messages == !historical_skip_switched_off,
            options.rewrite_override == rewrite_override,
    {
        RewriteRuntimeOptions {
            catch_up_enabled: !catch_up_switched_off,
            skip_historical_catch_up_messages: !historical_skip_switched_off,
            rewrite_override,
        }
    }
}

/// A fixed replacement text counts only if something is left of it after
/// trimming; what is left is what is used.
pub open spec fn normalized_override(rewrite_override: Option<Seq<char>>) -> Option<Seq<char>> {
    match rewrite_override {
        Some(value) if trimmed(value).len() > 0 => Some(trimmed(value)),
        _ => None,
    }
}

/// Trims a fixed replacement text and drops one of which nothing is left.
pub fn normalize_rewrite_override(rewrite_override: Option<String>) -> (r: Option<String>)
    ensures
        text_view(r) == normalized_override(text_view(rewrite_override)),
{
    match rewrite_override {
        Some(value) => {
            let kept = trim(value.as_str());
            if kept.unicode_len() == 0 {
                None
            } else {
                Some(kept.to_owned())
            }
        },
        None => None,
    }
}

/// A message dated before the runtime started was delivered as catch-up.
pub fn is_historical_catch_up_message(message_unix: i64, startup_unix: i64) -> (r: bool)
    ensures
        r == (message_unix < startup_unix),
{
    message_unix < startup_unix
}

/// The kinds of update that the platform delivers. A raw update carries the
/// debug rendering of what the platform sent.
#[derive(Debug, PartialEq, Eq)]
pub enum UpdateKind {
    NewMessage,
    MessageEdited,
    MessageDeleted,
    CallbackQuery,
    InlineQuery,
    InlineSend,
    Raw(String),
    Unknown,
}

/// The values of an [`UpdateKind`].
pub enum UpdateKindView {
    NewMessage,
    MessageEdited,
    MessageDeleted,
    CallbackQuery,
    InlineQuery,
    InlineSend,
    Raw(Seq<char>),
    Unknown,
}

impl View for UpdateKind {
    type V = UpdateKindView;

    open spec fn view(&self) -> UpdateKindView {
        match *self {
            UpdateKind::NewMessage => UpdateKindView::NewMessage,
            UpdateKind::MessageEdited => UpdateKindView::MessageEdited,
            UpdateKind::MessageDeleted => UpdateKindView::MessageDeleted,
            UpdateKind::CallbackQuery => UpdateKindView::CallbackQuery,
            UpdateKind::InlineQuery => UpdateKindView::InlineQuery,
            UpdateKind::InlineSend => UpdateKindView::InlineSend,
            UpdateKind::Raw(rendered) => UpdateKindView::Raw(rendered@),
            UpdateKind::Unknown => UpdateKindView::Unknown,
        }
    }
}

/// The number of characters of `s` that stand before the first `c`; all of
/// them where `s` holds no `c`.
pub open spec fn len_before(s: Seq<char>, c: char) -> nat
    decreases s.len(),
{
    if s.len() == 0 || s.first() == c {
        0
    } else {
        1 + len_before(s.drop_first(), c)
    }
}

/// What stands before the first `c` in `s`.
pub open spec fn text_before(s: Seq<char>, c: char) -> Seq<char> {
    s.take(len_before(s, c) as int)
}

/// The name under which an update kind is reported. A raw update goes by
/// `raw/` and the name its rendering opens with.
pub open spec fn kind_name(kind: UpdateKindView) -> Seq<char> {
    match kind {
        UpdateKindView::NewMessage => "new_message"@,
        UpdateKindView::MessageEdited => "message_edited"@,
        UpdateKindView::MessageDeleted => "message_deleted"@,
        UpdateKindView::CallbackQuery => "callback_query"@,
        UpdateKindView::InlineQuery => "inline_query"@,
        UpdateKindView::InlineSend => "inline_send"@,
        UpdateKindView::Raw(rendered) => "raw/"@ + text_before(rendered, '('),
        UpdateKindView::Unknown => "unknown"@,
    }
}

proof fn lemma_len_before_at(s: Seq<char>, c: char, k: int)
    requires
        0 <= k <= s.len(),
        forall|j: int| 0 <= j < k ==> s[j] != c,
        k < s.len() ==> s[k] == c,
    ensures
        len_before(s, c) == k,
    decreases k,
{
    if k > 0 {
        let rest = s.drop_first();
        assert forall|j: int| 0 <= j < k - 1 implies rest[j] != c by {
            assert(rest[j] == s[j + 1]);
        }
        lemma_len_before_at(rest, c, k - 1);
    }
}

/// The part of `s` that stands before the first `c`.
pub fn take_before<'a>(s: &'a str, c: char) -> (r: &'a str)
    ensures
        r@ == text_before(s@, c),
{
    let n: usize = s.unicode_len();
    let mut i: usize = 0;
    for ch in it: s.chars()
        invariant
            it.seq() == s@,
            i == it.index(),
            n == s@.len(),
            forall|j: int| 0 <= j < i ==> s@[j] != c,
    {
        if ch == c {
            proof {
                lemma_len_before_at(s@, c, i as int);
            }
            return s.substring_char(0, i);
        }
        i = i + 1;
    }
    proof {
        lemma_len_before_at(s@, c, n as int);
        assert(s@.take(n as int) =~= s@);
    }
    s
}

/// The name under which an update kind is reported.
pub fn update_kind_name(kind: &UpdateKind) -> (name: String)
    ensures
        name@ == kind_name(kind@),
{
    match kind {
        UpdateKind::NewMessage => "new_message".to_owned(),
        UpdateKind::MessageEdited => "message_edited".to_owned(),
        UpdateKind::MessageDeleted => "message_deleted".to_owned(),
        UpdateKind::CallbackQuery => "callback_query".to_owned(),
        UpdateKind::InlineQuery => "inline_query".to_owned(),
        UpdateKind::InlineSend => "inline_send".to_owned(),
        UpdateKind::Raw(rendered) => {
            let mut name = "raw/".to_owned();
            name.append(take_before(rendered.as_str(), '('));
            name
        },
        UpdateKind::Unknown => "unknown".to_owned(),
    }
}

} // verus!
