//! One line of chat history as it is handed to the rewriter.

use crate::text::{is_blank, is_blank_text};
use vstd::prelude::*;
use vstd::string::*;

verus! {

/// A chat message reduced to what the rewriter reads: who said it, and what.
#[derive(Debug, PartialEq, Eq)]
pub struct ContextMessage {
    pub sender_name: String,
    pub text: String,
}

/// The characters of a [`ContextMessage`].
pub struct ContextMessageView {
    pub sender_name: Seq<char>,
    pub text: Seq<char>,
}

impl View for ContextMessage {
    type V = ContextMessageView;

    open spec fn view(&self) -> ContextMessageView {
        ContextMessageView { sender_name: self.sender_name@, text: self.text@ }
    }
}

impl Clone for ContextMessage {
    fn clone(&self) -> (r: Self)
        ensures
            r@ == self@,
    {
        ContextMessage { sender_name: self.sender_name.clone(), text: self.text.clone() }
    }
}

/// The views of a list of messages, in order.
pub open spec fn message_views(messages: Seq<ContextMessage>) -> Seq<ContextMessageView> {
    messages.map_values(|m: ContextMessage| m@)
}

/// The line that stands for a message in the rewriter's input.
pub open spec fn llm_user_content(m: ContextMessageView) -> Seq<char> {
    m.sender_name + seq![':', ' '] + m.text
}

/// The name under which a message's author is shown to the rewriter.
pub open spec fn sender_name_of(outgoing: bool, peer_name: Option<Seq<char>>) -> Seq<char> {
    if outgoing {
        seq!['M', 'e']
    } else {
        match peer_name {
            Some(name) if !is_blank(name) => name,
            _ => seq!['U', 'n', 'k', 'n', 'o', 'w', 'n'],
        }
    }
}

impl ContextMessage {
    /// Renders the message as `sender: text`.
    pub fn as_llm_user_content(&self) -> (r: String)
        ensures
            r@ == llm_user_content(self@),
    {
        let mut out = String::new();
        out.append(self.sender_name.as_str());
        out.append(": ");
        out.append(self.text.as_str());
        proof {
            reveal_strlit(": ");
            assert(": "@ =~= seq![':', ' ']);
        }
        out
    }
}

/// Names the author of a message: the operator's own messages are "Me", a
/// peer goes by its display name, and a peer without a usable name is
/// "Unknown".
pub fn resolve_sender_name(outgoing: bool, peer_name: Option<&str>) -> (r: String)
    ensures
        r@ == sender_name_of(
            outgoing,
            match peer_name {
                Some(name) => Some(name@),
                None => None,
            },
        ),
{
    if outgoing {
        proof {
            reveal_strlit("Me");
            assert("Me"@ =~= seq!['M', 'e']);
        }
        return "Me".to_owned();
    }
    match peer_name {
        Some(name) => {
            if !is_blank_text(name) {
                return name.to_owned();
            }
        },
        None => {},
    }
    proof {
        reveal_strlit("Unknown");
        assert("Unknown"@ =~= seq!['U', 'n', 'k', 'n', 'o', 'w', 'n']);
    }
    "Unknown".to_owned()
}

} // verus!
