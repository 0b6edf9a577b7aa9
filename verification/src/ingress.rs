//! Incoming chat messages: the language a reply is written in, the command aliases, and
//! the path a message takes.

use vstd::prelude::*;
use crate::text::{chars_of, replace_all, replace_str, string_of};

verus! {

/// The language of the replies in a topic: the session's, else the configured one, else
/// English.
pub fn active_language(session_language: Option<String>, configured: Option<String>) -> (r: String)
    ensures
        session_language is Some ==> r == session_language->Some_0,
        session_language is None && configured is Some ==> r == configured->Some_0,
        session_language is None && configured is None ==> r@ == "en"@,
{
    match session_language {
        Some(l) => l,
        None => match configured {
            Some(c) => c,
            None => "en".to_owned(),
        },
    }
}

/// Command words written with `_` where the agent's workflows use `-`.
pub open spec fn command_aliases_of(text: Seq<char>) -> Seq<char> {
    replace_all(replace_all(text, "/teamwork_preview"@, "/teamwork-preview"@), "/grill_me"@, "/grill-me"@)
}

/// Rewrites the command aliases of a message (after the bot mention was removed).
pub fn normalize_command_aliases(text: &str) -> (r: String)
    ensures
        r@ == command_aliases_of(text@),
{
    let a = replace_str(&chars_of(text), "/teamwork_preview", "/teamwork-preview");
    let b = replace_str(&a, "/grill_me", "/grill-me");
    string_of(&b)
}

/// The path a message takes after the access check.
#[derive(Clone, Debug, PartialEq, Eq)]
pub enum MessageRoute {
    /// Part of an album: collected with the other messages of the group.
    MediaGroup(String),
    /// An attachment without text: stored and kept for the next message.
    StashAttachment,
    /// An attachment with text: both go to the agent.
    MediaWithText,
    /// Text alone, together with any attachments kept earlier.
    Text,
    /// Nothing to do.
    Ignore,
}

/// Routes a message by its album id, whether it carries an attachment and its text.
pub fn route_message(media_group: Option<String>, has_media: bool, text: &str) -> (r: MessageRoute)
    ensures
        media_group is Some ==> r == MessageRoute::MediaGroup(media_group->Some_0),
        media_group is None && has_media ==> r == (if text@.len() == 0 {
            MessageRoute::StashAttachment
        } else {
            MessageRoute::MediaWithText
        }),
        media_group is None && !has_media ==> r == (if text@.len() == 0 {
            MessageRoute::Ignore
        } else {
            MessageRoute::Text
        }),
{
    match media_group {
        Some(g) => MessageRoute::MediaGroup(g),
        None => if has_media {
            if text.is_empty() {
                MessageRoute::StashAttachment
            } else {
                MessageRoute::MediaWithText
            }
        } else if text.is_empty() {
            MessageRoute::Ignore
        } else {
            MessageRoute::Text
        },
    }
}

} // verus!
