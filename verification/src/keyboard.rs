//! Inline keyboards attached to bot messages, and the link check the messenger applies to
//! the addresses a button opens.

use vstd::prelude::*;

verus! {

/// What pressing a button does.
#[derive(Clone, Debug, PartialEq, Eq)]
pub enum ButtonAction {
    /// Open a link in the browser.
    Url(String),
    /// Open a link as a web app inside the messenger.
    WebApp(String),
    /// Send callback data back to the bot.
    Callback(String),
}

/// The kind of a button's action.
#[derive(Clone, Copy, Debug, PartialEq, Eq)]
pub enum ActionKind {
    Link,
    WebApp,
    Callback,
}

/// One inline keyboard button.
#[derive(Clone, Debug, PartialEq, Eq)]
pub struct KeyboardButton {
    pub text: String,
    pub action: ButtonAction,
}

/// An inline keyboard, row by row.
#[derive(Clone, Debug, PartialEq, Eq)]
pub struct InlineKeyboard {
    pub inline_keyboard: Vec<Vec<KeyboardButton>>,
}

/// What `url::Url::parse` accepts.
pub uninterp spec fn url_accepted(s: Seq<char>) -> bool;

/// Wraps `url::Url::parse`, reporting whether it accepts the text.
#[verifier::external_body]
pub(crate) fn url_parses(s: &str) -> (r: bool)
    ensures
        r == url_accepted(s@),
{
    url::Url::parse(s).is_ok()
}

/// A button as (label, kind of action, link or callback data).
pub open spec fn button_view(b: KeyboardButton) -> (Seq<char>, ActionKind, Seq<char>) {
    match b.action {
        ButtonAction::Url(u) => (b.text@, ActionKind::Link, u@),
        ButtonAction::WebApp(u) => (b.text@, ActionKind::WebApp, u@),
        ButtonAction::Callback(c) => (b.text@, ActionKind::Callback, c@),
    }
}

/// A row of buttons as button views.
pub open spec fn row_view(row: Vec<KeyboardButton>) -> Seq<(Seq<char>, ActionKind, Seq<char>)> {
    row@.map_values(|b: KeyboardButton| button_view(b))
}

/// A keyboard as rows of button views.
pub open spec fn keyboard_view(k: InlineKeyboard) -> Seq<Seq<(Seq<char>, ActionKind, Seq<char>)>> {
    k.inline_keyboard@.map_values(|row: Vec<KeyboardButton>| row_view(row))
}

/// A button that sends `data` back to the bot.
pub fn callback_button(text: &str, data: &str) -> (b: KeyboardButton)
    ensures
        button_view(b) == (text@, ActionKind::Callback, data@),
{
    KeyboardButton { text: text.to_owned(), action: ButtonAction::Callback(data.to_owned()) }
}

} // verus!
