//! Slash commands: which ones may run without the topic lock, the menu registered with
//! the messenger, and the routing of an incoming command to its handler.

use vstd::prelude::*;
use crate::text::{chars_of, eq_str, seqs, slice, starts_with, starts_with_str, trim, trim_chars, words, words_chars};

verus! {

/// The first whitespace-separated word of `s`, or the empty word.
pub open spec fn first_word(s: Seq<char>) -> Seq<char> {
    let w = words(s);
    if w.len() > 0 {
        w[0]
    } else {
        Seq::empty()
    }
}

/// Commands that only read state or interrupt work, and so bypass the topic lock.
pub open spec fn is_lock_free_word(w: Seq<char>) -> bool {
    ||| w == "/status"@
    ||| w == "/help"@
    ||| w == "/start"@
    ||| w == "/diagnose"@
    ||| w == "/memory"@
    ||| w == "/cron"@
    ||| w == "/upgrade"@
    ||| w == "/restart"@
    ||| w == "/stop"@
    ||| w == "/stop_all"@
    ||| w == "/abort"@
}

fn first_word_of(text: &str) -> (r: Vec<char>)
    ensures
        r@ == first_word(text@),
{
    let ws = words_chars(&chars_of(text));
    proof {
        assert(seqs(ws@).len() == ws@.len());
    }
    if ws.len() > 0 {
        ws[0].clone()
    } else {
        Vec::new()
    }
}

/// Whether the command word of `text` may run without taking the topic lock.
pub fn is_lock_free_command(text: &str) -> (r: bool)
    ensures
        r == is_lock_free_word(first_word(text@)),
{
    let w = first_word_of(text);
    eq_str(&w, "/status") || eq_str(&w, "/help") || eq_str(&w, "/start") || eq_str(&w, "/diagnose")
        || eq_str(&w, "/memory") || eq_str(&w, "/cron") || eq_str(&w, "/upgrade")
        || eq_str(&w, "/restart") || eq_str(&w, "/stop") || eq_str(&w, "/stop_all")
        || eq_str(&w, "/abort")
}

/// Agent workflows that a message may start with a slash command of their own.
pub open spec fn is_workflow_word(w: Seq<char>) -> bool {
    ||| w == "/goal"@
    ||| w == "/plan"@
    ||| w == "/learn"@
    ||| w == "/grill_me"@
    ||| w == "/grill-me"@
    ||| w == "/teamwork_preview"@
    ||| w == "/teamwork-preview"@
    ||| w == "/browser"@
    ||| w == "/boost"@
    ||| w == "/schedule"@
}

/// `text` starts an agent workflow: it starts with a slash and its first word names one.
pub open spec fn workflow_slash(text: Seq<char>) -> bool {
    starts_with(text, "/"@) && is_workflow_word(first_word(text))
}

/// Whether a message starts an agent workflow by its slash command.
pub fn is_workflow_slash_command(text: &str) -> (r: bool)
    ensures
        r == workflow_slash(text@),
{
    let w = first_word_of(text);
    starts_with_str(&chars_of(text), "/") && (eq_str(&w, "/goal") || eq_str(&w, "/plan") || eq_str(
        &w,
        "/learn",
    ) || eq_str(&w, "/grill_me") || eq_str(&w, "/grill-me") || eq_str(&w, "/teamwork_preview") || eq_str(
        &w,
        "/teamwork-preview",
    ) || eq_str(&w, "/browser") || eq_str(&w, "/boost") || eq_str(&w, "/schedule"))
}

/// The text handed to the agent for a message: one that starts with a slash but names no
/// workflow gets a leading space, so that the agent does not read it as one of its own
/// commands; other messages are unchanged.
pub fn escape_non_workflow_slash(text: &str) -> (r: String)
    ensures
        r@ == (if starts_with(text@, "/"@) && !workflow_slash(text@) {
            " "@ + text@
        } else {
            text@
        }),
{
    if starts_with_str(&chars_of(text), "/") && !is_workflow_slash_command(text) {
        let mut t = chars_of(" ");
        crate::text::append_str(&mut t, text);
        crate::text::string_of(&t)
    } else {
        text.to_owned()
    }
}

/// One entry of the command menu.
#[derive(Clone, Debug, PartialEq, Eq)]
pub struct BotCommandEntry {
    pub command: String,
    pub description: String,
}

/// The command menu: names and descriptions, in menu order.
pub open spec fn bot_command_table() -> Seq<(Seq<char>, Seq<char>)> {
    seq![
        ("new"@, "Start a fresh conversation session"@),
        ("reset"@, "Alias for /new"@),
        ("stop"@, "Cancel active CLI processes in chat"@),
        ("abort"@, "Forcefully stop all running workers"@),
        ("model"@, "Select or change active AI model"@),
        ("effort"@, "Select or change reasoning effort (low|medium|high)"@),
        ("lang"@, "Change active language for this session"@),
        ("status"@, "Show bot status and diagnostics report"@),
        ("memory"@, "Print workspace MAINMEMORY.md contents"@),
        ("cron"@, "Manage scheduled cron tasks"@),
        ("usage"@, "View model quota and remaining limits"@),
        ("restart"@, "Trigger clean restart of tuner service"@),
        ("plan"@, "Request step-by-step plan before execution"@),
        ("grill_me"@, "Start interactive interview alignment"@),
        ("goal"@, "Launch long-running thorough task"@),
        ("learn"@, "Record learning or behavior correction"@),
        ("teamwork_preview"@, "Launch collaborative multi-agent simulation"@),
        ("upgrade"@, "Check for updates and perform self-upgrade"@),
    ]
}

/// An entry as its (command, description) texts.
pub open spec fn entry_view(e: BotCommandEntry) -> (Seq<char>, Seq<char>) {
    (e.command@, e.description@)
}

fn push_entry(v: &mut Vec<BotCommandEntry>, command: &str, description: &str)
    ensures
        final(v)@.map_values(|e: BotCommandEntry| entry_view(e)) == old(v)@.map_values(
            |e: BotCommandEntry| entry_view(e),
        ).push((command@, description@)),
{
    let e = BotCommandEntry { command: command.to_owned(), description: description.to_owned() };
    let ghost before = v@;
    v.push(e);
    assert(v@.map_values(|e: BotCommandEntry| entry_view(e)) =~= before.map_values(
        |e: BotCommandEntry| entry_view(e),
    ).push((command@, description@)));
}

/// The commands offered in the messenger's command menu.
pub fn get_bot_commands() -> (r: Vec<BotCommandEntry>)
    ensures
        r@.map_values(|e: BotCommandEntry| entry_view(e)) == bot_command_table(),
{
    let mut v: Vec<BotCommandEntry> = Vec::new();
    assert(v@.map_values(|e: BotCommandEntry| entry_view(e)) =~= Seq::empty());
    push_entry(&mut v, "new", "Start a fresh conversation session");
    push_entry(&mut v, "reset", "Alias for /new");
    push_entry(&mut v, "stop", "Cancel active CLI processes in chat");
    push_entry(&mut v, "abort", "Forcefully stop all running workers");
    push_entry(&mut v, "model", "Select or change active AI model");
    push_entry(&mut v, "effort", "Select or change reasoning effort (low|medium|high)");
    push_entry(&mut v, "lang", "Change active language for this session");
    push_entry(&mut v, "status", "Show bot status and diagnostics report");
    push_entry(&mut v, "memory", "Print workspace MAINMEMORY.md contents");
    push_entry(&mut v, "cron", "Manage scheduled cron tasks");
    push_entry(&mut v, "usage", "View model quota and remaining limits");
    push_entry(&mut v, "restart", "Trigger clean restart of tuner service");
    push_entry(&mut v, "plan", "Request step-by-step plan before execution");
    push_entry(&mut v, "grill_me", "Start interactive interview alignment");
    push_entry(&mut v, "goal", "Launch long-running thorough task");
    push_entry(&mut v, "learn", "Record learning or behavior correction");
    push_entry(&mut v, "teamwork_preview", "Launch collaborative multi-agent simulation");
    push_entry(&mut v, "upgrade", "Check for updates and perform self-upgrade");
    assert(v@.map_values(|e: BotCommandEntry| entry_view(e)) =~= bot_command_table());
    v
}

/// The command reference sent for `/help` and `/start`.
pub open spec fn help_reference() -> Seq<char> {
    "🤖 <b>[tuner] Command Reference:</b>
• /status - System diagnostics & session info
• /stop - Cancel active task in this topic (ESC)
• /abort - Hard kill all running worker processes
• /new (/reset) - Start a fresh conversation
• /model - Switch active AI model
• /effort - Set reasoning effort (low, medium, high)
• /lang - Change interface language
• /memory - View persistent MAINMEMORY.md
• /cron - Manage scheduled cron tasks
• /usage - View model quota and remaining limits
• /upgrade - Check for updates and self-upgrade
• /restart - Request clean service restart"@
}

/// The text of the `/help` reply.
pub fn help_text() -> (r: String)
    ensures
        r@ == help_reference(),
{
    "🤖 <b>[tuner] Command Reference:</b>
• /status - System diagnostics & session info
• /stop - Cancel active task in this topic (ESC)
• /abort - Hard kill all running worker processes
• /new (/reset) - Start a fresh conversation
• /model - Switch active AI model
• /effort - Set reasoning effort (low, medium, high)
• /lang - Change interface language
• /memory - View persistent MAINMEMORY.md
• /cron - Manage scheduled cron tasks
• /usage - View model quota and remaining limits
• /upgrade - Check for updates and self-upgrade
• /restart - Request clean service restart".to_owned()
}

/// The handler an incoming message is routed to.
#[derive(Clone, Debug, PartialEq, Eq)]
pub enum CommandRoute {
    /// `/help` or `/start`.
    Help,
    /// `/status` or `/diagnose`.
    Status,
    /// `/restart`.
    Restart,
    /// `/usage`.
    Usage,
    /// `/new`, `/reset`, `/stop`, `/stop_all` or `/abort`.
    SessionControl,
    /// `/model` with its arguments.
    Model(String),
    /// `/effort` with its arguments.
    Effort(String),
    /// `/lang` with its arguments.
    Lang(String),
    /// `/memory`.
    Memory,
    /// `/cron`.
    Cron,
    /// `/upgrade`.
    Upgrade,
    /// Not a command handled here.
    Unhandled,
}

/// `r` is the route of the message `text`: exact commands compare the trimmed text;
/// `/new`, `/reset`, `/model`, `/effort` and `/lang` match a prefix of the raw text, the
/// rest of which (trimmed) are the arguments.
pub open spec fn routed(text: Seq<char>, r: CommandRoute) -> bool {
    let t = trim(text);
    if t == "/help"@ || t == "/start"@ {
        r is Help
    } else if t == "/status"@ || t == "/diagnose"@ {
        r is Status
    } else if t == "/restart"@ {
        r is Restart
    } else if t == "/usage"@ {
        r is Usage
    } else if starts_with(text, "/new"@) || starts_with(text, "/reset"@) || t == "/stop"@
        || t == "/stop_all"@ || t == "/abort"@ {
        r is SessionControl
    } else if starts_with(text, "/model"@) {
        r matches CommandRoute::Model(a) && a@ == trim(text.skip(6))
    } else if starts_with(text, "/effort"@) {
        r matches CommandRoute::Effort(a) && a@ == trim(text.skip(7))
    } else if starts_with(text, "/lang"@) {
        r matches CommandRoute::Lang(a) && a@ == trim(text.skip(5))
    } else if t == "/memory"@ {
        r is Memory
    } else if t == "/cron"@ {
        r is Cron
    } else if t == "/upgrade"@ {
        r is Upgrade
    } else {
        r is Unhandled
    }
}

fn arguments_after(s: &Vec<char>, n: usize) -> (r: String)
    requires
        n <= s@.len(),
    ensures
        r@ == trim(s@.skip(n as int)),
{
    let rest = slice(s, n, s.len());
    assert(rest@ == s@.skip(n as int));
    crate::text::string_of(&trim_chars(&rest))
}

/// Decides which handler a message goes to.
pub fn route_command(text: &str) -> (r: CommandRoute)
    ensures
        routed(text@, r),
{
    let s = chars_of(text);
    let t = trim_chars(&s);
    if eq_str(&t, "/help") || eq_str(&t, "/start") {
        return CommandRoute::Help;
    }
    if eq_str(&t, "/status") || eq_str(&t, "/diagnose") {
        return CommandRoute::Status;
    }
    if eq_str(&t, "/restart") {
        return CommandRoute::Restart;
    }
    if eq_str(&t, "/usage") {
        return CommandRoute::Usage;
    }
    if starts_with_str(&s, "/new") || starts_with_str(&s, "/reset") || eq_str(&t, "/stop")
        || eq_str(&t, "/stop_all") || eq_str(&t, "/abort") {
        return CommandRoute::SessionControl;
    }
    if starts_with_str(&s, "/model") {
        proof {
            reveal_strlit("/model");
        }
        return CommandRoute::Model(arguments_after(&s, 6));
    }
    if starts_with_str(&s, "/effort") {
        proof {
            reveal_strlit("/effort");
        }
        return CommandRoute::Effort(arguments_after(&s, 7));
    }
    if starts_with_str(&s, "/lang") {
        proof {
            reveal_strlit("/lang");
        }
        return CommandRoute::Lang(arguments_after(&s, 5));
    }
    if eq_str(&t, "/memory") {
        return CommandRoute::Memory;
    }
    if eq_str(&t, "/cron") {
        return CommandRoute::Cron;
    }
    if eq_str(&t, "/upgrade") {
        return CommandRoute::Upgrade;
    }
    CommandRoute::Unhandled
}

/// A session-control command.
#[derive(Clone, Debug, PartialEq, Eq)]
pub enum SessionControl {
    /// `/new` or `/reset`; carries the trimmed command text, whose second word names a topic.
    New(String),
    /// `/stop`: interrupt the work of this topic.
    Stop,
    /// `/stop_all` or `/abort`: terminate every worker.
    StopAll,
    /// Not a session-control command.
    NotControl,
}

/// The command word of `text` without a `@bot` suffix.
pub open spec fn command_word(text: Seq<char>) -> Seq<char> {
    crate::text::split(first_word(trim(text)), '@')[0]
}

/// `r` is the session-control command of `text`.
pub open spec fn controlled(text: Seq<char>, r: SessionControl) -> bool {
    let cmd = command_word(text);
    if cmd == "/new"@ || cmd == "/reset"@ {
        r matches SessionControl::New(a) && a@ == trim(text)
    } else if cmd == "/stop"@ {
        r is Stop
    } else if cmd == "/stop_all"@ || cmd == "/abort"@ {
        r is StopAll
    } else {
        r is NotControl
    }
}

/// Classifies a session-control command, ignoring a `@bot` suffix on the command word.
pub fn session_control_command(text: &str) -> (r: SessionControl)
    ensures
        controlled(text@, r),
{
    let args = trim_chars(&chars_of(text));
    let ws = words_chars(&args);
    proof {
        assert(seqs(ws@).len() == ws@.len());
    }
    let raw: Vec<char> = if ws.len() > 0 { ws[0].clone() } else { Vec::new() };
    let parts = crate::text::split_chars(&raw, '@');
    proof {
        assert(seqs(parts@).len() == parts@.len());
    }
    let cmd = &parts[0];
    if eq_str(cmd, "/new") || eq_str(cmd, "/reset") {
        SessionControl::New(crate::text::string_of(&args))
    } else if eq_str(cmd, "/stop") {
        SessionControl::Stop
    } else if eq_str(cmd, "/stop_all") || eq_str(cmd, "/abort") {
        SessionControl::StopAll
    } else {
        SessionControl::NotControl
    }
}

} // verus!
