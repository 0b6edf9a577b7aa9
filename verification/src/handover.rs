//! Topic handover: distilling a forum topic's chat history into a compact summary that
//! seeds the next session of that topic.
//!
//! The summary has the topic objective, up to five agreed decisions, the current progress
//! and a few recent dialogue excerpts, rendered into a fixed prompt template.

use vstd::prelude::*;
use crate::text::{
    decimal_i64, decimal_int, exceeds_bytes, append, append_str, chars_of, contains, eq_chars, eq_ignore_ascii_case,
    eq_ignore_case_chars, join, join_chars, lines, lines_chars, lowercase,
    seqs, slice, split, split_chars, starts_with, starts_with_str, string_of, strings_of,
    to_lowercase, trim, trim_chars, truncate_bytes, truncate_bytes_chars, utf8_len, words,
    words_chars,
};

verus! {

/// One logged message of a topic conversation.
#[derive(Clone, Debug)]
pub struct TelegramHistoryEntry {
    pub timestamp: String,
    pub topic_id: Option<i64>,
    pub topic_name: Option<String>,
    pub sender: String,
    pub message_id: Option<i32>,
    pub text: String,
    pub is_success: bool,
    pub error: Option<String>,
}

/// Metadata stored beside a session's history.
#[derive(Clone, Debug)]
pub struct TopicMetadata {
    pub session_id: String,
    pub topic_id: Option<i64>,
    pub topic_name: Option<String>,
    pub created_at: String,
}

/// The compressed context of a topic, handed to its next session.
#[derive(Clone, Debug, PartialEq)]
pub struct TopicHandoverContext {
    pub topic_id: Option<i64>,
    pub topic_name: Option<String>,
    pub previous_session_id: String,
    pub topic_objective: String,
    pub agreed_decisions: Vec<String>,
    pub current_progress: String,
    pub handover_prompt: String,
}

// ---------------------------------------------------------------------------
// Word lists
// ---------------------------------------------------------------------------

/// The views of a list of string slices.
pub open spec fn strs(list: Seq<&str>) -> Seq<Seq<char>> {
    list.map_values(|s: &str| s@)
}

/// Commands that steer the bot rather than the conversation.
pub open spec fn meta_commands() -> Seq<Seq<char>> {
    seq![
        "/new"@, "/reset"@, "/stop"@, "/abort"@, "/stop_all"@, "/model"@, "/status"@, "/usage"@,
        "/memory"@, "/help"@, "/diagnose"@, "/restart"@, "/upgrade"@,
    ]
}

fn meta_command_list() -> (r: Vec<&'static str>)
    ensures
        strs(r@) == meta_commands(),
{
    let mut r: Vec<&'static str> = Vec::new();
    r.push("/new");
    r.push("/reset");
    r.push("/stop");
    r.push("/abort");
    r.push("/stop_all");
    r.push("/model");
    r.push("/status");
    r.push("/usage");
    r.push("/memory");
    r.push("/help");
    r.push("/diagnose");
    r.push("/restart");
    r.push("/upgrade");
    assert(strs(r@) =~= meta_commands());
    r
}

/// Lines that are only a greeting.
pub open spec fn greetings() -> Seq<Seq<char>> {
    seq![
        "hi"@, "hello"@, "hey"@, "안녕"@, "안녕하세요"@, "시작"@, "start"@, "hi!"@, "hello!"@,
        "안녕하세요!"@, "hi tuner"@, "hello tuner"@,
    ]
}

fn greeting_list() -> (r: Vec<&'static str>)
    ensures
        strs(r@) == greetings(),
{
    let mut r: Vec<&'static str> = Vec::new();
    r.push("hi");
    r.push("hello");
    r.push("hey");
    r.push("안녕");
    r.push("안녕하세요");
    r.push("시작");
    r.push("start");
    r.push("hi!");
    r.push("hello!");
    r.push("안녕하세요!");
    r.push("hi tuner");
    r.push("hello tuner");
    assert(strs(r@) =~= greetings());
    r
}

/// Words that mark a line as recording a decision.
pub open spec fn decision_keywords() -> Seq<Seq<char>> {
    seq![
        "결정"@, "확정"@, "합의"@, "선택"@, "채택"@, "적용"@, "완료"@, "하기로"@, "방식으로"@,
        "decided"@, "agreed"@, "chosen"@, "will use"@, "adopted"@, "plan is"@, "confirmed"@,
        "implemented"@,
    ]
}

fn decision_keyword_list() -> (r: Vec<&'static str>)
    ensures
        strs(r@) == decision_keywords(),
{
    let mut r: Vec<&'static str> = Vec::new();
    r.push("결정");
    r.push("확정");
    r.push("합의");
    r.push("선택");
    r.push("채택");
    r.push("적용");
    r.push("완료");
    r.push("하기로");
    r.push("방식으로");
    r.push("decided");
    r.push("agreed");
    r.push("chosen");
    r.push("will use");
    r.push("adopted");
    r.push("plan is");
    r.push("confirmed");
    r.push("implemented");
    assert(strs(r@) =~= decision_keywords());
    r
}

/// Whether `x` is one of the listed words.
fn in_list(list: &Vec<&'static str>, x: &Vec<char>) -> (r: bool)
    ensures
        r == strs(list@).contains(x@),
{
    let mut i: usize = 0;
    while i < list.len()
        invariant
            i <= list@.len(),
            forall|j: int| 0 <= j < i ==> strs(list@)[j] != x@,
        decreases list.len() - i,
    {
        if crate::text::eq_str(x, list[i]) {
            assert(strs(list@)[i as int] == x@);
            return true;
        }
        i = i + 1;
    }
    false
}

/// Whether some listed word occurs in `s`.
pub open spec fn contains_any(s: Seq<char>, words: Seq<Seq<char>>) -> bool {
    exists|i: int| 0 <= i < words.len() && contains(s, #[trigger] words[i])
}

fn contains_any_of(list: &Vec<&'static str>, s: &Vec<char>) -> (r: bool)
    ensures
        r == contains_any(s@, strs(list@)),
{
    let mut i: usize = 0;
    while i < list.len()
        invariant
            i <= list@.len(),
            forall|j: int| 0 <= j < i ==> !contains(s@, #[trigger] strs(list@)[j]),
        decreases list.len() - i,
    {
        if crate::text::contains_str(s, list[i]) {
            assert(contains(s@, strs(list@)[i as int]));
            return true;
        }
        i = i + 1;
    }
    false
}

// ---------------------------------------------------------------------------
// Line classification
// ---------------------------------------------------------------------------

/// The first whitespace-separated word of `s`, or nothing.
pub open spec fn first_word(s: Seq<char>) -> Seq<char> {
    if words(s).len() > 0 {
        words(s)[0]
    } else {
        Seq::empty()
    }
}

/// Whether a message is a bot-steering command or an earlier handover prompt.
pub open spec fn meta_cmd(text: Seq<char>) -> bool {
    let lower = lowercase(trim(text));
    starts_with(lower, "[topic context handover]"@) || contains(
        lower,
        "instructions for continuing this session"@,
    ) || meta_commands().contains(split(first_word(lower), '@')[0])
}

fn is_meta_cmd_chars(text: &Vec<char>) -> (r: bool)
    ensures
        r == meta_cmd(text@),
{
    let lower = to_lowercase(&trim_chars(text));
    if starts_with_str(&lower, "[topic context handover]") || crate::text::contains_str(
        &lower,
        "instructions for continuing this session",
    ) {
        return true;
    }
    let ws = words_chars(&lower);
    let raw_cmd: Vec<char> = if ws.len() > 0 {
        ws[0].clone()
    } else {
        Vec::new()
    };
    let pieces = split_chars(&raw_cmd, '@');
    assert(seqs(pieces@).len() > 0);
    let cmd = &pieces[0];
    in_list(&meta_command_list(), cmd)
}

/// Whether a message is a bot-steering command (`/new`, `/status@bot`, ...) or an earlier
/// handover prompt.
pub fn is_meta_cmd(text: &str) -> (r: bool)
    ensures
        r == meta_cmd(text@),
{
    is_meta_cmd_chars(&chars_of(text))
}

/// Whether a line is only a greeting.
pub open spec fn greeting(line: Seq<char>) -> bool {
    greetings().contains(lowercase(trim(line)))
}

fn is_greeting_chars(line: &Vec<char>) -> (r: bool)
    ensures
        r == greeting(line@),
{
    let l = to_lowercase(&trim_chars(line));
    in_list(&greeting_list(), &l)
}

/// Whether a line is only a greeting ("hi", "안녕하세요", ...).
pub fn is_greeting(line: &str) -> (r: bool)
    ensures
        r == greeting(line@),
{
    is_greeting_chars(&chars_of(line))
}

/// Whether a line is a heading, a fence or rule, or a piece of the handover template.
pub open spec fn boilerplate(line: Seq<char>) -> bool {
    let l = trim(line);
    starts_with(l, "#"@) || starts_with(l, "```"@) || starts_with(l, "---"@) || starts_with(
        l,
        "[TOPIC"@,
    ) || contains(l, "Seamlessly continue"@) || contains(l, "very first response"@) || contains(
        l,
        "Acknowledge that this topic"@,
    ) || contains(l, "INSTRUCTIONS FOR"@)
}

fn is_boilerplate_chars(line: &Vec<char>) -> (r: bool)
    ensures
        r == boilerplate(line@),
{
    let l = trim_chars(line);
    starts_with_str(&l, "#") || starts_with_str(&l, "```") || starts_with_str(&l, "---")
        || starts_with_str(&l, "[TOPIC") || crate::text::contains_str(&l, "Seamlessly continue")
        || crate::text::contains_str(&l, "very first response") || crate::text::contains_str(
        &l,
        "Acknowledge that this topic",
    ) || crate::text::contains_str(&l, "INSTRUCTIONS FOR")
}

/// Whether a line is a heading, a code fence, a rule, or a piece of the handover template.
pub fn is_boilerplate_or_header(line: &str) -> (r: bool)
    ensures
        r == boilerplate(line@),
{
    is_boilerplate_chars(&chars_of(line))
}

/// Whether a line records a decision: it is not boilerplate and, lowercased, holds a
/// decision keyword.
pub open spec fn decision_line(line: Seq<char>) -> bool {
    !boilerplate(line) && contains_any(lowercase(line), decision_keywords())
}

fn is_decision_chars(line: &Vec<char>) -> (r: bool)
    ensures
        r == decision_line(line@),
{
    if is_boilerplate_chars(line) {
        return false;
    }
    let l = to_lowercase(line);
    contains_any_of(&decision_keyword_list(), &l)
}

/// Whether a line records a decision ("decided", "합의", ...).
pub fn is_decision_line(line: &str) -> (r: bool)
    ensures
        r == decision_line(line@),
{
    is_decision_chars(&chars_of(line))
}


// ---------------------------------------------------------------------------
// Text helpers
// ---------------------------------------------------------------------------

/// Whether an entry was written by the user.
pub open spec fn from_user(e: TelegramHistoryEntry) -> bool {
    eq_ignore_ascii_case(e.sender@, "user"@)
}

fn is_user_entry(e: &TelegramHistoryEntry) -> (r: bool)
    ensures
        r == from_user(*e),
{
    eq_ignore_case_chars(&chars_of(e.sender.as_str()), &chars_of("user"))
}

/// `s` cut to `n` UTF-8 bytes (at a character boundary) with `...` appended, when longer.
pub open spec fn shorten(s: Seq<char>, n: int) -> Seq<char> {
    if utf8_len(s) > n {
        truncate_bytes(s, n) + "..."@
    } else {
        s
    }
}

fn shorten_chars(s: &Vec<char>, n: usize) -> (r: Vec<char>)
    ensures
        r@ == shorten(s@, n as int),
{
    if exceeds_bytes(s, n) {
        let mut t = truncate_bytes_chars(s, n);
        append_str(&mut t, "...");
        t
    } else {
        s.clone()
    }
}

/// Whether `c` is a list bullet (`-`, `*`, `•`).
pub open spec fn is_bullet(c: char) -> bool {
    c == '-' || c == '*' || c == '•'
}

/// `s` without its leading bullets.
pub open spec fn strip_bullets(s: Seq<char>) -> Seq<char>
    decreases s.len(),
{
    if s.len() > 0 && is_bullet(s[0]) {
        strip_bullets(s.drop_first())
    } else {
        s
    }
}

fn strip_bullets_chars(s: &Vec<char>) -> (r: Vec<char>)
    ensures
        r@ == strip_bullets(s@),
{
    let mut i: usize = 0;
    assert(s@.skip(0) == s@);
    while i < s.len() && (s[i] == '-' || s[i] == '*' || s[i] == '•')
        invariant
            i <= s@.len(),
            strip_bullets(s@) == strip_bullets(s@.skip(i as int)),
        decreases s.len() - i,
    {
        assert(s@.skip(i as int).drop_first() == s@.skip(i + 1));
        i = i + 1;
    }
    slice(s, i, s.len())
}

/// A line trimmed and stripped of leading bullets.
pub open spec fn clean_line(line: Seq<char>) -> Seq<char> {
    trim(strip_bullets(trim(line)))
}

fn clean_line_chars(line: &Vec<char>) -> (r: Vec<char>)
    ensures
        r@ == clean_line(line@),
{
    trim_chars(&strip_bullets_chars(&trim_chars(line)))
}

/// `s` with every newline replaced by a space.
pub open spec fn flatten_newlines(s: Seq<char>) -> Seq<char> {
    s.map_values(|c: char| if c == '\n' { ' ' } else { c })
}

fn flatten_newlines_chars(s: &Vec<char>) -> (r: Vec<char>)
    ensures
        r@ == flatten_newlines(s@),
{
    let mut r: Vec<char> = Vec::new();
    let mut i: usize = 0;
    while i < s.len()
        invariant
            i <= s@.len(),
            r@ == flatten_newlines(s@.take(i as int)),
        decreases s.len() - i,
    {
        let c = s[i];
        r.push(if c == '\n' { ' ' } else { c });
        assert(flatten_newlines(s@.take(i + 1)) == flatten_newlines(s@.take(i as int)).push(
            if c == '\n' { ' ' } else { c },
        ));
        i = i + 1;
    }
    assert(s@.take(s@.len() as int) == s@);
    r
}

/// At most the first three items of `s`.
pub open spec fn first_three(s: Seq<Seq<char>>) -> Seq<Seq<char>> {
    if s.len() <= 3 {
        s
    } else {
        s.take(3)
    }
}

// ---------------------------------------------------------------------------
// Objective
// ---------------------------------------------------------------------------

/// The objective used when nothing better is known.
pub open spec fn default_objective() -> Seq<char> {
    "Ongoing topic tasks and technical discussions"@
}

/// Trimmed lines of `ls` that are not empty and not greetings.
pub open spec fn substantive_lines(ls: Seq<Seq<char>>) -> Seq<Seq<char>>
    decreases ls.len(),
{
    if ls.len() == 0 {
        Seq::empty()
    } else {
        let t = trim(ls.last());
        let prev = substantive_lines(ls.drop_last());
        if t.len() > 0 && !greeting(t) {
            prev.push(t)
        } else {
            prev
        }
    }
}

fn substantive_lines_of(text: &Vec<char>) -> (r: Vec<Vec<char>>)
    ensures
        seqs(r@) == substantive_lines(lines(text@)),
{
    let ls = lines_chars(text);
    let mut r: Vec<Vec<char>> = Vec::new();
    let mut i: usize = 0;
    while i < ls.len()
        invariant
            i <= ls@.len(),
            seqs(ls@) == lines(text@),
            seqs(r@) == substantive_lines(seqs(ls@).take(i as int)),
        decreases ls.len() - i,
    {
        assert(seqs(ls@).take(i + 1).drop_last() == seqs(ls@).take(i as int));
        assert(seqs(ls@).take(i + 1).last() == ls@[i as int]@);
        let t = trim_chars(&ls[i]);
        if t.len() > 0 && !is_greeting_chars(&t) {
            r.push(t);
        }
        i = i + 1;
    }
    assert(seqs(ls@).take(ls@.len() as int) == seqs(ls@));
    r
}

/// What the first user message says: its non-greeting lines joined by spaces (or the whole
/// message when every line is a greeting), cut to 180 bytes.
pub open spec fn user_request(text: Seq<char>) -> Seq<char> {
    let ng = substantive_lines(lines(text));
    let combined = if ng.len() > 0 {
        join(ng, " "@)
    } else {
        trim(text)
    };
    shorten(combined, 180)
}

/// Position of the first entry from position `k` on that the user wrote.
pub open spec fn first_user_from(es: Seq<TelegramHistoryEntry>, k: int) -> Option<int>
    decreases es.len() - k,
{
    if k < 0 || k >= es.len() {
        None
    } else if from_user(es[k]) {
        Some(k)
    } else {
        first_user_from(es, k + 1)
    }
}

/// The topic objective: a meaningful prior objective, else the topic name and first user
/// request, else whichever of them exists, else the default objective.
pub open spec fn objective(
    es: Seq<TelegramHistoryEntry>,
    topic_name: Option<Seq<char>>,
    prior_obj: Option<Seq<char>>,
) -> Seq<char> {
    if prior_obj matches Some(po) && trim(po).len() > 0 && trim(po) != default_objective() {
        trim(prior_obj->0)
    } else {
        let user_msg = match first_user_from(es, 0) {
            Some(i) => Some(user_request(es[i].text@)),
            None => None,
        };
        match (topic_name, user_msg) {
            (Some(n), Some(u)) => if n.len() > 0 {
                "[Topic: "@ + n + "] "@ + u
            } else {
                u
            },
            (Some(n), None) => if n.len() > 0 {
                "Topic focus: "@ + n
            } else {
                default_objective()
            },
            (None, Some(u)) => u,
            (None, None) => default_objective(),
        }
    }
}

/// The view of an optional string slice.
pub open spec fn opt_str(o: Option<&str>) -> Option<Seq<char>> {
    match o {
        Some(s) => Some(s@),
        None => None,
    }
}

/// Distills the topic objective from a prior summary, the topic name and the first user
/// message.
pub fn extract_topic_objective(
    entries: &[TelegramHistoryEntry],
    topic_name: Option<&str>,
    prior_obj: Option<&str>,
) -> (r: String)
    ensures
        r@ == objective(entries@, opt_str(topic_name), opt_str(prior_obj)),
{
    if let Some(po) = prior_obj {
        let clean = trim_chars(&chars_of(po));
        if clean.len() > 0 && !crate::text::eq_str(&clean, "Ongoing topic tasks and technical discussions") {
            return string_of(&clean);
        }
    }
    let mut idx: usize = 0;
    while idx < entries.len() && !is_user_entry(&entries[idx])
        invariant
            idx <= entries@.len(),
            first_user_from(entries@, 0) == first_user_from(entries@, idx as int),
        decreases entries.len() - idx,
    {
        idx = idx + 1;
    }
    let user_msg: Option<Vec<char>> = if idx < entries.len() {
        let text = chars_of(entries[idx].text.as_str());
        let ng = substantive_lines_of(&text);
        let combined = if ng.len() > 0 {
            let mut sp: Vec<char> = Vec::new();
            append_str(&mut sp, " ");
            join_chars(&ng, &sp)
        } else {
            trim_chars(&text)
        };
        Some(shorten_chars(&combined, 180))
    } else {
        None
    };
    let mut out: Vec<char> = Vec::new();
    match (topic_name, user_msg) {
        (Some(n), Some(u)) => {
            let nv = chars_of(n);
            if nv.len() > 0 {
                append_str(&mut out, "[Topic: ");
                append(&mut out, &nv);
                append_str(&mut out, "] ");
                append(&mut out, &u);
            } else {
                out = u;
            }
        },
        (Some(n), None) => {
            let nv = chars_of(n);
            if nv.len() > 0 {
                append_str(&mut out, "Topic focus: ");
                append(&mut out, &nv);
            } else {
                append_str(&mut out, "Ongoing topic tasks and technical discussions");
            }
        },
        (None, Some(u)) => {
            out = u;
        },
        (None, None) => {
            append_str(&mut out, "Ongoing topic tasks and technical discussions");
        },
    }
    string_of(&out)
}


// ---------------------------------------------------------------------------
// Progress
// ---------------------------------------------------------------------------

/// Position of the last entry before position `k` that satisfies the assistant test
/// (`want_user == false`: not from the user and not boilerplate) or the user test
/// (`want_user == true`: from the user and not a meta command).
pub open spec fn last_matching(es: Seq<TelegramHistoryEntry>, k: int, want_user: bool) -> Option<int>
    decreases k,
{
    if k <= 0 || k > es.len() {
        None
    } else if (want_user && from_user(es[k - 1]) && !meta_cmd(es[k - 1].text@)) || (!want_user
        && !from_user(es[k - 1]) && !boilerplate(es[k - 1].text@)) {
        Some(k - 1)
    } else {
        last_matching(es, k - 1, want_user)
    }
}

/// Trimmed lines of `ls` that are not empty and are not boilerplate (assistant) or not
/// greetings (user).
pub open spec fn status_lines(ls: Seq<Seq<char>>, user: bool) -> Seq<Seq<char>>
    decreases ls.len(),
{
    if ls.len() == 0 {
        Seq::empty()
    } else {
        let t = trim(ls.last());
        let prev = status_lines(ls.drop_last(), user);
        if t.len() > 0 && (if user {
            !greeting(t)
        } else {
            !boilerplate(t)
        }) {
            prev.push(t)
        } else {
            prev
        }
    }
}

/// The first three status lines of a message joined by spaces, cut to 200 bytes.
pub open spec fn snippet(text: Seq<char>, user: bool) -> Seq<char> {
    shorten(join(first_three(status_lines(lines(text), user)), " "@), 200)
}

/// The progress lines: the last assistant status and the latest user request, when present.
pub open spec fn progress_parts(es: Seq<TelegramHistoryEntry>) -> Seq<Seq<char>> {
    let bot_part: Seq<Seq<char>> = match last_matching(es, es.len() as int, false) {
        Some(i) => if snippet(es[i].text@, false).len() > 0 {
            seq!["Last assistant status: "@ + snippet(es[i].text@, false)]
        } else {
            Seq::empty()
        },
        None => Seq::empty(),
    };
    let user_part: Seq<Seq<char>> = match last_matching(es, es.len() as int, true) {
        Some(i) => if snippet(es[i].text@, true).len() > 0 {
            seq!["Latest user request: "@ + snippet(es[i].text@, true)]
        } else {
            Seq::empty()
        },
        None => Seq::empty(),
    };
    bot_part + user_part
}

/// The current progress: the progress lines, else a meaningful prior progress text, else
/// a note that the discussion has only begun.
pub open spec fn progress(es: Seq<TelegramHistoryEntry>, prior_prog: Option<Seq<char>>) -> Seq<char> {
    let parts = progress_parts(es);
    if parts.len() > 0 {
        join(parts, "\n"@)
    } else if prior_prog matches Some(pp) && trim(pp).len() > 0 {
        trim(prior_prog->0)
    } else {
        "Initial session discussion in progress."@
    }
}

fn status_lines_of(text: &Vec<char>, user: bool) -> (r: Vec<Vec<char>>)
    ensures
        seqs(r@) == status_lines(lines(text@), user),
{
    let ls = lines_chars(text);
    let mut r: Vec<Vec<char>> = Vec::new();
    let mut i: usize = 0;
    while i < ls.len()
        invariant
            i <= ls@.len(),
            seqs(ls@) == lines(text@),
            seqs(r@) == status_lines(seqs(ls@).take(i as int), user),
        decreases ls.len() - i,
    {
        assert(seqs(ls@).take(i + 1).drop_last() == seqs(ls@).take(i as int));
        assert(seqs(ls@).take(i + 1).last() == ls@[i as int]@);
        let t = trim_chars(&ls[i]);
        let keep = if user {
            !is_greeting_chars(&t)
        } else {
            !is_boilerplate_chars(&t)
        };
        if t.len() > 0 && keep {
            r.push(t);
        }
        i = i + 1;
    }
    assert(seqs(ls@).take(ls@.len() as int) == seqs(ls@));
    r
}

fn snippet_of(text: &Vec<char>, user: bool) -> (r: Vec<char>)
    ensures
        r@ == snippet(text@, user),
{
    let ls = status_lines_of(text, user);
    let mut first: Vec<Vec<char>> = Vec::new();
    let mut i: usize = 0;
    while i < ls.len() && i < 3
        invariant
            i <= ls@.len(),
            i <= 3,
            seqs(first@) == seqs(ls@).take(i as int),
        decreases ls.len() - i,
    {
        first.push(ls[i].clone());
        assert(seqs(ls@).take(i + 1) == seqs(ls@).take(i as int).push(ls@[i as int]@));
        i = i + 1;
    }
    assert(seqs(first@) == first_three(seqs(ls@)));
    let mut sp: Vec<char> = Vec::new();
    append_str(&mut sp, " ");
    shorten_chars(&join_chars(&first, &sp), 200)
}

fn last_matching_index(entries: &[TelegramHistoryEntry], want_user: bool) -> (r: Option<usize>)
    ensures
        r matches Some(i) ==> i < entries@.len() && last_matching(entries@, entries@.len() as int, want_user) == Some(i as int),
        r is None ==> last_matching(entries@, entries@.len() as int, want_user) is None,
{
    let mut k: usize = entries.len();
    while k > 0
        invariant
            k <= entries@.len(),
            last_matching(entries@, entries@.len() as int, want_user) == last_matching(
                entries@,
                k as int,
                want_user,
            ),
        decreases k,
    {
        let e = &entries[k - 1];
        let text = chars_of(e.text.as_str());
        let user = is_user_entry(e);
        let hit = if want_user {
            user && !is_meta_cmd_chars(&text)
        } else {
            !user && !is_boilerplate_chars(&text)
        };
        if hit {
            return Some(k - 1);
        }
        k = k - 1;
    }
    None
}

/// Summarises where the topic stands: the last assistant status and the latest user
/// request, falling back to the prior progress text.
pub fn extract_current_progress(entries: &[TelegramHistoryEntry], prior_prog: Option<&str>) -> (r: String)
    ensures
        r@ == progress(entries@, opt_str(prior_prog)),
{
    let mut parts: Vec<Vec<char>> = Vec::new();
    let ghost es = entries@;
    if let Some(i) = last_matching_index(entries, false) {
        let snip = snippet_of(&chars_of(entries[i].text.as_str()), false);
        if snip.len() > 0 {
            let mut p: Vec<char> = Vec::new();
            append_str(&mut p, "Last assistant status: ");
            append(&mut p, &snip);
            parts.push(p);
        }
    }
    let ghost bot_part = seqs(parts@);
    if let Some(i) = last_matching_index(entries, true) {
        let snip = snippet_of(&chars_of(entries[i].text.as_str()), true);
        if snip.len() > 0 {
            let mut p: Vec<char> = Vec::new();
            append_str(&mut p, "Latest user request: ");
            append(&mut p, &snip);
            parts.push(p);
        }
    }
    assert(seqs(parts@) == progress_parts(es));
    if parts.len() == 0 {
        if let Some(pp) = prior_prog {
            let clean = trim_chars(&chars_of(pp));
            if clean.len() > 0 {
                return string_of(&clean);
            }
        }
        let mut d: Vec<char> = Vec::new();
        append_str(&mut d, "Initial session discussion in progress.");
        return string_of(&d);
    }
    let mut nl: Vec<char> = Vec::new();
    append_str(&mut nl, "\n");
    string_of(&join_chars(&parts, &nl))
}

// ---------------------------------------------------------------------------
// Excerpts
// ---------------------------------------------------------------------------

/// The entries worth quoting: neither meta commands nor boilerplate.
pub open spec fn quotable(es: Seq<TelegramHistoryEntry>) -> Seq<TelegramHistoryEntry>
    decreases es.len(),
{
    if es.len() == 0 {
        Seq::empty()
    } else {
        let prev = quotable(es.drop_last());
        let e = es.last();
        if !meta_cmd(e.text@) && !boilerplate(e.text@) {
            prev.push(e)
        } else {
            prev
        }
    }
}

/// One dialogue excerpt line: role, and the trimmed text cut to 250 bytes, on one line.
pub open spec fn excerpt(e: TelegramHistoryEntry) -> Seq<char> {
    let role = if from_user(e) {
        "User"@
    } else {
        "Assistant"@
    };
    let t = trim(e.text@);
    let c = if utf8_len(t) > 250 {
        truncate_bytes(t, 250) + "... [truncated]"@
    } else {
        t
    };
    "["@ + role + "]: "@ + flatten_newlines(c)
}

/// The excerpts of the last `max_count` quotable entries, oldest first.
pub open spec fn excerpts(es: Seq<TelegramHistoryEntry>, max_count: nat) -> Seq<Seq<char>> {
    let q = quotable(es);
    let start = if q.len() >= max_count {
        q.len() - max_count
    } else {
        0
    };
    q.skip(start).map_values(|e: TelegramHistoryEntry| excerpt(e))
}

/// The excerpts are those of the latest quotable entries: as many as `max_count` allows
/// (all of them when there are fewer), oldest first, so that the last excerpt is that of
/// the latest quotable entry.
pub proof fn lemma_excerpts_are_latest(es: Seq<TelegramHistoryEntry>, max_count: nat)
    ensures
        ({
            let q = quotable(es);
            let x = excerpts(es, max_count);
            &&& x.len() == if q.len() < max_count { q.len() } else { max_count }
            &&& forall|i: int| 0 <= i < x.len() ==> #[trigger] x[i] == excerpt(q[q.len() - x.len() + i])
            &&& q.len() > 0 && max_count > 0 ==> x.last() == excerpt(q.last())
        }),
{
}

fn excerpt_of(e: &TelegramHistoryEntry) -> (r: Vec<char>)
    ensures
        r@ == excerpt(*e),
{
    let t = trim_chars(&chars_of(e.text.as_str()));
    let c = if exceeds_bytes(&t, 250) {
        let mut c = truncate_bytes_chars(&t, 250);
        append_str(&mut c, "... [truncated]");
        c
    } else {
        t
    };
    let mut out: Vec<char> = Vec::new();
    append_str(&mut out, "[");
    if is_user_entry(e) {
        append_str(&mut out, "User");
    } else {
        append_str(&mut out, "Assistant");
    }
    append_str(&mut out, "]: ");
    append(&mut out, &flatten_newlines_chars(&c));
    out
}

/// Formats the last `max_count` quotable entries as `[User]: ...` / `[Assistant]: ...`
/// lines, oldest first.
pub fn format_recent_excerpts(entries: &[TelegramHistoryEntry], max_count: usize) -> (r: Vec<String>)
    ensures
        r@.map_values(|s: String| s@) == excerpts(entries@, max_count as nat),
{
    let mut clean: Vec<usize> = Vec::new();
    let mut i: usize = 0;
    while i < entries.len()
        invariant
            i <= entries@.len(),
            clean@.len() == quotable(entries@.take(i as int)).len(),
            forall|j: int| 0 <= j < clean@.len() ==> #[trigger] clean@[j] < entries@.len()
                && entries@[clean@[j] as int] == quotable(entries@.take(i as int))[j],
        decreases entries.len() - i,
    {
        assert(entries@.take(i + 1).drop_last() == entries@.take(i as int));
        let text = chars_of(entries[i].text.as_str());
        if !is_meta_cmd_chars(&text) && !is_boilerplate_chars(&text) {
            clean.push(i);
        }
        i = i + 1;
    }
    assert(entries@.take(entries@.len() as int) == entries@);
    let ghost q = quotable(entries@);
    let start = if clean.len() >= max_count {
        clean.len() - max_count
    } else {
        0
    };
    let mut out: Vec<String> = Vec::new();
    let mut k = start;
    while k < clean.len()
        invariant
            start <= k <= clean@.len(),
            clean@.len() == q.len(),
            forall|j: int| 0 <= j < clean@.len() ==> #[trigger] clean@[j] < entries@.len()
                && entries@[clean@[j] as int] == q[j],
            out@.map_values(|s: String| s@) == q.subrange(start as int, k as int).map_values(
                |e: TelegramHistoryEntry| excerpt(e),
            ),
        decreases clean.len() - k,
    {
        let line = excerpt_of(&entries[clean[k]]);
        let ghost before = out@;
        out.push(string_of(&line));
        assert(out@.map_values(|s: String| s@) == before.map_values(|s: String| s@).push(line@));
        assert(q.subrange(start as int, k + 1) == q.subrange(start as int, k as int).push(q[k as int]));
        k = k + 1;
    }
    assert(q.subrange(start as int, q.len() as int) == q.skip(start as int));
    out
}


// ---------------------------------------------------------------------------
// Decisions
// ---------------------------------------------------------------------------

/// Prefix of the placeholder recorded when no decision is known.
pub open spec fn no_decisions_prefix() -> Seq<char> {
    "No explicit technical decisions"@
}

/// The placeholder recorded when no decision is known.
pub open spec fn no_decisions_text() -> Seq<char> {
    "No explicit technical decisions recorded in previous session; continuing with baseline."@
}

/// Whether `x` is one of the character vectors in `v`.
fn list_has(v: &Vec<Vec<char>>, x: &Vec<char>) -> (r: bool)
    ensures
        r == seqs(v@).contains(x@),
{
    let mut i: usize = 0;
    while i < v.len()
        invariant
            i <= v@.len(),
            forall|j: int| 0 <= j < i ==> seqs(v@)[j] != x@,
        decreases v.len() - i,
    {
        if eq_chars(&v[i], x) {
            assert(seqs(v@)[i as int] == x@);
            return true;
        }
        i = i + 1;
    }
    false
}

/// The items of `v` in reverse order.
fn reversed(v: &Vec<Vec<char>>) -> (r: Vec<Vec<char>>)
    ensures
        seqs(r@) == seqs(v@).reverse(),
{
    let mut r: Vec<Vec<char>> = Vec::new();
    let mut k: usize = v.len();
    while k > 0
        invariant
            k <= v@.len(),
            r@.len() == v@.len() - k,
            forall|j: int| 0 <= j < r@.len() ==> #[trigger] r@[j]@ == v@[v@.len() - 1 - j]@,
        decreases k,
    {
        r.push(v[k - 1].clone());
        k = k - 1;
    }
    assert(seqs(r@) =~= seqs(v@).reverse());
    r
}

/// Adds one candidate line to the decisions collected so far (at most five, no repeats).
pub open spec fn decision_step(acc: Seq<Seq<char>>, line: Seq<char>) -> Seq<Seq<char>> {
    if acc.len() >= 5 {
        acc
    } else {
        let c = clean_line(line);
        if utf8_len(c) >= 6 && decision_line(c) {
            let item = shorten(c, 150);
            if acc.contains(item) {
                acc
            } else {
                acc.push(item)
            }
        } else {
            acc
        }
    }
}

/// Adds one candidate line to the fallback steps collected so far (at most three, no
/// repeats): numbered or "Step"/"단계" lines longer than ten bytes.
pub open spec fn step_step(acc: Seq<Seq<char>>, line: Seq<char>) -> Seq<Seq<char>> {
    if acc.len() >= 3 {
        acc
    } else {
        let c = clean_line(line);
        if !boilerplate(c) && (starts_with(c, "1."@) || starts_with(c, "2."@) || contains(
            c,
            "Step"@,
        ) || contains(c, "단계"@)) && utf8_len(c) > 10 {
            let item = shorten(c, 150);
            if acc.contains(item) {
                acc
            } else {
                acc.push(item)
            }
        } else {
            acc
        }
    }
}

/// Collects from the lines of one message, last line first.
pub open spec fn collect_lines(acc: Seq<Seq<char>>, ls: Seq<Seq<char>>, steps: bool) -> Seq<Seq<char>>
    decreases ls.len(),
{
    if ls.len() == 0 {
        acc
    } else {
        let next = if steps {
            step_step(acc, ls.last())
        } else {
            decision_step(acc, ls.last())
        };
        collect_lines(next, ls.drop_last(), steps)
    }
}

/// Collects from messages, last message first; fallback steps come only from assistant
/// messages.
pub open spec fn collect_entries(acc: Seq<Seq<char>>, es: Seq<TelegramHistoryEntry>, steps: bool) -> Seq<Seq<char>>
    decreases es.len(),
{
    if es.len() == 0 {
        acc
    } else if steps && from_user(es.last()) {
        collect_entries(acc, es.drop_last(), steps)
    } else {
        collect_entries(collect_lines(acc, lines(es.last().text@), steps), es.drop_last(), steps)
    }
}

fn collect_from_lines(acc: Vec<Vec<char>>, ls: &Vec<Vec<char>>, steps: bool) -> (r: Vec<Vec<char>>)
    ensures
        seqs(r@) == collect_lines(seqs(acc@), seqs(ls@), steps),
{
    let ghost acc0 = seqs(acc@);
    let mut acc = acc;
    let mut j: usize = ls.len();
    assert(seqs(ls@).take(ls@.len() as int) == seqs(ls@));
    while j > 0
        invariant
            j <= ls@.len(),
            collect_lines(acc0, seqs(ls@), steps) == collect_lines(seqs(acc@), seqs(ls@).take(j as int), steps),
        decreases j,
    {
        assert(seqs(ls@).take(j as int).drop_last() == seqs(ls@).take(j - 1));
        assert(seqs(ls@).take(j as int).last() == ls@[j - 1]@);
        let limit: usize = if steps { 3 } else { 5 };
        if acc.len() < limit {
            let c = clean_line_chars(&ls[j - 1]);
            let wanted = if steps {
                !is_boilerplate_chars(&c) && (starts_with_str(&c, "1.") || starts_with_str(&c, "2.")
                    || crate::text::contains_str(&c, "Step") || crate::text::contains_str(&c, "단계"))
                    && exceeds_bytes(&c, 10)
            } else {
                exceeds_bytes(&c, 5) && is_decision_chars(&c)
            };
            if wanted {
                let item = shorten_chars(&c, 150);
                if !list_has(&acc, &item) {
                    let ghost before = seqs(acc@);
                    acc.push(item);
                    assert(seqs(acc@) == before.push(item@));
                }
            }
        }
        j = j - 1;
    }
    acc
}

fn collect_from_entries(entries: &[TelegramHistoryEntry], steps: bool) -> (r: Vec<Vec<char>>)
    ensures
        seqs(r@) == collect_entries(Seq::empty(), entries@, steps),
{
    let mut acc: Vec<Vec<char>> = Vec::new();
    let mut k: usize = entries.len();
    assert(seqs(acc@) == Seq::<Seq<char>>::empty());
    assert(entries@.take(entries@.len() as int) == entries@);
    while k > 0
        invariant
            k <= entries@.len(),
            collect_entries(Seq::empty(), entries@, steps) == collect_entries(seqs(acc@), entries@.take(k as int), steps),
        decreases k,
    {
        assert(entries@.take(k as int).drop_last() == entries@.take(k - 1));
        assert(entries@.take(k as int).last() == entries@[k - 1]);
        let e = &entries[k - 1];
        if !(steps && is_user_entry(e)) {
            let ls = lines_chars(&chars_of(e.text.as_str()));
            acc = collect_from_lines(acc, &ls, steps);
        }
        k = k - 1;
    }
    acc
}

/// Prior decisions worth keeping: trimmed, non-empty, not the placeholder, and not already
/// kept or among the fresh decisions.
pub open spec fn prior_kept(prior: Seq<Seq<char>>, decisions: Seq<Seq<char>>) -> Seq<Seq<char>>
    decreases prior.len(),
{
    if prior.len() == 0 {
        Seq::empty()
    } else {
        let m = prior_kept(prior.drop_last(), decisions);
        let c = trim(prior.last());
        if c.len() > 0 && !starts_with(c, no_decisions_prefix()) && !m.contains(c)
            && !decisions.contains(c) {
            m.push(c)
        } else {
            m
        }
    }
}

/// Prior decisions followed by fresh ones, keeping the last five.
pub open spec fn merged(decisions: Seq<Seq<char>>, prior: Seq<Seq<char>>) -> Seq<Seq<char>> {
    if prior.len() == 0 {
        decisions
    } else {
        let all = prior_kept(prior, decisions) + decisions;
        if all.len() > 5 {
            all.skip(all.len() - 5)
        } else {
            all
        }
    }
}

/// Merges prior decisions in front of fresh ones, keeping the last five.
fn merge_prior_decisions(decisions: Vec<Vec<char>>, prior: &Vec<Vec<char>>) -> (r: Vec<Vec<char>>)
    ensures
        seqs(r@) == merged(seqs(decisions@), seqs(prior@)),
{
    if prior.len() == 0 {
        return decisions;
    }
    let mut m: Vec<Vec<char>> = Vec::new();
    let mut i: usize = 0;
    while i < prior.len()
        invariant
            i <= prior@.len(),
            seqs(m@) == prior_kept(seqs(prior@).take(i as int), seqs(decisions@)),
        decreases prior.len() - i,
    {
        assert(seqs(prior@).take(i + 1).drop_last() == seqs(prior@).take(i as int));
        assert(seqs(prior@).take(i + 1).last() == prior@[i as int]@);
        let c = trim_chars(&prior[i]);
        if c.len() > 0 && !starts_with_str(&c, "No explicit technical decisions") && !list_has(&m, &c)
            && !list_has(&decisions, &c) {
            m.push(c);
        }
        i = i + 1;
    }
    assert(seqs(prior@).take(prior@.len() as int) == seqs(prior@));
    let ghost kept = seqs(m@);
    let mut j: usize = 0;
    while j < decisions.len()
        invariant
            j <= decisions@.len(),
            seqs(m@) == kept + seqs(decisions@).take(j as int),
        decreases decisions.len() - j,
    {
        let ghost before = seqs(m@);
        m.push(decisions[j].clone());
        assert(seqs(m@) == before.push(decisions@[j as int]@));
        assert(seqs(decisions@).take(j + 1) == seqs(decisions@).take(j as int).push(decisions@[j as int]@));
        j = j + 1;
    }
    assert(seqs(decisions@).take(decisions@.len() as int) == seqs(decisions@));
    if m.len() > 5 {
        let start = m.len() - 5;
        let mut r: Vec<Vec<char>> = Vec::new();
        let mut k = start;
        while k < m.len()
            invariant
                start <= k <= m@.len(),
                seqs(r@) == seqs(m@).subrange(start as int, k as int),
            decreases m.len() - k,
        {
            r.push(m[k].clone());
            assert(seqs(m@).subrange(start as int, k + 1) == seqs(m@).subrange(start as int, k as int).push(m@[k as int]@));
            k = k + 1;
        }
        r
    } else {
        m
    }
}

/// Strings as character vectors.
fn chars_list(v: &[String]) -> (r: Vec<Vec<char>>)
    ensures
        seqs(r@) == v@.map_values(|s: String| s@),
{
    let mut r: Vec<Vec<char>> = Vec::new();
    let mut i: usize = 0;
    while i < v.len()
        invariant
            i <= v@.len(),
            seqs(r@) == v@.take(i as int).map_values(|s: String| s@),
        decreases v.len() - i,
    {
        r.push(chars_of(v[i].as_str()));
        assert(v@.take(i + 1).map_values(|s: String| s@) == v@.take(i as int).map_values(|s: String| s@).push(v@[i as int]@));
        i = i + 1;
    }
    assert(v@.take(v@.len() as int) == v@);
    r
}

/// The agreed decisions of a topic: decisions found in the history (oldest first) merged
/// with prior ones; else the fallback steps; else the placeholder.
pub open spec fn agreed(es: Seq<TelegramHistoryEntry>, prior: Seq<Seq<char>>) -> Seq<Seq<char>> {
    let m = merged(collect_entries(Seq::empty(), es, false).reverse(), prior);
    if m.len() > 0 {
        m
    } else {
        let f = collect_entries(Seq::empty(), es, true).reverse();
        if f.len() > 0 {
            f
        } else {
            seq![no_decisions_text()]
        }
    }
}

/// Numbered or "Step" lines from recent assistant messages, oldest first, at most three.
fn extract_fallback_steps(entries: &[TelegramHistoryEntry]) -> (r: Vec<Vec<char>>)
    ensures
        seqs(r@) == collect_entries(Seq::empty(), entries@, true).reverse(),
{
    let steps = collect_from_entries(entries, true);
    reversed(&steps)
}

/// Distills the agreed decisions of a topic from its history and prior decisions.
pub fn extract_agreed_decisions(entries: &[TelegramHistoryEntry], prior_decisions: &[String]) -> (r: Vec<String>)
    ensures
        r@.map_values(|s: String| s@) == agreed(entries@, prior_decisions@.map_values(|s: String| s@)),
{
    let found = collect_from_entries(entries, false);
    let decisions = reversed(&found);
    let prior = chars_list(prior_decisions);
    let mut m = merge_prior_decisions(decisions, &prior);
    if m.len() == 0 {
        m = extract_fallback_steps(entries);
    }
    if m.len() == 0 {
        let mut d: Vec<char> = Vec::new();
        append_str(&mut d, "No explicit technical decisions recorded in previous session; continuing with baseline.");
        m.push(d);
    }
    let r = strings_of(&m);
    assert(r@.map_values(|s: String| s@) =~= seqs(m@));
    r
}


// ---------------------------------------------------------------------------
// Prior summary
// ---------------------------------------------------------------------------

/// Adds the non-placeholder, non-empty trimmed pieces to the decisions.
pub open spec fn add_items(decs: Seq<Seq<char>>, pieces: Seq<Seq<char>>) -> Seq<Seq<char>>
    decreases pieces.len(),
{
    if pieces.len() == 0 {
        decs
    } else {
        let prev = add_items(decs, pieces.drop_last());
        let c = trim(pieces.last());
        if c.len() > 0 && !starts_with(c, no_decisions_prefix()) {
            prev.push(c)
        } else {
            prev
        }
    }
}

/// Reads one line of a prior summary.
pub open spec fn summary_step(st: (int, Seq<Seq<char>>, Seq<Seq<char>>, Seq<Seq<char>>), line: Seq<char>) -> (int, Seq<Seq<char>>, Seq<Seq<char>>, Seq<Seq<char>>) {
    let (sec, obj, decs, prog) = st;
    let t = trim(line);
    if starts_with(t, "Objective:"@) {
        let o = trim(t.skip(10));
        (1, if o.len() > 0 { obj.push(o) } else { obj }, decs, prog)
    } else if starts_with(t, "Decisions:"@) {
        let d = trim(t.skip(10));
        (2, obj, if d.len() > 0 { add_items(decs, split(d, ';')) } else { decs }, prog)
    } else if starts_with(t, "Progress:"@) {
        let p = trim(t.skip(9));
        (3, obj, decs, if p.len() > 0 { prog.push(p) } else { prog })
    } else if sec == 1 && t.len() > 0 {
        (sec, obj.push(t), decs, prog)
    } else if sec == 2 && t.len() > 0 {
        let c = trim(strip_bullets(t));
        (sec, obj, if c.len() > 0 && !starts_with(c, no_decisions_prefix()) { decs.push(c) } else { decs }, prog)
    } else if sec == 3 && t.len() > 0 {
        (sec, obj, decs, prog.push(t))
    } else {
        st
    }
}

/// Reads the lines of a prior summary in order.
pub open spec fn summary_fold(ls: Seq<Seq<char>>) -> (int, Seq<Seq<char>>, Seq<Seq<char>>, Seq<Seq<char>>)
    decreases ls.len(),
{
    if ls.len() == 0 {
        (0, Seq::empty(), Seq::empty(), Seq::empty())
    } else {
        summary_step(summary_fold(ls.drop_last()), ls.last())
    }
}

/// The objective (its lines joined by spaces), decisions and progress (its lines joined by
/// newlines) recorded in a prior summary.
pub open spec fn summary_fields(summary: Seq<char>) -> (Option<Seq<char>>, Seq<Seq<char>>, Option<Seq<char>>) {
    let (sec, obj, decs, prog) = summary_fold(lines(summary));
    (
        if obj.len() > 0 { Some(join(obj, " "@)) } else { None },
        decs,
        if prog.len() > 0 { Some(join(prog, "\n"@)) } else { None },
    )
}

fn add_decision_items(decs: &mut Vec<Vec<char>>, d: &Vec<char>)
    ensures
        seqs(final(decs)@) == add_items(seqs(old(decs)@), split(d@, ';')),
{
    let pieces = split_chars(d, ';');
    let ghost start = seqs(decs@);
    let mut i: usize = 0;
    while i < pieces.len()
        invariant
            i <= pieces@.len(),
            seqs(decs@) == add_items(start, seqs(pieces@).take(i as int)),
        decreases pieces.len() - i,
    {
        assert(seqs(pieces@).take(i + 1).drop_last() == seqs(pieces@).take(i as int));
        assert(seqs(pieces@).take(i + 1).last() == pieces@[i as int]@);
        let c = trim_chars(&pieces[i]);
        if c.len() > 0 && !starts_with_str(&c, "No explicit technical decisions") {
            let ghost before = seqs(decs@);
            decs.push(c);
            assert(seqs(decs@) == before.push(c@));
        }
        i = i + 1;
    }
    assert(seqs(pieces@).take(pieces@.len() as int) == seqs(pieces@));
}

/// Reads the objective, decisions and progress back from a prior handover summary
/// (`Objective:`, `Decisions:` and `Progress:` sections).
pub fn parse_prior_summary(summary: &str) -> (r: (Option<String>, Vec<String>, Option<String>))
    ensures
        (match r.0 { Some(o) => Some(o@), None => None::<Seq<char>> }) == summary_fields(summary@).0,
        r.1@.map_values(|s: String| s@) == summary_fields(summary@).1,
        (match r.2 { Some(p) => Some(p@), None => None::<Seq<char>> }) == summary_fields(summary@).2,
{
    let ls = lines_chars(&chars_of(summary));
    let mut sec: u8 = 0;
    let mut obj: Vec<Vec<char>> = Vec::new();
    let mut decs: Vec<Vec<char>> = Vec::new();
    let mut prog: Vec<Vec<char>> = Vec::new();
    proof {
        reveal_strlit("Objective:");
        reveal_strlit("Decisions:");
        reveal_strlit("Progress:");
    }
    let mut i: usize = 0;
    while i < ls.len()
        invariant
            i <= ls@.len(),
            sec <= 3,
            "Objective:"@.len() == 10,
            "Decisions:"@.len() == 10,
            "Progress:"@.len() == 9,
            seqs(ls@) == lines(summary@),
            summary_fold(seqs(ls@).take(i as int)) == (sec as int, seqs(obj@), seqs(decs@), seqs(prog@)),
        decreases ls.len() - i,
    {
        assert(seqs(ls@).take(i + 1).drop_last() == seqs(ls@).take(i as int));
        assert(seqs(ls@).take(i + 1).last() == ls@[i as int]@);
        let t = trim_chars(&ls[i]);
        let ghost o0 = seqs(obj@);
        let ghost p0 = seqs(prog@);
        let ghost d0 = seqs(decs@);
        if starts_with_str(&t, "Objective:") {
            sec = 1;
            let o = trim_chars(&slice(&t, 10, t.len()));
            assert(t@.skip(10) == t@.subrange(10, t@.len() as int));
            if o.len() > 0 {
                obj.push(o);
                assert(seqs(obj@) == o0.push(o@));
            }
        } else if starts_with_str(&t, "Decisions:") {
            sec = 2;
            let d = trim_chars(&slice(&t, 10, t.len()));
            assert(t@.skip(10) == t@.subrange(10, t@.len() as int));
            if d.len() > 0 {
                add_decision_items(&mut decs, &d);
            }
        } else if starts_with_str(&t, "Progress:") {
            sec = 3;
            let p = trim_chars(&slice(&t, 9, t.len()));
            assert(t@.skip(9) == t@.subrange(9, t@.len() as int));
            if p.len() > 0 {
                prog.push(p);
                assert(seqs(prog@) == p0.push(p@));
            }
        } else if sec == 1 && t.len() > 0 {
            obj.push(t);
            assert(seqs(obj@) == o0.push(t@));
        } else if sec == 2 && t.len() > 0 {
            let c = trim_chars(&strip_bullets_chars(&t));
            if c.len() > 0 && !starts_with_str(&c, "No explicit technical decisions") {
                decs.push(c);
                assert(seqs(decs@) == d0.push(c@));
            }
        } else if sec == 3 && t.len() > 0 {
            prog.push(t);
            assert(seqs(prog@) == p0.push(t@));
        }
        i = i + 1;
    }
    assert(seqs(ls@).take(ls@.len() as int) == seqs(ls@));
    let o = if obj.len() > 0 {
        let mut sp: Vec<char> = Vec::new();
        append_str(&mut sp, " ");
        Some(string_of(&join_chars(&obj, &sp)))
    } else {
        None
    };
    let p = if prog.len() > 0 {
        let mut nl: Vec<char> = Vec::new();
        append_str(&mut nl, "\n");
        Some(string_of(&join_chars(&prog, &nl)))
    } else {
        None
    };
    let d = strings_of(&decs);
    assert(d@.map_values(|s: String| s@) =~= seqs(decs@));
    (o, d, p)
}

// ---------------------------------------------------------------------------
// Prompt
// ---------------------------------------------------------------------------

/// Fixed text of the handover prompt.
pub open spec fn template_head() -> Seq<char> {
    "[TOPIC CONTEXT HANDOVER]\nThis session replaces previous session '"@
}

/// Fixed text of the handover prompt.
pub open spec fn template_topic() -> Seq<char> {
    "' in Telegram forum topic \""@
}

/// Fixed text of the handover prompt.
pub open spec fn template_objective() -> Seq<char> {
    "\".\nPrevious context has been compressed into this handover summary:\n\n### 1. Topic Objective\n"@
}

/// Fixed text of the handover prompt.
pub open spec fn template_decisions() -> Seq<char> {
    "\n\n### 2. Key Decisions & Agreed Specifications\n"@
}

/// Fixed text of the handover prompt.
pub open spec fn template_progress() -> Seq<char> {
    "\n### 3. Current Progress & State\n"@
}

/// Fixed text of the handover prompt.
pub open spec fn template_excerpts() -> Seq<char> {
    "\n\n### 4. Recent Dialogue Excerpt\n"@
}

/// Fixed text of the handover prompt.
pub open spec fn template_tail() -> Seq<char> {
    "\n---\nINSTRUCTIONS FOR CONTINUING THIS SESSION:\n1. Seamlessly continue the work in this topic without losing context.\n2. For your very first response:\n   - Respond in the language used in the topic dialogue (e.g. Korean if previous dialogue was Korean).\n   - Acknowledge that this topic session was refreshed and you have inherited the context.\n   - Mention the topic objective and current state in 1-2 concise sentences.\n   - Ask the user what next step or task they would like to focus on now."@
}

/// The decisions as a bullet list, one `- item` line each.
pub open spec fn bullet_block(items: Seq<Seq<char>>) -> Seq<char>
    decreases items.len(),
{
    if items.len() == 0 {
        Seq::empty()
    } else {
        bullet_block(items.drop_last()) + "- "@ + items.last() + "\n"@
    }
}

/// The excerpts, one per line.
pub open spec fn line_block(items: Seq<Seq<char>>) -> Seq<char>
    decreases items.len(),
{
    if items.len() == 0 {
        Seq::empty()
    } else {
        line_block(items.drop_last()) + items.last() + "\n"@
    }
}

/// The handover prompt for the given session, label, objective, decisions, progress and
/// excerpts.
pub open spec fn handover_prompt(
    sid: Seq<char>,
    label: Seq<char>,
    obj: Seq<char>,
    decs: Seq<Seq<char>>,
    prog: Seq<char>,
    excs: Seq<Seq<char>>,
) -> Seq<char> {
    template_head() + sid + template_topic() + label + template_objective() + obj
        + template_decisions() + bullet_block(decs) + template_progress() + prog
        + template_excerpts() + line_block(excs) + template_tail()
}

fn block_of(items: &Vec<Vec<char>>, bullets: bool) -> (r: Vec<char>)
    ensures
        r@ == if bullets { bullet_block(seqs(items@)) } else { line_block(seqs(items@)) },
{
    let mut r: Vec<char> = Vec::new();
    let mut i: usize = 0;
    while i < items.len()
        invariant
            i <= items@.len(),
            r@ == if bullets { bullet_block(seqs(items@).take(i as int)) } else { line_block(seqs(items@).take(i as int)) },
        decreases items.len() - i,
    {
        assert(seqs(items@).take(i + 1).drop_last() == seqs(items@).take(i as int));
        assert(seqs(items@).take(i + 1).last() == items@[i as int]@);
        if bullets {
            append_str(&mut r, "- ");
        }
        append(&mut r, &items[i]);
        append_str(&mut r, "\n");
        i = i + 1;
    }
    assert(seqs(items@).take(items@.len() as int) == seqs(items@));
    r
}

/// Renders the handover prompt template.
fn format_handover_prompt(
    sid: &Vec<char>,
    label: &Vec<char>,
    obj: &Vec<char>,
    decs: &Vec<Vec<char>>,
    prog: &Vec<char>,
    excs: &Vec<Vec<char>>,
) -> (r: Vec<char>)
    ensures
        r@ == handover_prompt(sid@, label@, obj@, seqs(decs@), prog@, seqs(excs@)),
{
    let mut out: Vec<char> = Vec::new();
    append_str(&mut out, "[TOPIC CONTEXT HANDOVER]\nThis session replaces previous session '");
    append(&mut out, sid);
    append_str(&mut out, "' in Telegram forum topic \"");
    append(&mut out, label);
    append_str(&mut out, "\".\nPrevious context has been compressed into this handover summary:\n\n### 1. Topic Objective\n");
    append(&mut out, obj);
    append_str(&mut out, "\n\n### 2. Key Decisions & Agreed Specifications\n");
    append(&mut out, &block_of(decs, true));
    append_str(&mut out, "\n### 3. Current Progress & State\n");
    append(&mut out, prog);
    append_str(&mut out, "\n\n### 4. Recent Dialogue Excerpt\n");
    append(&mut out, &block_of(excs, false));
    append_str(&mut out, "\n---\nINSTRUCTIONS FOR CONTINUING THIS SESSION:\n1. Seamlessly continue the work in this topic without losing context.\n2. For your very first response:\n   - Respond in the language used in the topic dialogue (e.g. Korean if previous dialogue was Korean).\n   - Acknowledge that this topic session was refreshed and you have inherited the context.\n   - Mention the topic objective and current state in 1-2 concise sentences.\n   - Ask the user what next step or task they would like to focus on now.");
    out
}


// ---------------------------------------------------------------------------
// History selection and the handover itself
// ---------------------------------------------------------------------------

/// An exact copy of an entry.
fn copy_entry(e: &TelegramHistoryEntry) -> (r: TelegramHistoryEntry)
    ensures
        r == *e,
{
    TelegramHistoryEntry {
        timestamp: e.timestamp.clone(),
        topic_id: e.topic_id,
        topic_name: match &e.topic_name {
            Some(n) => Some(n.clone()),
            None => None,
        },
        sender: e.sender.clone(),
        message_id: e.message_id,
        text: e.text.clone(),
        is_success: e.is_success,
        error: match &e.error {
            Some(x) => Some(x.clone()),
            None => None,
        },
    }
}

/// Whether a logged entry belongs in a handover: delivered without error, with a
/// non-empty text that is not a meta command.
pub open spec fn useful_entry(e: TelegramHistoryEntry) -> bool {
    e.is_success && e.error is None && trim(e.text@).len() > 0 && !meta_cmd(trim(e.text@))
}

/// The useful entries of a log, in order.
pub open spec fn useful_entries(es: Seq<TelegramHistoryEntry>) -> Seq<TelegramHistoryEntry>
    decreases es.len(),
{
    if es.len() == 0 {
        Seq::empty()
    } else if useful_entry(es.last()) {
        useful_entries(es.drop_last()).push(es.last())
    } else {
        useful_entries(es.drop_last())
    }
}

/// The entries of a session's log worth handing over: none for a blank session id, else
/// the delivered, error-free, non-empty, non-command entries in order.
pub fn extract_topic_history(session_id: &str, logged: &[TelegramHistoryEntry]) -> (r: Vec<TelegramHistoryEntry>)
    ensures
        r@ == if trim(session_id@).len() == 0 {
            Seq::<TelegramHistoryEntry>::empty()
        } else {
            useful_entries(logged@)
        },
{
    let mut r: Vec<TelegramHistoryEntry> = Vec::new();
    if trim_chars(&chars_of(session_id)).len() == 0 {
        return r;
    }
    let mut i: usize = 0;
    while i < logged.len()
        invariant
            i <= logged@.len(),
            r@ == useful_entries(logged@.take(i as int)),
        decreases logged.len() - i,
    {
        assert(logged@.take(i + 1).drop_last() == logged@.take(i as int));
        assert(logged@.take(i + 1).last() == logged@[i as int]);
        let e = &logged[i];
        let text = trim_chars(&chars_of(e.text.as_str()));
        if e.is_success && e.error.is_none() && text.len() > 0 && !is_meta_cmd_chars(&text) {
            r.push(copy_entry(e));
        }
        i = i + 1;
    }
    assert(logged@.take(logged@.len() as int) == logged@);
    r
}

/// The latest earlier session (before position `k`) other than `sid` whose history is not
/// empty.
pub open spec fn fallback_history(
    sid: Seq<char>,
    ids: Seq<String>,
    hs: Seq<Vec<TelegramHistoryEntry>>,
    k: int,
) -> Option<Seq<TelegramHistoryEntry>>
    decreases k,
{
    if k <= 0 || k > ids.len() || k > hs.len() {
        None
    } else if ids[k - 1]@ != sid && hs[k - 1]@.len() > 0 {
        Some(hs[k - 1]@)
    } else {
        fallback_history(sid, ids, hs, k - 1)
    }
}

/// The history a handover draws on: the current session's, or when that is empty the
/// latest non-empty history of an earlier session.
pub open spec fn topic_entries(
    sid: Seq<char>,
    current: Seq<TelegramHistoryEntry>,
    ids: Seq<String>,
    hs: Seq<Vec<TelegramHistoryEntry>>,
) -> Seq<TelegramHistoryEntry> {
    if current.len() > 0 {
        current
    } else {
        match fallback_history(sid, ids, hs, ids.len() as int) {
            Some(h) => h,
            None => current,
        }
    }
}

/// Position of the latest earlier session other than `session_id` with a non-empty history.
fn latest_past_history(
    session_id: &str,
    past_session_ids: &[String],
    past_histories: &Vec<Vec<TelegramHistoryEntry>>,
) -> (r: Option<usize>)
    requires
        past_histories@.len() == past_session_ids@.len(),
    ensures
        r matches Some(j) ==> j < past_histories@.len() && fallback_history(
            session_id@,
            past_session_ids@,
            past_histories@,
            past_session_ids@.len() as int,
        ) == Some(past_histories@[j as int]@),
        r is None ==> fallback_history(
            session_id@,
            past_session_ids@,
            past_histories@,
            past_session_ids@.len() as int,
        ) is None,
{
    let sid = chars_of(session_id);
    let mut k: usize = past_session_ids.len();
    while k > 0
        invariant
            k <= past_session_ids@.len(),
            past_histories@.len() == past_session_ids@.len(),
            sid@ == session_id@,
            fallback_history(session_id@, past_session_ids@, past_histories@, past_session_ids@.len() as int)
                == fallback_history(session_id@, past_session_ids@, past_histories@, k as int),
        decreases k,
    {
        let past = chars_of(past_session_ids[k - 1].as_str());
        if !eq_chars(&past, &sid) && past_histories[k - 1].len() > 0 {
            return Some(k - 1);
        }
        k = k - 1;
    }
    None
}

/// Chooses the history a handover draws on. `past_histories[i]` is the history of
/// `past_session_ids[i]`.
pub fn resolve_topic_entries(
    session_id: &str,
    current: &[TelegramHistoryEntry],
    past_session_ids: &[String],
    past_histories: &Vec<Vec<TelegramHistoryEntry>>,
) -> (r: Vec<TelegramHistoryEntry>)
    requires
        past_histories@.len() == past_session_ids@.len(),
    ensures
        r@ == topic_entries(session_id@, current@, past_session_ids@, past_histories@),
{
    let source: Option<usize> = if current.len() == 0 {
        latest_past_history(session_id, past_session_ids, past_histories)
    } else {
        None
    };
    let from: &[TelegramHistoryEntry] = match source {
        Some(j) => past_histories[j].as_slice(),
        None => current,
    };
    let mut r: Vec<TelegramHistoryEntry> = Vec::new();
    let mut i: usize = 0;
    while i < from.len()
        invariant
            i <= from@.len(),
            r@ == from@.take(i as int),
        decreases from.len() - i,
    {
        r.push(copy_entry(&from[i]));
        assert(from@.take(i + 1) == from@.take(i as int).push(from@[i as int]));
        i = i + 1;
    }
    assert(from@.take(from@.len() as int) == from@);
    r
}

/// Position of the first entry from `k` on that carries a topic name with visible text.
pub open spec fn first_named_from(es: Seq<TelegramHistoryEntry>, k: int) -> Option<int>
    decreases es.len() - k,
{
    if k < 0 || k >= es.len() {
        None
    } else if es[k].topic_name matches Some(n) && trim(n@).len() > 0 {
        Some(k)
    } else {
        first_named_from(es, k + 1)
    }
}

/// The topic name: the given one; else, for a known session, the name stored in its
/// metadata (`stored` is `Some` when the metadata was read); else the first name carried
/// by an entry.
pub open spec fn topic_name_of(
    sid: Seq<char>,
    given: Option<String>,
    stored: Option<Option<String>>,
    es: Seq<TelegramHistoryEntry>,
) -> Option<String> {
    let from_meta = if given is None && sid.len() > 0 {
        match stored {
            Some(n) => n,
            None => given,
        }
    } else {
        given
    };
    if from_meta is None {
        match first_named_from(es, 0) {
            Some(i) => es[i].topic_name,
            None => None,
        }
    } else {
        from_meta
    }
}

/// Resolves the topic name from the given name, the stored metadata and the entries.
pub fn resolve_topic_name(
    session_id: &str,
    topic_name: Option<String>,
    stored_name: Option<Option<String>>,
    entries: &[TelegramHistoryEntry],
) -> (r: Option<String>)
    ensures
        r == topic_name_of(session_id@, topic_name, stored_name, entries@),
{
    let mut name = topic_name;
    if name.is_none() && chars_of(session_id).len() > 0 {
        if let Some(n) = stored_name {
            name = n;
        }
    }
    if name.is_none() {
        return first_topic_name(entries);
    }
    name
}

/// The first topic name with visible text carried by an entry.
fn first_topic_name(entries: &[TelegramHistoryEntry]) -> (r: Option<String>)
    ensures
        r == match first_named_from(entries@, 0) {
            Some(i) => entries@[i].topic_name,
            None => None,
        },
{
    let mut i: usize = 0;
    while i < entries.len()
        invariant
            i <= entries@.len(),
            first_named_from(entries@, 0) == first_named_from(entries@, i as int),
        decreases entries.len() - i,
    {
        match &entries[i].topic_name {
            Some(n) => {
                if trim_chars(&chars_of(n.as_str())).len() > 0 {
                    return Some(n.clone());
                }
            },
            None => {},
        }
        i = i + 1;
    }
    None
}

/// The label a topic is addressed by in the prompt.
pub open spec fn topic_label(name: Option<String>, topic_id: Option<i64>) -> Seq<char> {
    match name {
        Some(n) => n@,
        None => match topic_id {
            Some(t) => "Topic #"@ + decimal_int(t as int),
            None => "General Topic"@,
        },
    }
}

/// The view of an optional string.
pub open spec fn opt_string(o: Option<String>) -> Option<Seq<char>> {
    match o {
        Some(s) => Some(s@),
        None => None,
    }
}

/// Builds the handover context of a topic session, or nothing when there is neither
/// history nor a prior summary. The history is chosen as `resolve_topic_entries` does
/// (`past_histories[i]` belongs to `past_session_ids[i]`); `stored_name` is the name kept
/// in the session's metadata, when that was read.
pub fn build_topic_handover(
    session_id: &str,
    topic_id: Option<i64>,
    topic_name: Option<String>,
    prior_summary: Option<&str>,
    current: &[TelegramHistoryEntry],
    past_session_ids: &[String],
    past_histories: &Vec<Vec<TelegramHistoryEntry>>,
    stored_name: Option<Option<String>>,
) -> (r: Option<TopicHandoverContext>)
    requires
        past_histories@.len() == past_session_ids@.len(),
    ensures
        ({
            let es = topic_entries(session_id@, current@, past_session_ids@, past_histories@);
            let prior = match prior_summary {
                Some(p) => summary_fields(p@),
                None => (None, Seq::empty(), None),
            };
            let name = topic_name_of(session_id@, topic_name, stored_name, es);
            let obj = objective(es, opt_string(name), prior.0);
            let decs = agreed(es, prior.1);
            let prog = progress(es, prior.2);
            let sid_ref = if session_id@.len() > 0 { session_id@ } else { "prior_session"@ };
            &&& r is None <==> (es.len() == 0 && prior_summary is None)
            &&& r matches Some(c) ==> {
                &&& c.topic_id == topic_id
                &&& c.topic_name == name
                &&& c.previous_session_id@ == session_id@
                &&& c.topic_objective@ == obj
                &&& c.agreed_decisions@.map_values(|s: String| s@) == decs
                &&& c.current_progress@ == prog
                &&& c.handover_prompt@ == handover_prompt(
                    sid_ref,
                    topic_label(name, topic_id),
                    obj,
                    decs,
                    prog,
                    excerpts(es, 4),
                )
            }
        }),
{
    let (prior_obj, prior_decs, prior_prog) = match prior_summary {
        Some(p) => parse_prior_summary(p),
        None => (None, Vec::new(), None),
    };
    let entries = resolve_topic_entries(session_id, current, past_session_ids, past_histories);
    if entries.len() == 0 && prior_summary.is_none() {
        return None;
    }
    let resolved_name = resolve_topic_name(session_id, topic_name, stored_name, entries.as_slice());
    let label: Vec<char> = match &resolved_name {
        Some(n) => chars_of(n.as_str()),
        None => match topic_id {
            Some(t) => {
                let mut l: Vec<char> = Vec::new();
                append_str(&mut l, "Topic #");
                append(&mut l, &decimal_i64(t));
                l
            },
            None => chars_of("General Topic"),
        },
    };
    let name_ref: Option<&str> = match &resolved_name {
        Some(n) => Some(n.as_str()),
        None => None,
    };
    let prior_obj_ref: Option<&str> = match &prior_obj {
        Some(o) => Some(o.as_str()),
        None => None,
    };
    let prior_prog_ref: Option<&str> = match &prior_prog {
        Some(o) => Some(o.as_str()),
        None => None,
    };
    let obj = extract_topic_objective(entries.as_slice(), name_ref, prior_obj_ref);
    let decs = extract_agreed_decisions(entries.as_slice(), prior_decs.as_slice());
    let prog = extract_current_progress(entries.as_slice(), prior_prog_ref);
    let excs = format_recent_excerpts(entries.as_slice(), 4);
    let sid = chars_of(session_id);
    let sid_ref = if sid.len() > 0 {
        sid
    } else {
        chars_of("prior_session")
    };
    let decs_chars = chars_list(decs.as_slice());
    let excs_chars = chars_list(excs.as_slice());
    let prompt = format_handover_prompt(
        &sid_ref,
        &label,
        &chars_of(obj.as_str()),
        &decs_chars,
        &chars_of(prog.as_str()),
        &excs_chars,
    );
    Some(TopicHandoverContext {
        topic_id,
        topic_name: resolved_name,
        previous_session_id: string_of(&chars_of(session_id)),
        topic_objective: obj,
        agreed_decisions: decs,
        current_progress: prog,
        handover_prompt: string_of(&prompt),
    })
}

} // verus!
