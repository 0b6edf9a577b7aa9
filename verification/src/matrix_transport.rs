//! What the Matrix transport delivers: the text written for each kind of result that the
//! message bus hands over, the room it goes to, and the clean-up of scheduled task results.

use vstd::prelude::*;
use crate::id_map::MatrixIdMap;
use crate::text::{
    append, append_str, chars_of, contains, contains_str, decimal_i64, decimal_int, eq_str,
    exceeds_bytes, join, join_chars, lines, lines_chars, lowercase, seqs, string_of, to_lowercase,
    trim, trim_chars, truncate_bytes, truncate_bytes_chars, utf8_len, words, words_chars,
};

verus! {

/// Whether a result line is a stale delivery receipt that should not be shown again.
pub open spec fn is_delivery_receipt(line: Seq<char>) -> bool {
    let normalized = lowercase(join(words(line), " "@));
    contains(normalized, "message sent successfully"@) && contains(normalized, "delivered to telegram"@)
}

/// The lines that remain once delivery receipts are dropped.
pub open spec fn kept_lines(ls: Seq<Seq<char>>) -> Seq<Seq<char>>
    decreases ls.len(),
{
    if ls.len() == 0 {
        Seq::empty()
    } else if is_delivery_receipt(ls.last()) {
        kept_lines(ls.drop_last())
    } else {
        kept_lines(ls.drop_last()).push(ls.last())
    }
}

/// Removes delivery receipt lines from a cron result and trims the rest.
pub fn sanitize_cron_result_text(result: &str) -> (r: String)
    ensures
        r@ == trim(join(kept_lines(lines(result@)), "\n"@)),
{
    let text = chars_of(result);
    let all = lines_chars(&text);
    let mut space: Vec<char> = Vec::new();
    append_str(&mut space, " ");
    let mut kept: Vec<Vec<char>> = Vec::new();
    let mut i: usize = 0;
    while i < all.len()
        invariant
            i <= all@.len(),
            space@ == " "@,
            seqs(all@) == lines(result@),
            seqs(kept@) == kept_lines(seqs(all@).take(i as int)),
        decreases all.len() - i,
    {
        assert(seqs(all@).take(i + 1).drop_last() == seqs(all@).take(i as int));
        assert(seqs(all@).take(i + 1).last() == all@[i as int]@);
        let ws = words_chars(&all[i]);
        let normalized = to_lowercase(&join_chars(&ws, &space));
        let receipt = contains_str(&normalized, "message sent successfully") && contains_str(
            &normalized,
            "delivered to telegram",
        );
        if !receipt {
            kept.push(all[i].clone());
        }
        i = i + 1;
    }
    assert(seqs(all@).take(all@.len() as int) == seqs(all@));
    let mut nl: Vec<char> = Vec::new();
    append_str(&mut nl, "\n");
    let joined = join_chars(&kept, &nl);
    string_of(&trim_chars(&joined))
}


/// Where a delivered result comes from.
#[derive(Clone, Copy, Debug, PartialEq, Eq, Structural)]
pub enum MessageOrigin {
    Background,
    Cron,
    Heartbeat,
    Interagent,
    TaskResult,
    TaskQuestion,
    WebhookWake,
    WebhookCron,
    /// Any other origin: its result text is delivered as it is.
    Other,
}

/// What the Matrix transport reads of a message envelope. `elapsed` is the run time in whole
/// seconds as the envelope's float prints with `{:.0}`; `metadata` holds the envelope's
/// metadata entries, each key once.
#[derive(Clone, Debug)]
pub struct DeliveryEnvelope {
    pub origin: MessageOrigin,
    pub chat_id: i64,
    pub status: String,
    pub is_error: bool,
    pub session_name: String,
    pub prompt: String,
    pub prompt_preview: String,
    pub result_text: String,
    pub elapsed: String,
    pub provider: String,
    pub model: String,
    pub needs_injection: bool,
    pub metadata: Vec<(String, String)>,
}

/// The value recorded under `key` in the metadata entries.
pub open spec fn meta_value(entries: Seq<(String, String)>, key: Seq<char>) -> Option<Seq<char>>
    decreases entries.len(),
{
    if entries.len() == 0 {
        None
    } else if entries[0].0@ == key {
        Some(entries[0].1@)
    } else {
        meta_value(entries.drop_first(), key)
    }
}

/// The value recorded under `key`, or `default` when there is none.
pub open spec fn meta_or(entries: Seq<(String, String)>, key: Seq<char>, default: Seq<char>) -> Seq<char> {
    match meta_value(entries, key) {
        Some(v) => v,
        None => default,
    }
}

/// The output shown for a finished run: the result, or a note that there was none.
pub open spec fn output_body(result: Seq<char>) -> Seq<char> {
    if result.len() > 0 {
        result
    } else {
        "_No output._"@
    }
}

/// The output shown for a failed run: the result cut to its first 2000 bytes.
pub open spec fn failure_body(result: Seq<char>) -> Seq<char> {
    if utf8_len(result) > 2000 {
        truncate_bytes(result, 2000)
    } else {
        output_body(result)
    }
}

/// A failed background result whose text is cut at byte 2000 has a character boundary
/// there (cutting elsewhere panics).
pub open spec fn cut_on_boundary(e: DeliveryEnvelope) -> bool {
    (e.origin == MessageOrigin::Background && e.status@ != "aborted"@ && e.is_error && utf8_len(
        e.result_text@,
    ) > 2000) ==> utf8_len(truncate_bytes(e.result_text@, 2000)) == 2000
}

/// The text of a background task result.
pub open spec fn background_text(e: DeliveryEnvelope) -> Seq<char> {
    let elapsed = e.elapsed@ + "s"@;
    if e.session_name@.len() > 0 {
        if e.status@ == "aborted"@ {
            "**["@ + e.session_name@ + "] Cancelled**\n\n_"@ + e.prompt_preview@ + "_"@
        } else if e.is_error {
            "**["@ + e.session_name@ + "] Failed** ("@ + elapsed + ")\n\n"@ + failure_body(e.result_text@)
        } else {
            "**["@ + e.session_name@ + "] Complete** ("@ + elapsed + ")\n\n"@ + output_body(e.result_text@)
        }
    } else {
        let task_id = meta_or(e.metadata@, "task_id"@, "?"@);
        if e.status@ == "aborted"@ {
            "**Background Task Cancelled**\n\nTask `"@ + task_id + "` was cancelled.\nPrompt: _"@
                + e.prompt_preview@ + "_"@
        } else if e.is_error {
            "**Background Task Failed** ("@ + elapsed + ")\n\nTask `"@ + task_id + "` failed ("@
                + e.status@ + ").\nPrompt: _"@ + e.prompt_preview@ + "_\n\n"@ + failure_body(e.result_text@)
        } else {
            "**Background Task Complete** ("@ + elapsed + ")\n\n"@ + output_body(e.result_text@)
        }
    }
}

/// A cron result without its delivery receipts, trimmed.
pub open spec fn sanitized(result: Seq<char>) -> Seq<char> {
    trim(join(kept_lines(lines(result)), "\n"@))
}

/// The text of a scheduled task result; empty when a successful run printed nothing but
/// delivery receipts.
pub open spec fn cron_text(e: DeliveryEnvelope) -> Seq<char> {
    let title = meta_or(e.metadata@, "title"@, "?"@);
    let clean = sanitized(e.result_text@);
    if e.result_text@.len() > 0 && clean.len() == 0 && e.status@ == "success"@ {
        Seq::empty()
    } else if clean.len() > 0 {
        "**TASK: "@ + title + "**\n\n"@ + clean
    } else {
        "**TASK: "@ + title + "**\n\n_"@ + e.status@ + "_"@
    }
}

/// The text of an inter-agent result.
pub open spec fn interagent_text(e: DeliveryEnvelope) -> Seq<char> {
    if e.is_error {
        let session_info = if e.session_name@.len() > 0 {
            "\nSession: `"@ + e.session_name@ + "`"@
        } else {
            Seq::empty()
        };
        "**Inter-Agent Request Failed**\n\nAgent: `"@ + meta_or(e.metadata@, "recipient"@, "?"@) + "`"@
            + session_info + "\nError: "@ + meta_or(e.metadata@, "error"@, "unknown"@) + "\nRequest: _"@
            + e.prompt_preview@ + "_"@
    } else {
        let notice = match meta_value(e.metadata@, "provider_switch_notice"@) {
            Some(n) => if n.len() > 0 {
                seq!["**Provider Switch Detected**\n\n"@ + n]
            } else {
                Seq::empty()
            },
            None => Seq::empty(),
        };
        let parts = if e.result_text@.len() > 0 {
            notice.push(e.result_text@)
        } else {
            notice
        };
        join(parts, "\n\n"@)
    }
}

/// The name a task result is shown under.
pub open spec fn task_name(e: DeliveryEnvelope) -> Seq<char> {
    match meta_value(e.metadata@, "name"@) {
        Some(n) => n,
        None => meta_or(e.metadata@, "task_id"@, "?"@),
    }
}

/// The heading of a task result, by its status.
pub open spec fn task_heading(e: DeliveryEnvelope) -> Seq<Seq<char>> {
    let name = task_name(e);
    if e.status@ == "done"@ {
        let duration = e.elapsed@ + "s"@;
        let detail = if e.provider@.len() > 0 {
            duration + ", "@ + e.provider@ + "/"@ + e.model@
        } else {
            duration
        };
        seq!["**Task `"@ + name + "` completed** ("@ + detail + ")"@]
    } else if e.status@ == "cancelled"@ {
        seq!["**Task `"@ + name + "` cancelled**"@]
    } else if e.status@ == "failed"@ {
        seq!["**Task `"@ + name + "` failed**\nReason: "@ + meta_or(e.metadata@, "error"@, "unknown"@)]
    } else {
        Seq::empty()
    }
}

/// The text of a task result: its heading, then its output when that is to be shown.
pub open spec fn task_result_text(e: DeliveryEnvelope) -> Seq<char> {
    let head = task_heading(e);
    let parts = if e.needs_injection && e.result_text@.len() > 0 {
        head.push(e.result_text@)
    } else {
        head
    };
    join(parts, "\n\n"@)
}

/// The text of a question a task asks.
pub open spec fn task_question_text(e: DeliveryEnvelope) -> Seq<char> {
    let first = "**Task `"@ + meta_or(e.metadata@, "task_id"@, "?"@) + "` has a question:**\n"@ + e.prompt@;
    if e.result_text@.len() > 0 {
        join(seq![first, e.result_text@], "\n\n"@)
    } else {
        first
    }
}

/// The text delivered for an envelope, by where it comes from.
pub open spec fn message_text(e: DeliveryEnvelope) -> Seq<char> {
    match e.origin {
        MessageOrigin::Background => background_text(e),
        MessageOrigin::Cron => cron_text(e),
        MessageOrigin::Interagent => interagent_text(e),
        MessageOrigin::TaskResult => task_result_text(e),
        MessageOrigin::TaskQuestion => task_question_text(e),
        _ => e.result_text@,
    }
}

/// The text broadcast to every allowed room for an envelope.
pub open spec fn broadcast_text(e: DeliveryEnvelope) -> Seq<char> {
    if e.origin == MessageOrigin::WebhookCron {
        let title = meta_or(e.metadata@, "hook_title"@, "?"@);
        if e.result_text@.len() > 0 {
            "**WEBHOOK (CRON TASK): "@ + title + "**\n\n"@ + e.result_text@
        } else {
            "**WEBHOOK (CRON TASK): "@ + title + "**\n\n_"@ + e.status@ + "_"@
        }
    } else {
        message_text(e)
    }
}

fn same(a: &String, b: &str) -> (r: bool)
    ensures
        r == (a@ == b@),
{
    eq_str(&chars_of(a.as_str()), b)
}

/// Looks up a metadata entry.
fn meta_get(entries: &Vec<(String, String)>, key: &str) -> (r: Option<String>)
    ensures
        r is None <==> meta_value(entries@, key@) is None,
        r matches Some(v) ==> meta_value(entries@, key@) == Some(v@),
{
    let mut i: usize = 0;
    assert(entries@.skip(0) == entries@);
    while i < entries.len()
        invariant
            i <= entries@.len(),
            meta_value(entries@, key@) == meta_value(entries@.skip(i as int), key@),
        decreases entries.len() - i,
    {
        assert(entries@.skip(i as int)[0] == entries@[i as int]);
        if same(&entries[i].0, key) {
            return Some(entries[i].1.clone());
        }
        assert(entries@.skip(i as int).drop_first() == entries@.skip(i + 1));
        i = i + 1;
    }
    None
}

fn meta_get_or(entries: &Vec<(String, String)>, key: &str, default: &str) -> (r: Vec<char>)
    ensures
        r@ == meta_or(entries@, key@, default@),
{
    match meta_get(entries, key) {
        Some(v) => chars_of(v.as_str()),
        None => chars_of(default),
    }
}

fn output_body_of(result: &String) -> (r: Vec<char>)
    ensures
        r@ == output_body(result@),
{
    if !result.as_str().is_empty() {
        chars_of(result.as_str())
    } else {
        chars_of("_No output._")
    }
}

fn failure_body_of(result: &String) -> (r: Vec<char>)
    ensures
        r@ == failure_body(result@),
{
    let cs = chars_of(result.as_str());
    if exceeds_bytes(&cs, 2000) {
        truncate_bytes_chars(&cs, 2000)
    } else {
        output_body_of(result)
    }
}

/// Writes the text of a background task result.
pub fn format_background(e: &DeliveryEnvelope) -> (r: String)
    requires
        cut_on_boundary(*e),
    ensures
        r@ == background_text(*e),
{
    let aborted = same(&e.status, "aborted");
    let mut t: Vec<char>;
    if !e.session_name.as_str().is_empty() {
        t = chars_of("**[");
        append_str(&mut t, e.session_name.as_str());
        if aborted {
            append_str(&mut t, "] Cancelled**\n\n_");
            append_str(&mut t, e.prompt_preview.as_str());
            append_str(&mut t, "_");
        } else if e.is_error {
            append_str(&mut t, "] Failed** (");
            append_str(&mut t, e.elapsed.as_str());
            append_str(&mut t, "s");
            append_str(&mut t, ")\n\n");
            append(&mut t, &failure_body_of(&e.result_text));
        } else {
            append_str(&mut t, "] Complete** (");
            append_str(&mut t, e.elapsed.as_str());
            append_str(&mut t, "s");
            append_str(&mut t, ")\n\n");
            append(&mut t, &output_body_of(&e.result_text));
        }
    } else {
        let task_id = meta_get_or(&e.metadata, "task_id", "?");
        if aborted {
            t = chars_of("**Background Task Cancelled**\n\nTask `");
            append(&mut t, &task_id);
            append_str(&mut t, "` was cancelled.\nPrompt: _");
            append_str(&mut t, e.prompt_preview.as_str());
            append_str(&mut t, "_");
        } else if e.is_error {
            t = chars_of("**Background Task Failed** (");
            append_str(&mut t, e.elapsed.as_str());
            append_str(&mut t, "s");
            append_str(&mut t, ")\n\nTask `");
            append(&mut t, &task_id);
            append_str(&mut t, "` failed (");
            append_str(&mut t, e.status.as_str());
            append_str(&mut t, ").\nPrompt: _");
            append_str(&mut t, e.prompt_preview.as_str());
            append_str(&mut t, "_\n\n");
            append(&mut t, &failure_body_of(&e.result_text));
        } else {
            t = chars_of("**Background Task Complete** (");
            append_str(&mut t, e.elapsed.as_str());
            append_str(&mut t, "s");
            append_str(&mut t, ")\n\n");
            append(&mut t, &output_body_of(&e.result_text));
        }
    }
    string_of(&t)
}


/// Writes the text of a scheduled task result.
pub fn format_cron(e: &DeliveryEnvelope) -> (r: String)
    ensures
        r@ == cron_text(*e),
{
    let title = meta_get_or(&e.metadata, "title", "?");
    let clean = sanitize_cron_result_text(e.result_text.as_str());
    if !e.result_text.as_str().is_empty() && clean.as_str().is_empty() && same(&e.status, "success") {
        return String::new();
    }
    let mut t = chars_of("**TASK: ");
    append(&mut t, &title);
    if !clean.as_str().is_empty() {
        append_str(&mut t, "**\n\n");
        append_str(&mut t, clean.as_str());
    } else {
        append_str(&mut t, "**\n\n_");
        append_str(&mut t, e.status.as_str());
        append_str(&mut t, "_");
    }
    string_of(&t)
}

fn two_newlines() -> (r: Vec<char>)
    ensures
        r@ == "\n\n"@,
{
    chars_of("\n\n")
}

/// Writes the text of an inter-agent result.
pub fn format_interagent(e: &DeliveryEnvelope) -> (r: String)
    ensures
        r@ == interagent_text(*e),
{
    if e.is_error {
        let mut t = chars_of("**Inter-Agent Request Failed**\n\nAgent: `");
        append(&mut t, &meta_get_or(&e.metadata, "recipient", "?"));
        append_str(&mut t, "`");
        if !e.session_name.as_str().is_empty() {
            let mut info = chars_of("\nSession: `");
            append_str(&mut info, e.session_name.as_str());
            append_str(&mut info, "`");
            append(&mut t, &info);
        } else {
            let ghost before = t@;
            assert(before + Seq::<char>::empty() == before);
        }
        append_str(&mut t, "\nError: ");
        append(&mut t, &meta_get_or(&e.metadata, "error", "unknown"));
        append_str(&mut t, "\nRequest: _");
        append_str(&mut t, e.prompt_preview.as_str());
        append_str(&mut t, "_");
        string_of(&t)
    } else {
        let mut parts: Vec<Vec<char>> = Vec::new();
        match meta_get(&e.metadata, "provider_switch_notice") {
            Some(n) => {
                if !n.as_str().is_empty() {
                    let mut p = chars_of("**Provider Switch Detected**\n\n");
                    append_str(&mut p, n.as_str());
                    parts.push(p);
                }
            },
            None => {},
        }
        if !e.result_text.as_str().is_empty() {
            parts.push(chars_of(e.result_text.as_str()));
        }
        let ghost notice = match meta_value(e.metadata@, "provider_switch_notice"@) {
            Some(n) => if n.len() > 0 {
                seq!["**Provider Switch Detected**\n\n"@ + n]
            } else {
                Seq::<Seq<char>>::empty()
            },
            None => Seq::<Seq<char>>::empty(),
        };
        assert(seqs(parts@) == if e.result_text@.len() > 0 {
            notice.push(e.result_text@)
        } else {
            notice
        });
        string_of(&join_chars(&parts, &two_newlines()))
    }
}

/// Writes the text of a task result.
pub fn format_task_result(e: &DeliveryEnvelope) -> (r: String)
    ensures
        r@ == task_result_text(*e),
{
    let name = match meta_get(&e.metadata, "name") {
        Some(n) => chars_of(n.as_str()),
        None => meta_get_or(&e.metadata, "task_id", "?"),
    };
    let mut parts: Vec<Vec<char>> = Vec::new();
    if same(&e.status, "done") {
        let mut detail = chars_of(e.elapsed.as_str());
        append_str(&mut detail, "s");
        if !e.provider.as_str().is_empty() {
            append_str(&mut detail, ", ");
            append_str(&mut detail, e.provider.as_str());
            append_str(&mut detail, "/");
            append_str(&mut detail, e.model.as_str());
        }
        let mut h = chars_of("**Task `");
        append(&mut h, &name);
        append_str(&mut h, "` completed** (");
        append(&mut h, &detail);
        append_str(&mut h, ")");
        parts.push(h);
    } else if same(&e.status, "cancelled") {
        let mut h = chars_of("**Task `");
        append(&mut h, &name);
        append_str(&mut h, "` cancelled**");
        parts.push(h);
    } else if same(&e.status, "failed") {
        let mut h = chars_of("**Task `");
        append(&mut h, &name);
        append_str(&mut h, "` failed**\nReason: ");
        append(&mut h, &meta_get_or(&e.metadata, "error", "unknown"));
        parts.push(h);
    }
    assert(seqs(parts@) == task_heading(*e));
    if e.needs_injection && !e.result_text.as_str().is_empty() {
        parts.push(chars_of(e.result_text.as_str()));
        assert(seqs(parts@) == task_heading(*e).push(e.result_text@));
    }
    string_of(&join_chars(&parts, &two_newlines()))
}

/// Writes the text of a question a task asks.
pub fn format_task_question(e: &DeliveryEnvelope) -> (r: String)
    ensures
        r@ == task_question_text(*e),
{
    let mut first = chars_of("**Task `");
    append(&mut first, &meta_get_or(&e.metadata, "task_id", "?"));
    append_str(&mut first, "` has a question:**\n");
    append_str(&mut first, e.prompt.as_str());
    if !e.result_text.as_str().is_empty() {
        let mut parts: Vec<Vec<char>> = Vec::new();
        parts.push(first);
        parts.push(chars_of(e.result_text.as_str()));
        assert(seqs(parts@) == seq![parts@[0]@, e.result_text@]);
        string_of(&join_chars(&parts, &two_newlines()))
    } else {
        string_of(&first)
    }
}

/// Writes the text delivered for an envelope, by where it comes from.
pub fn format_message(e: &DeliveryEnvelope) -> (r: String)
    requires
        cut_on_boundary(*e),
    ensures
        r@ == message_text(*e),
{
    match e.origin {
        MessageOrigin::Background => format_background(e),
        MessageOrigin::Cron => format_cron(e),
        MessageOrigin::Interagent => format_interagent(e),
        MessageOrigin::TaskResult => format_task_result(e),
        MessageOrigin::TaskQuestion => format_task_question(e),
        _ => e.result_text.clone(),
    }
}

/// Where and what to deliver for an envelope: the room mapped to its chat and the text,
/// nothing when the text is empty, or an error naming the chat when no room is mapped.
pub fn delivery_plan(map: &MatrixIdMap, e: &DeliveryEnvelope) -> (r: Result<Option<(String, String)>, String>)
    requires
        map.wf(),
        cut_on_boundary(*e),
    ensures
        r is Err <==> !map@.contains_value(e.chat_id),
        r matches Err(m) ==> m@ == "No room found for chat_id="@ + decimal_int(e.chat_id as int),
        r matches Ok(None) ==> message_text(*e).len() == 0,
        r matches Ok(Some(d)) ==> map@.contains_key(d.0@) && map@[d.0@] == e.chat_id && d.1@ == message_text(
            *e,
        ) && d.1@.len() > 0,
{
    let room = match map.int_to_room(e.chat_id) {
        Some(room) => room,
        None => {
            let mut m = chars_of("No room found for chat_id=");
            append(&mut m, &decimal_i64(e.chat_id));
            return Err(string_of(&m));
        },
    };
    assert(map@.contains_key(room@) && map@[room@] == e.chat_id);
    let text = format_message(e);
    if text.as_str().is_empty() {
        Ok(None)
    } else {
        Ok(Some((room, text)))
    }
}

/// The text to broadcast to every allowed room for an envelope, or `None` when it is empty.
pub fn broadcast_plan(e: &DeliveryEnvelope) -> (r: Option<String>)
    requires
        cut_on_boundary(*e),
    ensures
        r is None <==> broadcast_text(*e).len() == 0,
        r matches Some(t) ==> t@ == broadcast_text(*e),
{
    let text = if e.origin == MessageOrigin::WebhookCron {
        let mut t = chars_of("**WEBHOOK (CRON TASK): ");
        append(&mut t, &meta_get_or(&e.metadata, "hook_title", "?"));
        if !e.result_text.as_str().is_empty() {
            append_str(&mut t, "**\n\n");
            append_str(&mut t, e.result_text.as_str());
        } else {
            append_str(&mut t, "**\n\n_");
            append_str(&mut t, e.status.as_str());
            append_str(&mut t, "_");
        }
        string_of(&t)
    } else {
        format_message(e)
    };
    if text.as_str().is_empty() {
        None
    } else {
        Some(text)
    }
}

} // verus!
