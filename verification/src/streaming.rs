//! Streaming replies: the preview shown while an answer is being produced, when to edit
//! it, and the bookkeeping of a reply sent in several chunks.

use vstd::prelude::*;
use crate::text::{append, chars_of, contains, contains_str, eq_str, slice, string_of};

verus! {

/// The most characters a streaming preview shows before it is cut.
pub const PREVIEW_LIMIT: usize = 3900;

/// How many trailing characters a cut preview keeps.
pub const PREVIEW_TAIL: usize = 3800;

/// The least time between two edits of a streaming message, in milliseconds.
pub const EDIT_INTERVAL_MS: u64 = 2000;

/// The preview of `delta`: the text itself, or, when it is longer than the limit, a marker
/// followed by its last characters.
pub open spec fn preview_of(delta: Seq<char>) -> Seq<char> {
    if delta.len() > PREVIEW_LIMIT {
        "...[중간 생략]...\n"@ + delta.skip(delta.len() - PREVIEW_TAIL)
    } else {
        delta
    }
}

/// The preview shown for the text streamed so far.
pub fn truncate_streaming_preview(delta: &str) -> (r: String)
    ensures
        r@ == preview_of(delta@),
{
    let d = chars_of(delta);
    if d.len() > PREVIEW_LIMIT {
        let mut out = chars_of("...[중간 생략]...\n");
        let tail = slice(&d, d.len() - PREVIEW_TAIL, d.len());
        append(&mut out, &tail);
        string_of(&out)
    } else {
        delta.to_owned()
    }
}

/// What to do with the streaming message when new text arrives.
#[derive(Clone, Copy, Debug, PartialEq, Eq)]
pub enum DeltaAction {
    /// No message yet: send one.
    Send,
    /// Edit the message with the new preview.
    Edit,
    /// The last edit is too recent: leave the message as it is.
    Skip,
}

/// The action for a text delta, given whether the streaming message exists and the time
/// since it was last edited.
pub open spec fn delta_action_of(has_message: bool, since_edit_ms: u64) -> DeltaAction {
    if !has_message {
        DeltaAction::Send
    } else if since_edit_ms >= EDIT_INTERVAL_MS {
        DeltaAction::Edit
    } else {
        DeltaAction::Skip
    }
}

/// Decides how a text delta updates the streaming message.
pub fn delta_action(has_message: bool, since_edit_ms: u64) -> (r: DeltaAction)
    ensures
        r == delta_action_of(has_message, since_edit_ms),
{
    if !has_message {
        DeltaAction::Send
    } else if since_edit_ms >= EDIT_INTERVAL_MS {
        DeltaAction::Edit
    } else {
        DeltaAction::Skip
    }
}

/// The final text still shows tool calls in progress or a wait marker.
pub open spec fn shows_progress(text: Seq<char>) -> bool {
    contains(text, "🛠️ **Tool Calls:"@) || contains(text, "<!-- Waiting for"@)
}

/// Whether the streamed message should keep a progress reaction.
pub fn needs_progress_reaction(last_text: &str) -> (r: bool)
    ensures
        r == shows_progress(last_text@),
{
    let t = chars_of(last_text);
    contains_str(&t, "🛠️ **Tool Calls:") || contains_str(&t, "<!-- Waiting for")
}

/// The outcome of sending a reply chunk by chunk.
#[derive(Clone, Debug, PartialEq, Eq)]
pub struct ChunkDelivery {
    /// The message the next first chunk edits, once known.
    pub current_message: Option<i32>,
    /// No chunk failed.
    pub ok: bool,
    /// The error of the last failed chunk.
    pub error: Option<String>,
    /// The message id of the last chunk that was delivered.
    pub sent_message: Option<i32>,
}

impl ChunkDelivery {
    /// Before any chunk: the message to edit, if any, and nothing sent.
    pub fn start(message: Option<i32>) -> (d: Self)
        ensures
            d.current_message == message,
            d.ok,
            d.error is None,
            d.sent_message is None,
    {
        ChunkDelivery { current_message: message, ok: true, error: None, sent_message: None }
    }

    /// Records the outcome of chunk `index`: its message id, or the error text.
    pub fn record(&mut self, index: usize, outcome: Result<i32, String>)
        ensures
            match outcome {
                Ok(mid) => {
                    &&& final(self).current_message == (if old(self).current_message is None
                        && index == 0 {
                        Some(mid)
                    } else {
                        old(self).current_message
                    })
                    &&& final(self).sent_message == Some(mid)
                    &&& final(self).ok == old(self).ok
                    &&& final(self).error == old(self).error
                },
                Err(e) => {
                    &&& final(self).current_message == old(self).current_message
                    &&& final(self).sent_message == old(self).sent_message
                    &&& !final(self).ok
                    &&& final(self).error == Some(e)
                },
            },
    {
        match outcome {
            Ok(mid) => {
                if self.current_message.is_none() && index == 0 {
                    self.current_message = Some(mid);
                }
                self.sent_message = Some(mid);
            },
            Err(e) => {
                self.ok = false;
                self.error = Some(e);
            },
        }
    }
}


/// What a finished agent turn is answered with.
#[derive(Clone, Debug, PartialEq, Eq)]
pub enum StreamOutcome {
    /// The turn was stopped by `/stop`: nothing is sent.
    Interrupted,
    /// The turn failed with this exit code and error text, which are explained to the user.
    Failed { code: i32, message: String },
    /// The turn's answer.
    Reply(String),
}

/// Decides what a finished turn is answered with, from its standard error, whether it
/// failed, its exit code and its result. A failure without an exit code counts as code 1,
/// and its error text is the standard error, or the result when that is empty.
pub fn stream_outcome(stderr: &str, is_error: bool, returncode: Option<i32>, result: &str) -> (r: StreamOutcome)
    ensures
        stderr@ == "Interrupted by user (/stop)"@ ==> r == StreamOutcome::Interrupted,
        stderr@ != "Interrupted by user (/stop)"@ && is_error ==> (r matches StreamOutcome::Failed {
            code,
            message,
        } && code == (match returncode {
            Some(c) => c,
            None => 1,
        }) && message@ == (if stderr@.len() > 0 {
            stderr@
        } else {
            result@
        })),
        stderr@ != "Interrupted by user (/stop)"@ && !is_error ==> (r matches StreamOutcome::Reply(t)
            && t@ == result@),
{
    if eq_str(&chars_of(stderr), "Interrupted by user (/stop)") {
        return StreamOutcome::Interrupted;
    }
    if is_error {
        let code = match returncode {
            Some(c) => c,
            None => 1,
        };
        let message = if !stderr.is_empty() {
            stderr.to_owned()
        } else {
            result.to_owned()
        };
        StreamOutcome::Failed { code, message }
    } else {
        StreamOutcome::Reply(result.to_owned())
    }
}


/// What is done to the session record once a streamed turn is over.
#[derive(Clone, Debug, PartialEq, Eq)]
pub struct StreamWrapUp {
    /// The progress message of the previous turn whose reaction is cleared (done before
    /// the stream is read).
    pub clear_reaction_on: Option<i32>,
    /// The message of this turn that keeps a progress reaction.
    pub set_reaction_on: Option<i32>,
    /// The progress message recorded for the next turn.
    pub progress_message: Option<i32>,
    /// The session id to record, when the turn reported one.
    pub session_id: Option<String>,
    /// Whether the session record is saved.
    pub save: bool,
}

/// Decides the bookkeeping around a streamed turn, from the progress message recorded by
/// the previous turn, the message this turn streamed into, the last text streamed and the
/// session id the turn reported. The record is saved when anything in it changed.
pub fn stream_wrap_up(
    previous_progress: Option<i32>,
    streamed_message: Option<i32>,
    last_text: &str,
    session_id: Option<String>,
) -> (r: StreamWrapUp)
    ensures
        r.clear_reaction_on == previous_progress,
        r.set_reaction_on == (if streamed_message is Some && shows_progress(last_text@) {
            streamed_message
        } else {
            None
        }),
        r.progress_message == r.set_reaction_on,
        r.session_id == session_id,
        r.save == (session_id is Some || previous_progress is Some || r.set_reaction_on is Some),
{
    let set_reaction_on = match streamed_message {
        Some(m) => if needs_progress_reaction(last_text) {
            Some(m)
        } else {
            None
        },
        None => None,
    };
    let save = session_id.is_some() || previous_progress.is_some() || set_reaction_on.is_some();
    StreamWrapUp {
        clear_reaction_on: previous_progress,
        set_reaction_on,
        progress_message: set_reaction_on,
        session_id,
        save,
    }
}

} // verus!
