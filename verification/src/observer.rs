//! The watcher of an idle agent session: between the turns that a chat message starts, the
//! agent may finish background work on its own; the watcher reads what the session's
//! transcript gained and decides what the chat is shown.
//!
//! Each wake-up of the watcher and each piece of transcript it reads is an event; the
//! functions here give the next state and what to do, and the caller does it.

use vstd::prelude::*;

verus! {

/// How long an open turn may see no activity before it is dropped, in seconds.
pub const TURN_IDLE_LIMIT_SECS: u64 = 60;

/// What the watcher keeps between wake-ups.
#[derive(Clone, Copy, Debug, PartialEq, Eq)]
pub struct ObserverState {
    /// The agent was running a turn at the last wake-up.
    pub was_running: bool,
    /// How much of the transcript has been read, in bytes.
    pub last_size: u64,
    /// A turn the watcher shows is open (its typing indicator and progress message).
    pub turn_open: bool,
}

/// What the watcher finds when it wakes up.
#[derive(Clone, Copy, Debug, PartialEq, Eq)]
pub struct Wakeup {
    /// The session is still known to the agent.
    pub session_active: bool,
    /// The transcript file exists.
    pub transcript_exists: bool,
    /// The agent is running a turn of the session now.
    pub running: bool,
    /// The transcript's size in bytes, when it can be read.
    pub transcript_size: Option<u64>,
    /// Seconds since the open turn last saw activity.
    pub turn_idle_secs: u64,
}

/// What to do after a wake-up.
#[derive(Clone, Copy, Debug, PartialEq, Eq)]
pub enum WakeAction {
    /// The session is gone: stop watching.
    Stop,
    /// Nothing to read now: wait for the next wake-up.
    Wait,
    /// Read the transcript from this byte on.
    ReadFrom(u64),
}

/// The state and action after a wake-up. A running turn belongs to the chat message that
/// started it: the watcher then only skips to the transcript's end, and does so once more
/// when the turn has just ended. Otherwise an idle open turn is dropped, and the
/// transcript is read when it grew.
pub open spec fn wake_of(s: ObserverState, w: Wakeup) -> (ObserverState, WakeAction) {
    let size_now = match w.transcript_size {
        Some(n) => n,
        None => s.last_size,
    };
    if !w.session_active && !w.transcript_exists {
        (s, WakeAction::Stop)
    } else if w.running {
        (ObserverState { was_running: true, last_size: size_now, turn_open: false }, WakeAction::Wait)
    } else if s.was_running {
        (ObserverState { was_running: false, last_size: size_now, turn_open: false }, WakeAction::Wait)
    } else {
        let open = s.turn_open && w.turn_idle_secs <= TURN_IDLE_LIMIT_SECS;
        let t = ObserverState { turn_open: open, ..s };
        match w.transcript_size {
            Some(n) => if n > s.last_size {
                (t, WakeAction::ReadFrom(s.last_size))
            } else {
                (t, WakeAction::Wait)
            },
            None => (t, WakeAction::Wait),
        }
    }
}

/// Decides what a wake-up leads to.
pub fn observer_wake(s: ObserverState, w: Wakeup) -> (r: (ObserverState, WakeAction))
    ensures
        r == wake_of(s, w),
{
    let size_now = match w.transcript_size {
        Some(n) => n,
        None => s.last_size,
    };
    if !w.session_active && !w.transcript_exists {
        (s, WakeAction::Stop)
    } else if w.running {
        (ObserverState { was_running: true, last_size: size_now, turn_open: false }, WakeAction::Wait)
    } else if s.was_running {
        (ObserverState { was_running: false, last_size: size_now, turn_open: false }, WakeAction::Wait)
    } else {
        let open = s.turn_open && w.turn_idle_secs <= TURN_IDLE_LIMIT_SECS;
        let t = ObserverState { turn_open: open, ..s };
        match w.transcript_size {
            Some(n) => if n > s.last_size {
                (t, WakeAction::ReadFrom(s.last_size))
            } else {
                (t, WakeAction::Wait)
            },
            None => (t, WakeAction::Wait),
        }
    }
}

/// What the transcript gained since the last read.
#[derive(Clone, Copy, Debug, PartialEq, Eq)]
pub struct TranscriptDelta {
    /// The transcript's size once read, in bytes.
    pub new_size: u64,
    /// The agent did something.
    pub has_activity: bool,
    /// The agent finished with an answer.
    pub has_final: bool,
    /// The agent asks the user a question.
    pub has_question: bool,
    /// The agent reported progress.
    pub has_progress: bool,
}

/// Whether the caller must try to take the topic's lock before `observer_delta`: the
/// transcript shows activity and no turn is open yet.
pub open spec fn lock_wanted(s: ObserverState, d: TranscriptDelta) -> bool {
    d.has_activity && !s.turn_open
}

/// Decides whether to try the topic's lock for a piece of transcript.
pub fn needs_turn_lock(s: ObserverState, d: TranscriptDelta) -> (r: bool)
    ensures
        r == lock_wanted(s, d),
{
    d.has_activity && !s.turn_open
}

/// What to do with a piece of transcript.
#[derive(Clone, Copy, Debug, PartialEq, Eq)]
pub struct DeltaPlan {
    /// Open a turn (typing indicator and a progress message to come) under the lock taken.
    pub open_turn: bool,
    /// Note activity on the open turn.
    pub refresh_turn: bool,
    /// Send the final answer (in the progress message of the open turn, if any), then
    /// close the turn.
    pub deliver_final: bool,
    /// Put the agent's question to the user, then close the turn.
    pub ask_question: bool,
    /// Show the progress in the open turn's message.
    pub show_progress: bool,
}

/// The state and plan after reading a piece of transcript; `lock_taken` tells whether the
/// topic's lock was free when `needs_turn_lock` asked for it. The read position moves to
/// the transcript's new end. Activity keeps or opens a turn; a final answer or a question
/// is delivered and closes it; progress alone is shown only in an open turn.
pub open spec fn delta_of(s: ObserverState, d: TranscriptDelta, lock_taken: bool) -> (ObserverState, DeltaPlan) {
    let none = DeltaPlan {
        open_turn: false,
        refresh_turn: false,
        deliver_final: false,
        ask_question: false,
        show_progress: false,
    };
    if !d.has_activity {
        (ObserverState { last_size: d.new_size, ..s }, none)
    } else {
        let open_turn = !s.turn_open && lock_taken;
        let open = s.turn_open || open_turn;
        let terminal = d.has_final || d.has_question;
        let plan = DeltaPlan {
            open_turn,
            refresh_turn: s.turn_open,
            deliver_final: d.has_final,
            ask_question: d.has_question,
            show_progress: !terminal && d.has_progress && open,
        };
        (ObserverState { last_size: d.new_size, turn_open: open && !terminal, ..s }, plan)
    }
}

/// Decides what a piece of transcript leads to.
pub fn observer_delta(s: ObserverState, d: TranscriptDelta, lock_taken: bool) -> (r: (ObserverState, DeltaPlan))
    ensures
        r == delta_of(s, d, lock_taken),
{
    let none = DeltaPlan {
        open_turn: false,
        refresh_turn: false,
        deliver_final: false,
        ask_question: false,
        show_progress: false,
    };
    if !d.has_activity {
        (ObserverState { last_size: d.new_size, ..s }, none)
    } else {
        let open_turn = !s.turn_open && lock_taken;
        let open = s.turn_open || open_turn;
        let terminal = d.has_final || d.has_question;
        let plan = DeltaPlan {
            open_turn,
            refresh_turn: s.turn_open,
            deliver_final: d.has_final,
            ask_question: d.has_question,
            show_progress: !terminal && d.has_progress && open,
        };
        (ObserverState { last_size: d.new_size, turn_open: open && !terminal, ..s }, plan)
    }
}

/// A final answer or question read with activity closes the turn, progress is never
/// shown without an open turn, and reading always moves to the transcript's new end.
pub proof fn lemma_terminal_closes_turn(s: ObserverState, d: TranscriptDelta, lock_taken: bool)
    ensures
        d.has_activity && (d.has_final || d.has_question) ==> !delta_of(s, d, lock_taken).0.turn_open,
        delta_of(s, d, lock_taken).1.show_progress ==> delta_of(s, d, lock_taken).0.turn_open,
        delta_of(s, d, lock_taken).0.last_size == d.new_size,
{
}

/// While the agent runs a turn, the watcher reads nothing: every such wake-up waits.
pub proof fn lemma_running_turn_is_left_alone(s: ObserverState, w: Wakeup)
    requires
        w.running,
        w.session_active || w.transcript_exists,
    ensures
        wake_of(s, w).1 == WakeAction::Wait,
        !wake_of(s, w).0.turn_open,
{
}

} // verus!
