use tuner::observer::{
    needs_turn_lock, observer_delta, observer_wake, DeltaPlan, ObserverState, TranscriptDelta, WakeAction, Wakeup,
};

fn state(was_running: bool, last_size: u64, turn_open: bool) -> ObserverState {
    ObserverState { was_running, last_size, turn_open }
}

fn wake(running: bool, size: Option<u64>, idle: u64) -> Wakeup {
    Wakeup { session_active: true, transcript_exists: true, running, transcript_size: size, turn_idle_secs: idle }
}

fn delta(new_size: u64, has_activity: bool, has_final: bool, has_question: bool, has_progress: bool) -> TranscriptDelta {
    TranscriptDelta { new_size, has_activity, has_final, has_question, has_progress }
}

#[test]
fn wakeups() {
    let gone = Wakeup { session_active: false, transcript_exists: false, running: false, transcript_size: None, turn_idle_secs: 0 };
    assert_eq!(observer_wake(state(false, 10, true), gone), (state(false, 10, true), WakeAction::Stop));
    assert_eq!(observer_wake(state(false, 10, true), wake(true, Some(50), 0)), (state(true, 50, false), WakeAction::Wait));
    assert_eq!(observer_wake(state(true, 50, false), wake(false, Some(70), 0)), (state(false, 70, false), WakeAction::Wait));
    assert_eq!(observer_wake(state(true, 50, false), wake(false, None, 0)), (state(false, 50, false), WakeAction::Wait));
    assert_eq!(observer_wake(state(false, 70, true), wake(false, Some(90), 5)), (state(false, 70, true), WakeAction::ReadFrom(70)));
    assert_eq!(observer_wake(state(false, 70, true), wake(false, Some(90), 61)), (state(false, 70, false), WakeAction::ReadFrom(70)));
    assert_eq!(observer_wake(state(false, 90, true), wake(false, Some(90), 60)), (state(false, 90, true), WakeAction::Wait));
    assert_eq!(observer_wake(state(false, 90, false), wake(false, None, 0)), (state(false, 90, false), WakeAction::Wait));
}

#[test]
fn transcript_pieces() {
    let nothing = DeltaPlan { open_turn: false, refresh_turn: false, deliver_final: false, ask_question: false, show_progress: false };
    assert!(!needs_turn_lock(state(false, 0, false), delta(10, false, false, false, false)));
    assert!(needs_turn_lock(state(false, 0, false), delta(10, true, false, false, true)));
    assert!(!needs_turn_lock(state(false, 0, true), delta(10, true, false, false, true)));
    assert_eq!(observer_delta(state(false, 0, true), delta(10, false, true, false, false), false), (state(false, 10, true), nothing));
    assert_eq!(
        observer_delta(state(false, 0, false), delta(10, true, false, false, true), true),
        (state(false, 10, true), DeltaPlan { open_turn: true, show_progress: true, ..nothing })
    );
    assert_eq!(
        observer_delta(state(false, 0, false), delta(10, true, false, false, true), false),
        (state(false, 10, false), nothing)
    );
    assert_eq!(
        observer_delta(state(false, 10, true), delta(30, true, true, false, true), false),
        (state(false, 30, false), DeltaPlan { refresh_turn: true, deliver_final: true, ..nothing })
    );
    assert_eq!(
        observer_delta(state(false, 10, false), delta(30, true, false, true, false), false),
        (state(false, 30, false), DeltaPlan { ask_question: true, ..nothing })
    );
}
