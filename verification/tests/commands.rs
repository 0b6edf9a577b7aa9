use tuner::access::{authorize, AccessDecision};
use tuner::commands::{
    escape_non_workflow_slash, get_bot_commands, help_text, is_lock_free_command, is_workflow_slash_command, route_command,
    session_control_command, CommandRoute, SessionControl,
};
use tuner::ingress::{active_language, normalize_command_aliases, route_message, MessageRoute};
use tuner::rate_limit::{pre_send_delay_ms, retry_delay_secs};
use tuner::sessions::{boot_reply, session_start, SessionStart};
use tuner::streaming::{
    delta_action, needs_progress_reaction, stream_outcome, truncate_streaming_preview, ChunkDelivery, DeltaAction,
    StreamOutcome, stream_wrap_up, StreamWrapUp,
};
use tuner::supervisor::{
    answers_yes, daemon_action, early_action, is_usable_token, plan_supervision, version_line, wants_setup,
    worker_profile, DaemonAction, EarlyAction, WorkerState,
};

fn args(v: &[&str]) -> Vec<String> {
    v.iter().map(|s| s.to_string()).collect()
}

#[test]
fn test_is_lock_free_command_classification() {
    // Lock-free commands: read-only info, diagnostics, and process interrupts
    assert!(is_lock_free_command("/status"));
    assert!(is_lock_free_command("/help"));
    assert!(is_lock_free_command("/start"));
    assert!(is_lock_free_command("/diagnose"));
    assert!(is_lock_free_command("/memory"));
    assert!(is_lock_free_command("/cron"));
    assert!(is_lock_free_command("/upgrade"));
    assert!(is_lock_free_command("/restart"));
    assert!(is_lock_free_command("/stop"));
    assert!(is_lock_free_command("/stop_all"));
    assert!(is_lock_free_command("/abort"));

    // Commands that mutate session state and MUST acquire topic lock
    assert!(!is_lock_free_command("/new"));
    assert!(!is_lock_free_command("/reset"));
    assert!(!is_lock_free_command("/model"));
    assert!(!is_lock_free_command("/effort"));
    assert!(!is_lock_free_command("/lang"));

    // Regular chat text
    assert!(!is_lock_free_command("Hello assistant!"));
    assert!(!is_lock_free_command("Please help me debug this"));
}

#[test]
fn test_usage_command_registry_and_topic_lock() {
    // /usage must NOT be lock-free: it runs under topic lock in its own turn
    assert!(!is_lock_free_command("/usage"));
    assert!(!is_lock_free_command("/usage help"));

    // Normal lock-free commands must remain lock-free
    assert!(is_lock_free_command("/status"));
    assert!(is_lock_free_command("/stop"));
    assert!(is_lock_free_command("/abort"));

    // Bot commands must include "usage" and "cron"
    let cmds = get_bot_commands();
    assert!(cmds.iter().any(|c| c.command == "usage"));
    assert!(cmds.iter().any(|c| c.command == "cron"));
}

#[test]
fn lock_free_looks_at_the_first_word_only() {
    assert!(is_lock_free_command("  /status   now"));
    assert!(!is_lock_free_command(""));
    assert!(!is_lock_free_command("please /status"));
}

#[test]
fn bot_command_menu_order() {
    let cmds = get_bot_commands();
    assert_eq!(cmds.len(), 18);
    assert_eq!(cmds[0].command, "new");
    assert_eq!(cmds[0].description, "Start a fresh conversation session");
    assert_eq!(cmds[17].command, "upgrade");
    assert!(help_text().starts_with("🤖 <b>[tuner] Command Reference:</b>\n• /status"));
}

#[test]
fn commands_are_routed() {
    assert_eq!(route_command(" /help "), CommandRoute::Help);
    assert_eq!(route_command("/start"), CommandRoute::Help);
    assert_eq!(route_command("/diagnose"), CommandRoute::Status);
    assert_eq!(route_command("/restart"), CommandRoute::Restart);
    assert_eq!(route_command("/usage"), CommandRoute::Usage);
    assert_eq!(route_command("/new Backend"), CommandRoute::SessionControl);
    assert_eq!(route_command("/reset"), CommandRoute::SessionControl);
    assert_eq!(route_command("/stop_all"), CommandRoute::SessionControl);
    assert_eq!(route_command("/model  gemini-3.1-pro "), CommandRoute::Model("gemini-3.1-pro".to_string()));
    assert_eq!(route_command("/effort high"), CommandRoute::Effort("high".to_string()));
    assert_eq!(route_command("/lang"), CommandRoute::Lang(String::new()));
    assert_eq!(route_command("/memory"), CommandRoute::Memory);
    assert_eq!(route_command("/cron"), CommandRoute::Cron);
    assert_eq!(route_command("/upgrade"), CommandRoute::Upgrade);
    assert_eq!(route_command("hello"), CommandRoute::Unhandled);
    assert_eq!(route_command("/usage now"), CommandRoute::Unhandled);
}

#[test]
fn session_control_commands_accept_bot_suffix() {
    assert_eq!(session_control_command(" /new@tuner_bot Backend "), SessionControl::New("/new@tuner_bot Backend".to_string()));
    assert_eq!(session_control_command("/reset"), SessionControl::New("/reset".to_string()));
    assert_eq!(session_control_command("/stop@tuner_bot"), SessionControl::Stop);
    assert_eq!(session_control_command("/abort"), SessionControl::StopAll);
    assert_eq!(session_control_command("/stop_all"), SessionControl::StopAll);
    assert_eq!(session_control_command("/newer"), SessionControl::NotControl);
}

#[test]
fn access_decisions() {
    let users = vec![5i64];
    let groups = vec![-100i64];
    assert_eq!(authorize(5, 5, false, None, &users, &groups), AccessDecision::Allow);
    assert_eq!(authorize(6, 6, false, None, &users, &groups), AccessDecision::Deny);
    assert_eq!(authorize(5, -100, true, None, &users, &groups), AccessDecision::Allow);
    assert_eq!(authorize(5, -200, true, None, &users, &groups), AccessDecision::UnauthorizedGroup);
    assert_eq!(authorize(9, 9, false, None, &vec![], &groups), AccessDecision::RegisterOwner(9));
    assert_eq!(authorize(0, 9, false, None, &vec![], &groups), AccessDecision::Deny);
    assert_eq!(authorize(5, 5, true, Some(-300), &users, &groups), AccessDecision::Migrate(-300));
}

#[test]
fn streaming_preview_keeps_the_tail() {
    assert_eq!(truncate_streaming_preview("short"), "short");
    let exact = "가".repeat(3900);
    assert_eq!(truncate_streaming_preview(&exact), exact);
    let long = format!("{}{}", "x".repeat(200), "가".repeat(3800));
    assert_eq!(truncate_streaming_preview(&long), format!("...[중간 생략]...\n{}", "가".repeat(3800)));
}

#[test]
fn streaming_edit_pacing() {
    assert_eq!(delta_action(false, 0), DeltaAction::Send);
    assert_eq!(delta_action(true, 1999), DeltaAction::Skip);
    assert_eq!(delta_action(true, 2000), DeltaAction::Edit);
    assert!(needs_progress_reaction("… 🛠️ **Tool Calls: read"));
    assert!(needs_progress_reaction("<!-- Waiting for input -->"));
    assert!(!needs_progress_reaction("Done."));
}

#[test]
fn chunk_delivery_bookkeeping() {
    let mut d = ChunkDelivery::start(None);
    d.record(0, Ok(11));
    d.record(1, Err("boom".to_string()));
    d.record(2, Ok(13));
    assert_eq!(d.current_message, Some(11));
    assert_eq!(d.sent_message, Some(13));
    assert!(!d.ok);
    assert_eq!(d.error, Some("boom".to_string()));
    let mut e = ChunkDelivery::start(Some(4));
    e.record(0, Ok(4));
    assert_eq!(e.current_message, Some(4));
    assert!(e.ok);
}

#[test]
fn rate_limit_waits() {
    assert_eq!(pre_send_delay_ms(300, 1000), 700);
    assert_eq!(pre_send_delay_ms(1500, 1000), 0);
    assert_eq!(retry_delay_secs(0, Some(5)), Some(5));
    assert_eq!(retry_delay_secs(1, Some(0)), Some(1));
    assert_eq!(retry_delay_secs(2, Some(5)), None);
    assert_eq!(retry_delay_secs(0, None), None);
}

#[test]
fn ingress_routing_and_language() {
    assert_eq!(route_message(Some("g1".to_string()), true, ""), MessageRoute::MediaGroup("g1".to_string()));
    assert_eq!(route_message(None, true, ""), MessageRoute::StashAttachment);
    assert_eq!(route_message(None, true, "look"), MessageRoute::MediaWithText);
    assert_eq!(route_message(None, false, "hi"), MessageRoute::Text);
    assert_eq!(route_message(None, false, ""), MessageRoute::Ignore);
    assert_eq!(active_language(Some("ko".to_string()), Some("de".to_string())), "ko");
    assert_eq!(active_language(None, Some("de".to_string())), "de");
    assert_eq!(active_language(None, None), "en");
    assert_eq!(normalize_command_aliases("/grill_me and /teamwork_preview"), "/grill-me and /teamwork-preview");
}

#[test]
fn session_start_rules() {
    assert_eq!(session_start("", false), SessionStart::Boot);
    assert_eq!(session_start("mock-1", false), SessionStart::Reuse);
    assert_eq!(session_start("abc", true), SessionStart::Reuse);
    assert_eq!(session_start("abc", false), SessionStart::ResetExpired);
    assert_eq!(boot_reply("  \n"), None);
    assert_eq!(boot_reply("Ready"), Some("Ready".to_string()));
}

#[test]
fn command_line_modes() {
    assert_eq!(early_action(&args(&["tuner", "-V"])), EarlyAction::PrintVersion);
    assert_eq!(early_action(&args(&["tuner", "--upgrade"])), EarlyAction::Upgrade);
    assert_eq!(early_action(&args(&["tuner"])), EarlyAction::Continue);
    assert_eq!(version_line("1.2.3"), "tuner 1.2.3");
    assert!(wants_setup(&args(&["tuner", "--setup"])));
    assert_eq!(worker_profile(&args(&["tuner", "--worker", "alice", "--worker", "bob"])), Some("alice".to_string()));
    assert_eq!(worker_profile(&args(&["tuner", "--worker"])), None);
    assert_eq!(daemon_action(&args(&["tuner", "--install-systemd", "--supervisor"])), DaemonAction::InstallSystemd);
    assert_eq!(
        daemon_action(&args(&["tuner", "--supervisor", "--worker", "x", "--supervisor"])),
        DaemonAction::Supervise(args(&["--worker", "x"]))
    );
    assert_eq!(daemon_action(&args(&["tuner"])), DaemonAction::Continue);
    assert!(is_usable_token("123:abc"));
    assert!(!is_usable_token(""));
    assert!(!is_usable_token("YOUR_BOT_TOKEN_HERE"));
    assert!(answers_yes("Yes"));
    assert!(!answers_yes("no"));
}

#[test]
fn supervision_rounds() {
    let p = plan_supervision(&vec![WorkerState::Exited(Some(1)), WorkerState::Running, WorkerState::Exited(None)]);
    assert_eq!(p.restart, vec![0, 2]);
    assert_eq!(p.restart_requested_by, None);
    let q = plan_supervision(&vec![WorkerState::Exited(Some(3)), WorkerState::Exited(Some(42)), WorkerState::Exited(Some(1))]);
    assert_eq!(q.restart, vec![0]);
    assert_eq!(q.restart_requested_by, Some(1));
}

#[test]
fn finished_turn_outcomes() {
    assert_eq!(stream_outcome("Interrupted by user (/stop)", true, Some(2), "x"), StreamOutcome::Interrupted);
    assert_eq!(
        stream_outcome("boom", true, None, "partial"),
        StreamOutcome::Failed { code: 1, message: "boom".to_string() }
    );
    assert_eq!(
        stream_outcome("", true, Some(3), "partial"),
        StreamOutcome::Failed { code: 3, message: "partial".to_string() }
    );
    assert_eq!(stream_outcome("warning", false, Some(0), "answer"), StreamOutcome::Reply("answer".to_string()));
}

#[test]
fn streamed_turn_bookkeeping() {
    assert_eq!(
        stream_wrap_up(Some(4), Some(9), "🛠️ **Tool Calls: grep", Some("s1".to_string())),
        StreamWrapUp {
            clear_reaction_on: Some(4),
            set_reaction_on: Some(9),
            progress_message: Some(9),
            session_id: Some("s1".to_string()),
            save: true,
        }
    );
    assert_eq!(
        stream_wrap_up(None, Some(9), "done", None),
        StreamWrapUp { clear_reaction_on: None, set_reaction_on: None, progress_message: None, session_id: None, save: false }
    );
    assert_eq!(
        stream_wrap_up(None, None, "<!-- Waiting for input -->", None),
        StreamWrapUp { clear_reaction_on: None, set_reaction_on: None, progress_message: None, session_id: None, save: false }
    );
    assert!(stream_wrap_up(Some(2), None, "", None).save);
}

#[test]
fn test_workflow_slash_command_whitelist() {
    assert!(is_workflow_slash_command("/goal overnight build something"));
    assert!(is_workflow_slash_command("/plan refactor architecture"));
    assert!(is_workflow_slash_command("/learn record correction"));
    assert!(is_workflow_slash_command("/grill_me"));
    assert!(is_workflow_slash_command("/grill-me"));
    assert!(is_workflow_slash_command("/teamwork_preview"));
    assert!(is_workflow_slash_command("/teamwork-preview"));
    assert!(is_workflow_slash_command("/browser check docs"));
    assert!(is_workflow_slash_command("/boost solve puzzle"));
    assert!(is_workflow_slash_command("/schedule every 10m"));

    assert!(!is_workflow_slash_command("/etc/nginx/nginx.conf"));
    assert!(!is_workflow_slash_command("/usage"));
    assert!(!is_workflow_slash_command("/unknown_command"));
    assert!(!is_workflow_slash_command("plain text"));
}

#[test]
fn test_escape_non_workflow_slash() {
    assert_eq!(escape_non_workflow_slash("/goal overnight task"), "/goal overnight task");
    assert_eq!(escape_non_workflow_slash("/plan something"), "/plan something");
    assert_eq!(escape_non_workflow_slash("/learn fix"), "/learn fix");

    assert_eq!(escape_non_workflow_slash("/etc/hosts"), " /etc/hosts");
    assert_eq!(escape_non_workflow_slash("/usage 설명해줘"), " /usage 설명해줘");
    assert_eq!(escape_non_workflow_slash("/usage 동작 되는거 확인했어."), " /usage 동작 되는거 확인했어.");
    assert_eq!(escape_non_workflow_slash("/var/log/syslog"), " /var/log/syslog");

    assert_eq!(escape_non_workflow_slash("일반 텍스트"), "일반 텍스트");
    assert_eq!(escape_non_workflow_slash("hello /world"), "hello /world");
}
