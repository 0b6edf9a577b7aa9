use tuner::handover::{
    build_topic_handover, extract_topic_history, format_recent_excerpts, is_boilerplate_or_header, is_decision_line,
    is_greeting,
    is_meta_cmd, parse_prior_summary, resolve_topic_entries, TelegramHistoryEntry, TopicHandoverContext,
};
use tuner::history::{find_sessions_for_topic, history_entry, needs_topic_metadata, should_log, topic_metadata};
use tuner::sessions::{handover_source, handover_summary, named_topic};

/// A session's logged history, as `log_telegram_message` appends it.
#[derive(Default)]
struct Log {
    entries: Vec<TelegramHistoryEntry>,
    stored_name: Option<Option<String>>,
}

impl Log {
    fn log(
        &mut self,
        topic_id: Option<i64>,
        topic_name: Option<&str>,
        sender: &str,
        message_id: Option<i32>,
        text: &str,
        ok: bool,
        error: Option<&str>,
    ) {
        if needs_topic_metadata(self.stored_name.is_some(), topic_id, topic_name) {
            self.stored_name = Some(topic_name.map(|s| s.to_string()));
        }
        self.entries.push(history_entry(
            "2026-01-01T00:00:00Z".to_string(),
            topic_id,
            topic_name,
            sender,
            message_id,
            text,
            ok,
            error,
        ));
    }

    fn handover(&self, sid: &str, topic_id: Option<i64>, name: Option<String>, prior: Option<&str>) -> Option<TopicHandoverContext> {
        let current = extract_topic_history(sid, &self.entries);
        build_topic_handover(sid, topic_id, name, prior, &current, &[], &vec![], self.stored_name.clone())
    }
}

#[test]
fn test_extract_topic_history_missing_dir() {
    let entries = extract_topic_history("non-existent-sid", &[]);
    assert!(entries.is_empty());
}

#[test]
fn test_extract_topic_history_filters_errors_and_commands() {
    let mut log = Log::default();
    log.log(Some(10), Some("Dev"), "user", Some(1), "/new", true, None);
    log.log(Some(10), Some("Dev"), "user", Some(2), "/status@tuner_bot", true, None);
    log.log(Some(10), Some("Dev"), "bot", Some(3), "Failed api", false, Some("Network error"));
    log.log(Some(10), Some("Dev"), "user", Some(4), "Implement feature A", true, None);
    log.log(Some(10), Some("Dev"), "bot", Some(5), "Feature A implemented successfully", true, None);

    let entries = extract_topic_history("test-session-1", &log.entries);
    assert_eq!(entries.len(), 2);
    assert_eq!(entries[0].text, "Implement feature A");
    assert_eq!(entries[1].text, "Feature A implemented successfully");
}

fn seed_test_history(log: &mut Log) {
    let t = Some("RusTerm Monitoring");
    log.log(Some(42), t, "user", Some(10), "RusTerm 웹 시리얼 모니터링 기능 구현해줘", true, None);
    log.log(Some(42), t, "bot", Some(11), "WebSocket 스트리밍과 WebSerial 중 어떤 것을 쓸까요?", true, None);
    log.log(Some(42), t, "user", Some(12), "WebSocket 스트리밍 방식으로 결정하고 진행하자", true, None);
    log.log(Some(42), t, "bot", Some(13), "WebSocket 스트리밍 방식으로 결정했습니다. 백엔드 구현 완료.", true, None);
    log.log(Some(42), t, "user", Some(14), "프론트엔드 차트 컴포넌트 추가해줘", true, None);
    log.log(Some(42), t, "bot", Some(15), "차트 렌더링 컴포넌트 추가 완료했습니다. 60fps 출력 중입니다.", true, None);
}

#[test]
fn test_build_topic_handover_success_flow() {
    let sid = "session-handover-test";
    let mut log = Log::default();
    seed_test_history(&mut log);

    let handover = log.handover(sid, Some(42), Some("RusTerm Monitoring".to_string()), None).unwrap();

    assert_eq!(handover.topic_id, Some(42));
    assert_eq!(handover.topic_name, Some("RusTerm Monitoring".to_string()));
    assert_eq!(handover.previous_session_id, sid);
    assert!(handover.topic_objective.contains("RusTerm 웹 시리얼 모니터링 기능 구현해줘"));
    assert!(handover.agreed_decisions.iter().any(|d| d.contains("WebSocket 스트리밍 방식")));
    assert!(handover.current_progress.contains("차트 렌더링 컴포넌트 추가 완료했습니다"));
    assert!(handover.handover_prompt.contains("[TOPIC CONTEXT HANDOVER]"));
    assert!(handover.handover_prompt.contains("RusTerm Monitoring"));
}

#[test]
fn test_build_topic_handover_retains_prior_summary_on_empty_session() {
    let sid = "empty-new-sid";
    let log = Log::default();

    let prior = "Objective: [Topic: RusTerm] Core Engine\nDecisions: WebSocket streaming; In-memory ring buffer\nProgress: Last assistant status: Ready";
    let handover = log.handover(sid, Some(42), Some("RusTerm".to_string()), Some(prior)).unwrap();

    assert_eq!(handover.topic_objective, "[Topic: RusTerm] Core Engine");
    assert!(handover.agreed_decisions.contains(&"WebSocket streaming".to_string()));
    assert!(handover.agreed_decisions.contains(&"In-memory ring buffer".to_string()));
    assert!(handover.current_progress.contains("Ready"));
}

#[test]
fn test_build_topic_handover_preserves_multiline_objective_with_greetings() {
    let sid = "session-greeting-obj";
    let mut log = Log::default();
    let multi = "안녕하세요!\nRusTerm 웹 시리얼 모니터링 기능 추가해주세요.";
    log.log(Some(10), Some("Dev"), "user", Some(1), multi, true, None);
    log.log(Some(10), Some("Dev"), "bot", Some(2), "작업을 시작합니다.", true, None);

    let handover = log.handover(sid, Some(10), Some("Dev".to_string()), None).unwrap();
    assert!(handover.topic_objective.contains("RusTerm 웹 시리얼 모니터링 기능 추가해주세요"));
}

#[test]
fn test_agreed_decisions_ignores_markdown_headers_and_boilerplate() {
    let sid = "session-no-leak";
    let mut log = Log::default();
    log.log(Some(10), None, "user", Some(1), "Let's begin", true, None);
    let bot_msg = "\
### 2. Key Decisions & Agreed Specifications
1. Seamlessly continue the work in this topic without losing context.
- Actual technical decision: decided to use Tokio async runtime.
";
    log.log(Some(10), None, "bot", Some(2), bot_msg, true, None);

    let handover = log.handover(sid, Some(10), None, None).unwrap();
    for dec in &handover.agreed_decisions {
        assert!(!dec.starts_with('#'), "Markdown header leaked: {}", dec);
        assert!(!dec.contains("Seamlessly continue"), "Instruction leaked: {}", dec);
    }
    assert!(handover.agreed_decisions.iter().any(|d| d.contains("Tokio async runtime")));
}

#[test]
fn test_handover_truncates_long_messages() {
    let sid = "session-long-text";
    let mut log = Log::default();
    let long_user = "A".repeat(1000);
    let long_bot = "B".repeat(1000);
    log.log(Some(7), None, "user", Some(1), &long_user, true, None);
    log.log(Some(7), None, "bot", Some(2), &long_bot, true, None);

    let handover = log.handover(sid, Some(7), None, None).unwrap();
    assert!(!handover.handover_prompt.contains(&"A".repeat(500)));
    assert!(!handover.handover_prompt.contains(&"B".repeat(500)));
    assert!(handover.handover_prompt.contains("[truncated]"));
}

#[test]
fn test_handover_multibyte_korean_utf8_truncation() {
    let sid = "session-korean-utf8";
    let mut log = Log::default();
    let korean_prompt = "우리가 RusTerm 웹 시리얼 프로젝트를 개발 중이야. 통신 속도는 115200 baud로 확정하고 전송 포맷은 JSON으로 합의했어. 매우 긴 한국어 문장이 포함되어 있으며 150바이트 경계선에서 글자가 잘리더라도 패닉이 발생하지 않아야 합니다. 계속해서 긴 문장을 이어 작성합니다.".repeat(3);
    log.log(Some(8), None, "user", Some(1), &korean_prompt, true, None);
    log.log(Some(8), None, "bot", Some(2), "네, 확인했습니다.", true, None);

    let res = log.handover(sid, Some(8), None, None);
    assert!(res.is_some());
    let handover = res.unwrap();
    assert!(!handover.agreed_decisions.is_empty());
}

#[test]
fn handover_needs_history_or_prior_summary() {
    let log = Log::default();
    assert!(log.handover("sid", Some(1), None, None).is_none());
}

#[test]
fn handover_label_falls_back_to_topic_number_and_general() {
    let mut log = Log::default();
    log.log(None, None, "user", Some(1), "Build the parser", true, None);
    let with_id = log.handover("s1", Some(9), None, None).unwrap();
    assert!(with_id.handover_prompt.contains("\"Topic #9\""));
    let general = log.handover("s1", None, None, None).unwrap();
    assert!(general.handover_prompt.contains("\"General Topic\""));
    let no_sid = log.handover("", None, None, None);
    assert!(no_sid.is_none() || no_sid.unwrap().handover_prompt.contains("'prior_session'"));
}

#[test]
fn resolve_topic_entries_uses_latest_past_session() {
    let e = |t: &str| history_entry("ts".to_string(), None, None, "user", None, t, true, None);
    let past_ids = vec!["old".to_string(), "newer".to_string(), "cur".to_string()];
    let past = vec![vec![e("from old")], vec![e("from newer")], vec![e("from current id")]];
    let r = resolve_topic_entries("cur", &[], &past_ids, &past);
    assert_eq!(r.len(), 1);
    assert_eq!(r[0].text, "from newer");
    let own = resolve_topic_entries("cur", &[e("own")], &past_ids, &past);
    assert_eq!(own[0].text, "own");
}

#[test]
fn parse_prior_summary_reads_sections() {
    let (obj, decs, prog) = parse_prior_summary(
        "Objective: First line\nsecond line\nDecisions: a; b ;\n- c\n* No explicit technical decisions yet\nProgress: done\nmore",
    );
    assert_eq!(obj, Some("First line second line".to_string()));
    assert_eq!(decs, vec!["a".to_string(), "b".to_string(), "c".to_string()]);
    assert_eq!(prog, Some("done\nmore".to_string()));
    let (o2, d2, p2) = parse_prior_summary("");
    assert_eq!((o2, d2.len(), p2), (None, 0, None));
}

#[test]
fn handover_summary_round_trips_through_parse_prior_summary() {
    let ctx = TopicHandoverContext {
        topic_id: Some(1),
        topic_name: None,
        previous_session_id: "s".to_string(),
        topic_objective: "Ship the parser".to_string(),
        agreed_decisions: vec!["Use serde".to_string(), "Keep JSONL".to_string()],
        current_progress: "Tests pass".to_string(),
        handover_prompt: String::new(),
    };
    let summary = handover_summary(&ctx);
    assert_eq!(summary, "Objective: Ship the parser\nDecisions: Use serde; Keep JSONL\nProgress: Tests pass");
    let (obj, decs, prog) = parse_prior_summary(&summary);
    assert_eq!(obj, Some("Ship the parser".to_string()));
    assert_eq!(decs, vec!["Use serde".to_string(), "Keep JSONL".to_string()]);
    assert_eq!(prog, Some("Tests pass".to_string()));
}

#[test]
fn handover_word_classifiers() {
    assert!(is_meta_cmd("/new"));
    assert!(is_meta_cmd("/status@tuner_bot"));
    assert!(!is_meta_cmd("Implement feature A"));
    assert!(is_greeting("안녕하세요!"));
    assert!(!is_greeting("Build the parser"));
    assert!(is_decision_line("decided to use Tokio async runtime"));
}

#[test]
fn recent_excerpts_label_roles_and_flatten_lines() {
    let user = history_entry("ts".to_string(), None, None, "User", None, "line one\nline two", true, None);
    let bot = history_entry("ts".to_string(), None, None, "bot", None, "ok", true, None);
    let ex = format_recent_excerpts(&[user, bot], 4);
    assert_eq!(ex, vec!["[User]: line one line two".to_string(), "[Assistant]: ok".to_string()]);
}

#[test]
fn history_logging_rules() {
    assert!(should_log("sid"));
    assert!(!should_log(""));
    assert!(needs_topic_metadata(false, Some(1), None));
    assert!(!needs_topic_metadata(true, Some(1), None));
    assert!(!needs_topic_metadata(false, None, None));
    let meta = topic_metadata("s1", Some(42), Some("Dev"), "2026".to_string());
    assert_eq!(meta.topic_name, Some("Dev".to_string()));
    let other = topic_metadata("s2", Some(7), None, "2026".to_string());
    let third = topic_metadata("s3", Some(42), None, "2026".to_string());
    let dirs = vec![("s1".to_string(), meta), ("s2".to_string(), other), ("s3".to_string(), third)];
    assert_eq!(find_sessions_for_topic(&dirs, 42), vec!["s1".to_string(), "s3".to_string()]);
}

#[test]
fn handover_source_and_named_topic() {
    let past = vec!["a".to_string(), "b".to_string()];
    assert_eq!(handover_source("", &past), "b");
    assert_eq!(handover_source("cur", &past), "cur");
    assert_eq!(handover_source("", &[].to_vec()), "");
    assert_eq!(named_topic("/new Backend"), Some("Backend".to_string()));
    assert_eq!(named_topic("/new"), None);
}

#[test]
fn boilerplate_lines_are_recognised() {
    assert!(is_boilerplate_or_header("### 2. Key Decisions"));
    assert!(is_boilerplate_or_header("  ```rust"));
    assert!(is_boilerplate_or_header("---"));
    assert!(is_boilerplate_or_header("[TOPIC CONTEXT HANDOVER]"));
    assert!(is_boilerplate_or_header("1. Seamlessly continue the work in this topic."));
    assert!(is_boilerplate_or_header("INSTRUCTIONS FOR THE NEW SESSION"));
    assert!(!is_boilerplate_or_header("- decided to use Tokio async runtime."));
}
