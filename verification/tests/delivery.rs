use tuner::id_map::MatrixIdMap;
use tuner::matrix_transport::{
    broadcast_plan, delivery_plan, format_background, format_cron, format_interagent, format_message,
    format_task_question, format_task_result, DeliveryEnvelope, MessageOrigin,
};

fn envelope(origin: MessageOrigin) -> DeliveryEnvelope {
    DeliveryEnvelope {
        origin,
        chat_id: 7,
        status: "success".to_string(),
        is_error: false,
        session_name: String::new(),
        prompt: String::new(),
        prompt_preview: String::new(),
        result_text: String::new(),
        elapsed: "12".to_string(),
        provider: String::new(),
        model: String::new(),
        needs_injection: false,
        metadata: Vec::new(),
    }
}

fn meta(pairs: &[(&str, &str)]) -> Vec<(String, String)> {
    pairs.iter().map(|(k, v)| (k.to_string(), v.to_string())).collect()
}

#[test]
fn named_background_results() {
    let mut e = envelope(MessageOrigin::Background);
    e.session_name = "s1".to_string();
    e.prompt_preview = "do x".to_string();
    e.status = "aborted".to_string();
    assert_eq!(format_background(&e), "**[s1] Cancelled**\n\n_do x_");
    e.status = "error".to_string();
    e.is_error = true;
    e.result_text = "boom".to_string();
    assert_eq!(format_background(&e), "**[s1] Failed** (12s)\n\nboom");
    e.is_error = false;
    e.result_text = String::new();
    assert_eq!(format_background(&e), "**[s1] Complete** (12s)\n\n_No output._");
}

#[test]
fn unnamed_background_results() {
    let mut e = envelope(MessageOrigin::Background);
    e.metadata = meta(&[("task_id", "t9")]);
    e.prompt_preview = "p".to_string();
    e.status = "aborted".to_string();
    assert_eq!(format_background(&e), "**Background Task Cancelled**\n\nTask `t9` was cancelled.\nPrompt: _p_");
    e.status = "error".to_string();
    e.is_error = true;
    e.elapsed = "3".to_string();
    e.result_text = "out".to_string();
    assert_eq!(
        format_background(&e),
        "**Background Task Failed** (3s)\n\nTask `t9` failed (error).\nPrompt: _p_\n\nout"
    );
    e.metadata = Vec::new();
    e.result_text = "a".repeat(2500);
    let text = format_background(&e);
    assert!(text.starts_with("**Background Task Failed** (3s)\n\nTask `?` failed"));
    assert!(text.ends_with(&format!("\n\n{}", "a".repeat(2000))));
    assert!(!text.ends_with(&"a".repeat(2001)));
    e.is_error = false;
    e.status = "done".to_string();
    e.result_text = "fine".to_string();
    assert_eq!(format_background(&e), "**Background Task Complete** (3s)\n\nfine");
}

#[test]
fn cron_results() {
    let mut e = envelope(MessageOrigin::Cron);
    e.metadata = meta(&[("title", "Backup")]);
    e.result_text = "delivered to telegram: message sent successfully\nDone".to_string();
    assert_eq!(format_cron(&e), "**TASK: Backup**\n\nDone");
    e.result_text = "Message sent   successfully, delivered to Telegram".to_string();
    assert_eq!(format_cron(&e), "");
    e.status = "failed".to_string();
    assert_eq!(format_cron(&e), "**TASK: Backup**\n\n_failed_");
    e.metadata = Vec::new();
    e.result_text = String::new();
    assert_eq!(format_cron(&e), "**TASK: ?**\n\n_failed_");
}

#[test]
fn interagent_results() {
    let mut e = envelope(MessageOrigin::Interagent);
    e.is_error = true;
    e.metadata = meta(&[("recipient", "bob")]);
    e.prompt_preview = "hi".to_string();
    assert_eq!(format_interagent(&e), "**Inter-Agent Request Failed**\n\nAgent: `bob`\nError: unknown\nRequest: _hi_");
    e.session_name = "s2".to_string();
    e.metadata = meta(&[("error", "timeout")]);
    assert_eq!(
        format_interagent(&e),
        "**Inter-Agent Request Failed**\n\nAgent: `?`\nSession: `s2`\nError: timeout\nRequest: _hi_"
    );
    e.is_error = false;
    e.metadata = meta(&[("provider_switch_notice", "switched")]);
    e.result_text = "ok".to_string();
    assert_eq!(format_interagent(&e), "**Provider Switch Detected**\n\nswitched\n\nok");
    e.metadata = meta(&[("provider_switch_notice", "")]);
    assert_eq!(format_interagent(&e), "ok");
}

#[test]
fn task_results_and_questions() {
    let mut e = envelope(MessageOrigin::TaskResult);
    e.metadata = meta(&[("task_id", "t1"), ("name", "n")]);
    e.status = "done".to_string();
    e.elapsed = "5".to_string();
    e.provider = "p".to_string();
    e.model = "m".to_string();
    e.needs_injection = true;
    e.result_text = "r".to_string();
    assert_eq!(format_task_result(&e), "**Task `n` completed** (5s, p/m)\n\nr");
    e.provider = String::new();
    e.needs_injection = false;
    assert_eq!(format_task_result(&e), "**Task `n` completed** (5s)");
    e.status = "failed".to_string();
    e.metadata = meta(&[("task_id", "t1")]);
    assert_eq!(format_task_result(&e), "**Task `t1` failed**\nReason: unknown");
    e.status = "cancelled".to_string();
    assert_eq!(format_task_result(&e), "**Task `t1` cancelled**");
    e.status = "running".to_string();
    assert_eq!(format_task_result(&e), "");

    let mut q = envelope(MessageOrigin::TaskQuestion);
    q.metadata = meta(&[("task_id", "t1")]);
    q.prompt = "Why?".to_string();
    assert_eq!(format_task_question(&q), "**Task `t1` has a question:**\nWhy?");
    q.result_text = "ctx".to_string();
    assert_eq!(format_task_question(&q), "**Task `t1` has a question:**\nWhy?\n\nctx");
}

#[test]
fn other_origins_deliver_the_result() {
    let mut e = envelope(MessageOrigin::Heartbeat);
    e.result_text = "beat".to_string();
    assert_eq!(format_message(&e), "beat");
    e.origin = MessageOrigin::WebhookWake;
    assert_eq!(format_message(&e), "beat");
    e.origin = MessageOrigin::WebhookCron;
    assert_eq!(format_message(&e), "beat");
}

#[test]
fn delivery_needs_a_room() {
    let mut map = MatrixIdMap::new();
    let id = map.room_to_int("!room:server");
    let mut e = envelope(MessageOrigin::Heartbeat);
    e.chat_id = id;
    e.result_text = "beat".to_string();
    assert_eq!(delivery_plan(&map, &e), Ok(Some(("!room:server".to_string(), "beat".to_string()))));
    e.result_text = String::new();
    assert_eq!(delivery_plan(&map, &e), Ok(None));
    e.chat_id = -5;
    assert_eq!(delivery_plan(&map, &e), Err("No room found for chat_id=-5".to_string()));
}

#[test]
fn broadcasts() {
    let mut e = envelope(MessageOrigin::WebhookCron);
    e.metadata = meta(&[("hook_title", "H")]);
    e.status = "ok".to_string();
    assert_eq!(broadcast_plan(&e), Some("**WEBHOOK (CRON TASK): H**\n\n_ok_".to_string()));
    e.result_text = "body".to_string();
    assert_eq!(broadcast_plan(&e), Some("**WEBHOOK (CRON TASK): H**\n\nbody".to_string()));
    let mut h = envelope(MessageOrigin::Heartbeat);
    assert_eq!(broadcast_plan(&h), None);
    h.result_text = "x".to_string();
    assert_eq!(broadcast_plan(&h), Some("x".to_string()));
}
