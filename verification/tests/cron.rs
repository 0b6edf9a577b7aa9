use std::hash::{Hash, Hasher};
use tuner::cron_pages::{
    fingerprint, job_index, nav_rows, padded_hex_of, page_window, parse_cron_callback, toggle_button_data, toggle_plan,
    toggle_target, CronCallback, ToggleTarget,
};
use tuner::cron_schedule::{describe_schedule, schedule_message_key, ScheduleKind};

#[test]
fn schedule_shapes_are_recognised() {
    assert_eq!(describe_schedule("0 3 * * *"), ScheduleKind::Daily("03:00".to_string()));
    assert_eq!(describe_schedule("30 14 * * *"), ScheduleKind::Daily("14:30".to_string()));
    assert_eq!(describe_schedule("*/15 * * * *"), ScheduleKind::EveryMinutes("15".to_string()));
    assert_eq!(describe_schedule("0 */2 * * *"), ScheduleKind::EveryHours("2".to_string()));
    assert_eq!(describe_schedule("0 * * * *"), ScheduleKind::Hourly);
    assert_eq!(describe_schedule("5 9 * * 1-5"), ScheduleKind::Weekdays("09:05".to_string()));
    assert_eq!(describe_schedule("5 9 * * MON-FRI"), ScheduleKind::Weekdays("09:05".to_string()));
    assert_eq!(describe_schedule("0 10 * * sat,sun"), ScheduleKind::Weekends("10:00".to_string()));
    assert_eq!(describe_schedule("0 10 * * 6,0"), ScheduleKind::Weekends("10:00".to_string()));
}

#[test]
fn other_schedules_are_shown_escaped() {
    assert_eq!(describe_schedule("custom * *"), ScheduleKind::Raw("<code>custom * *</code>".to_string()));
    assert_eq!(describe_schedule("*/5 3 * * *"), ScheduleKind::Raw("<code>*&#x2F;5 3 * * *</code>".to_string()));
    assert_eq!(describe_schedule("0 3 1 * *"), ScheduleKind::Raw("<code>0 3 1 * *</code>".to_string()));
    assert_eq!(describe_schedule("<a> & 'b'"), ScheduleKind::Raw("<code>&lt;a&gt; &amp; &#x27;b&#x27;</code>".to_string()));
}

#[test]
fn schedule_message_keys() {
    assert_eq!(schedule_message_key(&ScheduleKind::Hourly), Some("bot.cron_schedule_hourly"));
    assert_eq!(schedule_message_key(&ScheduleKind::Daily("03:00".to_string())), Some("bot.cron_schedule_daily"));
    assert_eq!(schedule_message_key(&ScheduleKind::Raw(String::new())), None);
}

#[test]
fn cron_page_windows() {
    let w = page_window(10, 0);
    assert_eq!((w.current_page, w.total_pages, w.start, w.end), (0, 3, 0, 4));
    let last = page_window(10, 7);
    assert_eq!((last.current_page, last.total_pages, last.start, last.end), (2, 3, 8, 10));
    let one = page_window(1, 0);
    assert_eq!((one.current_page, one.total_pages, one.start, one.end), (0, 1, 0, 1));
}

#[test]
fn cron_navigation_rows() {
    let rows = nav_rows(1, 3);
    let nav: Vec<(&str, &str)> = rows[0].iter().map(|b| (b.label_key.as_str(), b.data.as_str())).collect();
    assert_eq!(nav, vec![("bot.cron_prev_page", "crn:p:1"), ("bot.cron_refresh", "crn:r:1"), ("bot.cron_next_page", "crn:n:1")]);
    let first = nav_rows(0, 1);
    assert_eq!(first[0].len(), 1);
    assert_eq!(first[1][0].data, "crn:ao:0");
    assert_eq!(first[1][1].data, "crn:af:0");
}

#[test]
fn cron_callbacks_are_parsed() {
    assert_eq!(parse_cron_callback("crn:p:0"), CronCallback::Show(0));
    assert_eq!(parse_cron_callback("crn:p:3"), CronCallback::Show(2));
    assert_eq!(parse_cron_callback("crn:n:3"), CronCallback::Show(4));
    assert_eq!(parse_cron_callback("crn:r:x"), CronCallback::Refresh(0));
    assert_eq!(parse_cron_callback("crn:ao:+2"), CronCallback::SetAll(true, 2));
    assert_eq!(parse_cron_callback("crn:af"), CronCallback::SetAll(false, 0));
    assert_eq!(
        parse_cron_callback("crn:t:1:2:00ab"),
        CronCallback::Toggle { page: 1, slot: 2, fingerprint: "00ab".to_string() }
    );
    assert_eq!(parse_cron_callback("crn:t:1:2"), CronCallback::ShowAfterToggle(1));
    assert_eq!(parse_cron_callback("crn:zz:1"), CronCallback::Ignore);
    assert_eq!(toggle_button_data(1, 2, "00ab"), "crn:t:1:2:00ab");
    assert_eq!(job_index(2, 3), Some(11));
    assert_eq!(job_index(usize::MAX, 0), None);
}

#[test]
fn cron_toggle_binds_unbound_jobs() {
    let p = toggle_plan(false, 0, Some(-100), Some(7));
    assert!(p.enable);
    assert_eq!(p.bind_to, Some((-100, Some(7))));
    let q = toggle_plan(true, 0, Some(-100), None);
    assert!(!q.enable);
    assert_eq!(q.bind_to, None);
    let r = toggle_plan(false, 55, Some(-100), None);
    assert_eq!(r.bind_to, None);
}

#[test]
fn test_parse_schedule_natural_common_patterns() {
    assert_eq!(describe_schedule("0 3 * * *"), ScheduleKind::Daily("03:00".to_string()));
    assert_eq!(describe_schedule("*/15 * * * *"), ScheduleKind::EveryMinutes("15".to_string()));
    assert_eq!(describe_schedule("0 */2 * * *"), ScheduleKind::EveryHours("2".to_string()));
    assert_eq!(describe_schedule("custom * *"), ScheduleKind::Raw("<code>custom * *</code>".to_string()));
}

#[test]
fn hex_fingerprints() {
    assert_eq!(padded_hex_of(0), "00000000");
    assert_eq!(padded_hex_of(255), "000000ff");
    assert_eq!(padded_hex_of(0x1234_5678_9abc), "123456789abc");
    assert_eq!(padded_hex_of(u64::MAX), "ffffffffffffffff");
    let mut h = std::collections::hash_map::DefaultHasher::new();
    "job-1".hash(&mut h);
    assert_eq!(fingerprint("job-1"), format!("{:08x}", h.finish()));
    assert_eq!(fingerprint("job-1"), fingerprint("job-1"));
}

#[test]
fn toggle_requests_find_their_job() {
    let ids: Vec<String> = (0..6).map(|i| format!("job-{}", i)).collect();
    let fp5 = fingerprint("job-5");
    assert_eq!(toggle_target(&ids, 1, 1, &fp5), ToggleTarget::Apply(5));
    assert_eq!(toggle_target(&ids, 1, 0, &fp5), ToggleTarget::Stale);
    assert_eq!(toggle_target(&ids, 1, 2, &fp5), ToggleTarget::Missing);
    assert_eq!(toggle_target(&ids, usize::MAX, 3, &fp5), ToggleTarget::Missing);
}
