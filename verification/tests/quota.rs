use tuner::quota::{parse_group_block, parse_limit, parse_quota_report, QuotaLimit};

const SAMPLE_AGY_USAGE: &str = r#"
Models & Quota

Account: user@example.com

GEMINI MODELS (Flash, Pro)
Weekly Limit Remaining: 95.0%
[██████████████████░░]
Resets in 3 days, 14 hours

Five Hour Limit Remaining: 100.0%
[████████████████████]
Resets in 4 hours, 50 minutes

OTHER MODELS (GPT)
Weekly Limit Remaining: 80.0%
[████████████████░░░░]
Resets in 5 days, 2 hours

Five Hour Limit Remaining: 75.5%
[███████████████░░░░░]
Resets in 1 hour, 10 minutes

Press Esc or q to exit
"#;

fn pct(l: &QuotaLimit) -> f64 {
    l.pct.parse::<f64>().unwrap()
}

#[test]
fn test_parse_quota_report_full() {
    let report = parse_quota_report(SAMPLE_AGY_USAGE, &vec!["GEMINI".to_string(), "OTHER".to_string()]);
    assert_eq!(report.account.as_deref(), Some("user@example.com"));

    let gemini = report.groups[0].clone().expect("Gemini models quota expected");
    let g_weekly = gemini.weekly.expect("Gemini weekly quota expected");
    assert_eq!(pct(&g_weekly), 95.0);
    assert_eq!(g_weekly.detail, "Resets in 3 days, 14 hours");

    let g_five = gemini.five_hour.expect("Gemini five hour quota expected");
    assert_eq!(pct(&g_five), 100.0);
    assert_eq!(g_five.detail, "Resets in 4 hours, 50 minutes");

    let second = report.groups[1].clone().expect("second group quota expected");
    let c_weekly = second.weekly.expect("second group weekly quota expected");
    assert_eq!(pct(&c_weekly), 80.0);
    assert_eq!(c_weekly.detail, "Resets in 5 days, 2 hours");

    let c_five = second.five_hour.expect("second group five hour quota expected");
    assert_eq!(pct(&c_five), 75.5);
    assert_eq!(c_five.detail, "Resets in 1 hour, 10 minutes");
    assert_eq!(report.raw_fallback, SAMPLE_AGY_USAGE);
}

#[test]
fn limits_need_a_number_before_the_percent_sign() {
    assert_eq!(parse_limit("Weekly Limit Remaining: 95.0%\nnext", "Monthly Limit"), None);
    assert_eq!(parse_limit("Weekly Limit Remaining: 95.0 left", "Weekly Limit"), None);
    assert_eq!(parse_limit("Weekly Limit Remaining: lots%", "Weekly Limit"), None);
    assert_eq!(parse_limit("Weekly Limit Remaining: 1.2.3%", "Weekly Limit"), None);
    assert_eq!(parse_limit("Weekly Limit Remaining: (.)%", "Weekly Limit"), None);
    assert_eq!(
        parse_limit("Weekly Limit Remaining: (42.)%\n| bar |\n  Resets soon  \n\nmore", "Weekly Limit"),
        Some(QuotaLimit { pct: "42.".to_string(), detail: "Resets soon".to_string() })
    );
    assert_eq!(
        parse_limit("Weekly Limit: 7%\nFive Hour Limit: 9%", "Weekly Limit"),
        Some(QuotaLimit { pct: "7".to_string(), detail: String::new() })
    );
}

#[test]
fn limits_read_at_most_four_hundred_bytes_without_a_blank_line() {
    let far = format!("Weekly Limit Remaining:{} 12%", " ".repeat(400));
    assert_eq!(parse_limit(&far, "Weekly Limit"), None);
    let near = format!("Weekly Limit Remaining:{} 12%", " ".repeat(300));
    assert_eq!(parse_limit(&near, "Weekly Limit").map(|l| l.pct), Some("12".to_string()));
}

#[test]
fn groups_and_accounts() {
    assert!(parse_group_block("nothing here", "GEMINI").is_none());
    assert!(parse_group_block("GEMINI MODELS\nno limits\nOTHER MODELS\nWeekly Limit: 5%\n", "GEMINI").is_none());
    let g = parse_group_block("GEMINI MODELS\n5-Hour Limit: 33%\nResets later\n", "GEMINI").unwrap();
    assert!(g.weekly.is_none());
    assert_eq!(g.five_hour.unwrap().pct, "33");
    let r = parse_quota_report("Account:: someone\nother", &vec![]);
    assert_eq!(r.account.as_deref(), Some("someone"));
    assert!(parse_quota_report("Account:   \n", &vec![]).account.is_none());
    let none = parse_quota_report("no account line", &vec!["GEMINI".to_string()]);
    assert_eq!(none.groups, vec![None]);
}
