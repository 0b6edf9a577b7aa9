use tuner::keyboard::ButtonAction;
use tuner::remote_dashboard::{remote_action, render_remote_dashboard, RemoteAction};
use tuner::remote_hub::{
    check_antigravity_status, check_ssh_status, check_tailscale_status, format_uptime, is_instance_process,
    query_remote_hub_status, resolve_profile_info, url_from_cache, url_from_screen, RemoteHubStatus, ServiceStatus,
};

#[test]
fn test_render_remote_dashboard_all_active() {
    let status = RemoteHubStatus {
        profile: "default".to_string(),
        remote_workspace: "/home/wimvm/.tuner/profiles/default/remote_workspace".to_string(),
        antigravity: ServiceStatus::Active,
        antigravity_url: Some("https://antigravity.google.com/r/test-uuid-v2".to_string()),
        antigravity_uptime: Some("1h 25m".to_string()),
        antigravity_pid: Some(12345),
        tailscale: ServiceStatus::Active,
        tailscale_ip: Some("100.111.32.91".to_string()),
        ssh: ServiceStatus::Active,
    };

    let (text, markup) = render_remote_dashboard(&status);
    assert!(text.contains("Google Antigravity</b> : 🟢 <b>Active</b>"));
    assert!(text.contains("https://antigravity.google.com/r/test-uuid-v2"));
    assert!(text.contains("1h 25m (PID: 12345)"));
    assert!(text.contains("Tailscale</b>          : 🟢 <b>Connected</b> (<code>100.111.32.91</code>)"));
    assert!(text.contains("SSH Service</b>        : 🟢 <b>Listening</b> (<code>Port 22</code>)"));

    // Check keyboard buttons
    let rows = markup.inline_keyboard;
    assert!(!rows.is_empty());
    // Row 1 should have Web IDE url button and Stop button
    let row1 = &rows[0];
    assert_eq!(row1.len(), 2);
    assert_eq!(row1[0].text, "🔗 Web IDE 열기");
    assert_eq!(row1[1].text, "⏹️ Antigravity 중지");

    // Row 2 should have restart button
    let row2 = &rows[1];
    assert_eq!(row2[0].text, "🔄 Antigravity 재시작");

    // Last row should have refresh
    let last_row = &rows[rows.len() - 1];
    assert_eq!(last_row[0].text, "🔄 새로고침");
}

#[test]
fn test_render_remote_dashboard_inactive_antigravity() {
    let status = RemoteHubStatus {
        profile: "default".to_string(),
        remote_workspace: "/home/wimvm/.tuner/profiles/default/remote_workspace".to_string(),
        antigravity: ServiceStatus::Inactive,
        antigravity_url: None,
        antigravity_uptime: None,
        antigravity_pid: None,
        tailscale: ServiceStatus::Inactive,
        tailscale_ip: None,
        ssh: ServiceStatus::Active,
    };

    let (text, markup) = render_remote_dashboard(&status);
    assert!(text.contains("Google Antigravity</b> : 🔴 <b>Inactive</b>"));
    assert!(text.contains("Tailscale</b>          : 🔴 <b>Inactive</b> (Disconnected)"));
    assert!(text.contains("SSH Service</b>        : 🟢 <b>Listening</b> (<code>Port 22</code>)"));

    let rows = markup.inline_keyboard;
    // Row 1 should have start button
    let row1 = &rows[0];
    assert_eq!(row1[0].text, "🚀 Antigravity 시작");

    // Row 2 should have Tailscale connect button
    let row2 = &rows[1];
    assert_eq!(row2[0].text, "🔒 Tailscale 연결");
}

#[test]
fn test_render_remote_dashboard_not_installed() {
    let status = RemoteHubStatus {
        profile: "default".to_string(),
        remote_workspace: "/home/wimvm/.tuner/profiles/default/remote_workspace".to_string(),
        antigravity: ServiceStatus::NotInstalled,
        antigravity_url: None,
        antigravity_uptime: None,
        antigravity_pid: None,
        tailscale: ServiceStatus::NotInstalled,
        tailscale_ip: None,
        ssh: ServiceStatus::NotInstalled,
    };

    let (text, markup) = render_remote_dashboard(&status);
    assert!(text.contains("Google Antigravity</b> : ⚠️ <b>Not Installed</b>"));
    assert!(text.contains("Tailscale</b>          : ⚠️ <b>Not Installed</b>"));
    assert!(text.contains("SSH Service</b>        : ⚠️ <b>Not Installed</b>"));

    let rows = markup.inline_keyboard;
    assert_eq!(rows[0][0].text, "📥 Antigravity 설치 안내");
}

#[test]
fn test_resolve_profile_info() {
    let (profile, remote_ws, screen_name, instance_name) = resolve_profile_info("/home/wimvm/.tuner/profiles/default/workspace");
    assert_eq!(profile, "default");
    assert_eq!(remote_ws, "/home/wimvm/.tuner/profiles/default/remote_workspace");
    assert_eq!(screen_name, "tuner-agy-remote-default");
    assert_eq!(instance_name, "default-remote");

    let (profile_s, remote_ws_s, screen_name_s, instance_name_s) = resolve_profile_info("/home/wimvm/.tuner/profiles/seojin/workspace");
    assert_eq!(profile_s, "seojin");
    assert_eq!(remote_ws_s, "/home/wimvm/.tuner/profiles/seojin/remote_workspace");
    assert_eq!(screen_name_s, "tuner-agy-remote-seojin");
    assert_eq!(instance_name_s, "seojin-remote");
}

#[test]
fn profile_defaults_when_parent_is_profiles_dir() {
    let (profile, _, screen, instance) = resolve_profile_info("/home/u/.tuner/profiles/workspace");
    assert_eq!(profile, "default");
    assert_eq!(screen, "tuner-agy-remote-default");
    assert_eq!(instance, "default-remote");
}

#[test]
fn dashboard_url_button_opens_link_and_refresh_is_callback() {
    let status = RemoteHubStatus {
        profile: "p".to_string(),
        remote_workspace: "/r".to_string(),
        antigravity: ServiceStatus::Active,
        antigravity_url: Some("not a url".to_string()),
        antigravity_uptime: None,
        antigravity_pid: None,
        tailscale: ServiceStatus::Active,
        tailscale_ip: None,
        ssh: ServiceStatus::Active,
    };
    let (text, markup) = render_remote_dashboard(&status);
    assert!(text.starts_with("🌐 <b>Remote Services</b>\n\n• <b>Google Antigravity</b>"));
    assert!(text.contains("Tailscale</b>          : 🟢 <b>Connected</b>\n"));
    let rows = markup.inline_keyboard;
    // An address the URL parser refuses gets no link button.
    assert_eq!(rows[0].len(), 1);
    assert_eq!(rows[0][0].action, ButtonAction::Callback("rem:agy:stop".to_string()));
    assert_eq!(rows.last().unwrap()[0].action, ButtonAction::Callback("rem:refresh".to_string()));
}

#[test]
fn remote_buttons_map_to_actions() {
    assert_eq!(remote_action("rem:agy:start"), RemoteAction::StartAntigravity);
    assert_eq!(remote_action("rem:agy:stop"), RemoteAction::StopAntigravity);
    assert_eq!(remote_action("rem:agy:restart"), RemoteAction::RestartAntigravity);
    assert_eq!(remote_action("rem:ts:start"), RemoteAction::StartTailscale);
    assert_eq!(remote_action("rem:refresh"), RemoteAction::Refresh);
}

#[test]
fn service_checks() {
    assert_eq!(check_ssh_status(true, false), ServiceStatus::Active);
    assert_eq!(check_ssh_status(false, true), ServiceStatus::Inactive);
    assert_eq!(check_ssh_status(false, false), ServiceStatus::NotInstalled);
    assert_eq!(check_tailscale_status(true, Some(" 100.1.2.3\n".to_string())), (ServiceStatus::Active, Some("100.1.2.3".to_string())));
    assert_eq!(check_tailscale_status(true, Some("10.0.0.1".to_string())), (ServiceStatus::Inactive, None));
    assert_eq!(check_tailscale_status(false, None), (ServiceStatus::NotInstalled, None));
    assert_eq!(
        check_antigravity_status(true, Some((7, "5m".to_string())), Some("https://x".to_string())),
        (ServiceStatus::Active, Some("https://x".to_string()), Some("5m".to_string()), Some(7))
    );
    assert_eq!(check_antigravity_status(true, None, None), (ServiceStatus::Inactive, None, None, None));
    let st = query_remote_hub_status(
        "/h/.tuner/profiles/bob/workspace",
        (ServiceStatus::Inactive, None, None, None),
        (ServiceStatus::Inactive, None),
        ServiceStatus::Active,
    );
    assert_eq!(st.profile, "bob");
    assert_eq!(st.remote_workspace, "/h/.tuner/profiles/bob/remote_workspace");
}

#[test]
fn uptime_and_instance_helpers() {
    assert_eq!(format_uptime(59), "0m");
    assert_eq!(format_uptime(3600 + 25 * 60), "1h 25m");
    assert_eq!(format_uptime(2 * 86400 + 3 * 3600), "51h 0m");
    assert!(is_instance_process("agy --remote-control --name bob-remote", "bob-remote"));
    assert!(!is_instance_process("SCREEN agy --remote-control bob-remote", "bob-remote"));
    assert_eq!(url_from_screen("junk https://antigravity.google.com/r/abc more"), Some("https://antigravity.google.com/r/abc".to_string()));
    assert_eq!(url_from_cache("none here"), None);
}
