//! The `/remote` dashboard: status text and the inline keyboard offered with it.

use vstd::prelude::*;
use crate::remote_hub::{RemoteHubStatus, ServiceStatus};
use crate::keyboard::{
    button_view, callback_button, keyboard_view, url_accepted, url_parses, ActionKind, ButtonAction,
    InlineKeyboard, KeyboardButton,
};
use crate::text::{append, append_str, chars_of, decimal, decimal_u128, join, join_chars, seqs, string_of};

verus! {

/// The status lines of the Antigravity service.
pub open spec fn antigravity_lines(st: RemoteHubStatus) -> Seq<Seq<char>> {
    match st.antigravity {
        ServiceStatus::Active => {
            let head = seq!["• <b>Google Antigravity</b> : 🟢 <b>Active</b>"@];
            let with_url = match st.antigravity_url {
                Some(u) => head.push("  └ 🔗 <b>URL</b>: <code>"@ + u@ + "</code>"@),
                None => head,
            };
            match (st.antigravity_uptime, st.antigravity_pid) {
                (Some(up), Some(pid)) => with_url.push(
                    "  └ ⏱️ <b>Uptime</b>: "@ + up@ + " (PID: "@ + decimal(pid as nat) + ")"@,
                ),
                _ => with_url,
            }
        },
        ServiceStatus::Inactive => seq!["• <b>Google Antigravity</b> : 🔴 <b>Inactive</b>"@],
        ServiceStatus::NotInstalled => seq!["• <b>Google Antigravity</b> : ⚠️ <b>Not Installed</b>"@],
    }
}

/// The status lines of Tailscale and SSH.
pub open spec fn network_lines(st: RemoteHubStatus) -> Seq<Seq<char>> {
    let ts = match st.tailscale {
        ServiceStatus::Active => match st.tailscale_ip {
            Some(ip) => "• <b>Tailscale</b>          : 🟢 <b>Connected</b> (<code>"@ + ip@ + "</code>)"@,
            None => "• <b>Tailscale</b>          : 🟢 <b>Connected</b>"@,
        },
        ServiceStatus::Inactive => "• <b>Tailscale</b>          : 🔴 <b>Inactive</b> (Disconnected)"@,
        ServiceStatus::NotInstalled => "• <b>Tailscale</b>          : ⚠️ <b>Not Installed</b>"@,
    };
    let ssh = match st.ssh {
        ServiceStatus::Active => "• <b>SSH Service</b>        : 🟢 <b>Listening</b> (<code>Port 22</code>)"@,
        ServiceStatus::Inactive => "• <b>SSH Service</b>        : 🔴 <b>Inactive</b>"@,
        ServiceStatus::NotInstalled => "• <b>SSH Service</b>        : ⚠️ <b>Not Installed</b>"@,
    };
    seq![ts, ssh]
}

/// The dashboard text.
pub open spec fn dashboard_text(st: RemoteHubStatus) -> Seq<char> {
    join(seq!["🌐 <b>Remote Services</b>\n"@] + antigravity_lines(st) + network_lines(st), "\n"@)
}

/// The first keyboard row: open, stop, start or install Antigravity.
pub open spec fn first_row(st: RemoteHubStatus) -> Seq<(Seq<char>, ActionKind, Seq<char>)> {
    match st.antigravity {
        ServiceStatus::Active => {
            let link: Seq<(Seq<char>, ActionKind, Seq<char>)> = match st.antigravity_url {
                Some(u) => if url_accepted(u@) {
                    seq![("🔗 Web IDE 열기"@, ActionKind::Link, u@)]
                } else {
                    Seq::empty()
                },
                None => Seq::empty(),
            };
            link.push(("⏹️ Antigravity 중지"@, ActionKind::Callback, "rem:agy:stop"@))
        },
        ServiceStatus::Inactive => seq![("🚀 Antigravity 시작"@, ActionKind::Callback, "rem:agy:start"@)],
        ServiceStatus::NotInstalled => seq![("📥 Antigravity 설치 안내"@, ActionKind::Callback, "rem:agy:install"@)],
    }
}

/// The second keyboard row: restart Antigravity, connect Tailscale.
pub open spec fn second_row(st: RemoteHubStatus) -> Seq<(Seq<char>, ActionKind, Seq<char>)> {
    let restart: Seq<(Seq<char>, ActionKind, Seq<char>)> = if st.antigravity == ServiceStatus::Active {
        seq![("🔄 Antigravity 재시작"@, ActionKind::Callback, "rem:agy:restart"@)]
    } else {
        Seq::empty()
    };
    if st.tailscale == ServiceStatus::Inactive {
        restart.push(("🔒 Tailscale 연결"@, ActionKind::Callback, "rem:ts:start"@))
    } else {
        restart
    }
}

/// The dashboard keyboard: the non-empty first two rows, then a refresh row.
pub open spec fn dashboard_keyboard(st: RemoteHubStatus) -> Seq<Seq<(Seq<char>, ActionKind, Seq<char>)>> {
    let row1 = first_row(st);
    let row2 = second_row(st);
    let rows1 = if row1.len() > 0 { seq![row1] } else { Seq::empty() };
    let rows2 = if row2.len() > 0 { rows1.push(row2) } else { rows1 };
    rows2.push(seq![("🔄 새로고침"@, ActionKind::Callback, "rem:refresh"@)])
}

fn line_of(s: &str) -> (r: Vec<char>)
    ensures
        r@ == s@,
{
    chars_of(s)
}

/// Renders the dashboard text and its inline keyboard.
pub fn render_remote_dashboard(status: &RemoteHubStatus) -> (r: (String, InlineKeyboard))
    ensures
        r.0@ == dashboard_text(*status),
        keyboard_view(r.1) == dashboard_keyboard(*status),
{
    let mut lines: Vec<Vec<char>> = Vec::new();
    lines.push(line_of("🌐 <b>Remote Services</b>\n"));
    let ghost head = seqs(lines@);
    match status.antigravity {
        ServiceStatus::Active => {
            lines.push(line_of("• <b>Google Antigravity</b> : 🟢 <b>Active</b>"));
            if let Some(url) = &status.antigravity_url {
                let mut l = line_of("  └ 🔗 <b>URL</b>: <code>");
                append(&mut l, &chars_of(url.as_str()));
                append_str(&mut l, "</code>");
                lines.push(l);
            }
            match (&status.antigravity_uptime, status.antigravity_pid) {
                (Some(up), Some(pid)) => {
                    let mut l = line_of("  └ ⏱️ <b>Uptime</b>: ");
                    append(&mut l, &chars_of(up.as_str()));
                    append_str(&mut l, " (PID: ");
                    append(&mut l, &decimal_u128(pid as u128));
                    append_str(&mut l, ")");
                    lines.push(l);
                },
                _ => {},
            }
        },
        ServiceStatus::Inactive => {
            lines.push(line_of("• <b>Google Antigravity</b> : 🔴 <b>Inactive</b>"));
        },
        ServiceStatus::NotInstalled => {
            lines.push(line_of("• <b>Google Antigravity</b> : ⚠️ <b>Not Installed</b>"));
        },
    }
    assert(seqs(lines@) == head + antigravity_lines(*status));
    let ghost with_agy = seqs(lines@);
    match status.tailscale {
        ServiceStatus::Active => match &status.tailscale_ip {
            Some(ip) => {
                let mut l = line_of("• <b>Tailscale</b>          : 🟢 <b>Connected</b> (<code>");
                append(&mut l, &chars_of(ip.as_str()));
                append_str(&mut l, "</code>)");
                lines.push(l);
            },
            None => {
                lines.push(line_of("• <b>Tailscale</b>          : 🟢 <b>Connected</b>"));
            },
        },
        ServiceStatus::Inactive => {
            lines.push(line_of("• <b>Tailscale</b>          : 🔴 <b>Inactive</b> (Disconnected)"));
        },
        ServiceStatus::NotInstalled => {
            lines.push(line_of("• <b>Tailscale</b>          : ⚠️ <b>Not Installed</b>"));
        },
    }
    match status.ssh {
        ServiceStatus::Active => {
            lines.push(line_of("• <b>SSH Service</b>        : 🟢 <b>Listening</b> (<code>Port 22</code>)"));
        },
        ServiceStatus::Inactive => {
            lines.push(line_of("• <b>SSH Service</b>        : 🔴 <b>Inactive</b>"));
        },
        ServiceStatus::NotInstalled => {
            lines.push(line_of("• <b>SSH Service</b>        : ⚠️ <b>Not Installed</b>"));
        },
    }
    assert(seqs(lines@) == with_agy + network_lines(*status));
    assert(head == seq!["🌐 <b>Remote Services</b>\n"@]);
    assert(seqs(lines@) == seq!["🌐 <b>Remote Services</b>\n"@] + antigravity_lines(*status) + network_lines(*status));
    let text = string_of(&join_chars(&lines, &line_of("\n")));
    (text, build_dashboard_keyboard(status))
}

/// The inline keyboard of the dashboard.
fn build_dashboard_keyboard(status: &RemoteHubStatus) -> (r: InlineKeyboard)
    ensures
        keyboard_view(r) == dashboard_keyboard(*status),
{
    let mut row1: Vec<KeyboardButton> = Vec::new();
    match status.antigravity {
        ServiceStatus::Active => {
            if let Some(url) = &status.antigravity_url {
                if url_parses(url.as_str()) {
                    row1.push(KeyboardButton { text: "🔗 Web IDE 열기".to_owned(), action: ButtonAction::Url(url.clone()) });
                }
            }
            row1.push(callback_button("⏹️ Antigravity 중지", "rem:agy:stop"));
        },
        ServiceStatus::Inactive => {
            row1.push(callback_button("🚀 Antigravity 시작", "rem:agy:start"));
        },
        ServiceStatus::NotInstalled => {
            row1.push(callback_button("📥 Antigravity 설치 안내", "rem:agy:install"));
        },
    }
    let mut row2: Vec<KeyboardButton> = Vec::new();
    if status.antigravity == ServiceStatus::Active {
        row2.push(callback_button("🔄 Antigravity 재시작", "rem:agy:restart"));
    }
    if status.tailscale == ServiceStatus::Inactive {
        row2.push(callback_button("🔒 Tailscale 연결", "rem:ts:start"));
    }
    assert(row1@.map_values(|b: KeyboardButton| button_view(b)) =~= first_row(*status));
    assert(row2@.map_values(|b: KeyboardButton| button_view(b)) =~= second_row(*status));
    let mut keyboard: Vec<Vec<KeyboardButton>> = Vec::new();
    let ghost f = |row: Vec<KeyboardButton>| row@.map_values(|b: KeyboardButton| button_view(b));
    let ghost rows1: Seq<Seq<(Seq<char>, ActionKind, Seq<char>)>> = if first_row(*status).len() > 0 {
        seq![first_row(*status)]
    } else {
        Seq::empty()
    };
    let ghost rows2 = if second_row(*status).len() > 0 {
        rows1.push(second_row(*status))
    } else {
        rows1
    };
    if row1.len() > 0 {
        keyboard.push(row1);
    }
    assert(keyboard@.map_values(f) =~= rows1);
    if row2.len() > 0 {
        keyboard.push(row2);
    }
    assert(keyboard@.map_values(f) =~= rows2);
    let mut last: Vec<KeyboardButton> = Vec::new();
    last.push(callback_button("🔄 새로고침", "rem:refresh"));
    assert(last@.map_values(|b: KeyboardButton| button_view(b)) =~= seq![("🔄 새로고침"@, ActionKind::Callback, "rem:refresh"@)]);
    keyboard.push(last);
    assert(keyboard@.map_values(f) =~= rows2.push(seq![("🔄 새로고침"@, ActionKind::Callback, "rem:refresh"@)]));
    let r = InlineKeyboard { inline_keyboard: keyboard };
    assert(keyboard_view(r) =~= keyboard@.map_values(f));
    r
}

/// What a dashboard button asks for before the dashboard is shown again.
#[derive(Clone, Copy, Debug, PartialEq, Eq)]
pub enum RemoteAction {
    StartAntigravity,
    StopAntigravity,
    /// Stop, then start again.
    RestartAntigravity,
    StartTailscale,
    /// Nothing to do but refresh the dashboard.
    Refresh,
}

/// The action of a dashboard button's callback data.
pub open spec fn remote_action_of(data: Seq<char>) -> RemoteAction {
    if data == "rem:agy:start"@ {
        RemoteAction::StartAntigravity
    } else if data == "rem:agy:stop"@ {
        RemoteAction::StopAntigravity
    } else if data == "rem:agy:restart"@ {
        RemoteAction::RestartAntigravity
    } else if data == "rem:ts:start"@ {
        RemoteAction::StartTailscale
    } else {
        RemoteAction::Refresh
    }
}

/// Reads the action of a dashboard button.
pub fn remote_action(data: &str) -> (r: RemoteAction)
    ensures
        r == remote_action_of(data@),
{
    let d = chars_of(data);
    if crate::text::eq_str(&d, "rem:agy:start") {
        RemoteAction::StartAntigravity
    } else if crate::text::eq_str(&d, "rem:agy:stop") {
        RemoteAction::StopAntigravity
    } else if crate::text::eq_str(&d, "rem:agy:restart") {
        RemoteAction::RestartAntigravity
    } else if crate::text::eq_str(&d, "rem:ts:start") {
        RemoteAction::StartTailscale
    } else {
        RemoteAction::Refresh
    }
}

} // verus!
