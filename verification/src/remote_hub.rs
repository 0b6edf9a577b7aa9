//! Remote development services: profile naming, and the decisions taken on what the
//! process, network and SSH probes report.
//!
//! The probes themselves (running `which`, `pgrep`, `tailscale`, reading `/proc`, opening a
//! socket) are made by the caller; the functions here turn their answers into a status.

use vstd::prelude::*;
use crate::paths::{file_name, join_path, parent, path_file_name, path_joined, path_parent};
use crate::text::{
    append, append_str, chars_of, contains, contains_str, decimal, decimal_u64, ends_with,
    ends_with_chars, find, find_chars, is_whitespace, is_ws, slice, starts_with, starts_with_str,
    string_of, trim, trim_chars,
};

verus! {

/// State of one remote service.
#[derive(Clone, Copy, Debug, PartialEq, Eq, Structural)]
pub enum ServiceStatus {
    Active,
    Inactive,
    NotInstalled,
}

/// Everything the `/remote` dashboard shows.
#[derive(Clone, Debug, PartialEq)]
pub struct RemoteHubStatus {
    pub profile: String,
    pub remote_workspace: String,
    pub antigravity: ServiceStatus,
    pub antigravity_url: Option<String>,
    pub antigravity_uptime: Option<String>,
    pub antigravity_pid: Option<u32>,
    pub tailscale: ServiceStatus,
    pub tailscale_ip: Option<String>,
    pub ssh: ServiceStatus,
}

/// The profile a working directory belongs to: the name of its parent directory, unless
/// that is missing, empty or `profiles`.
pub open spec fn profile_of(working_dir: Seq<char>) -> Seq<char> {
    match path_parent(working_dir) {
        Some(par) => match path_file_name(par) {
            Some(n) => if n != "profiles"@ && n.len() > 0 {
                n
            } else {
                "default"@
            },
            None => "default"@,
        },
        None => "default"@,
    }
}

/// The remote workspace directory beside a working directory.
pub open spec fn remote_workspace_of(working_dir: Seq<char>) -> Seq<char> {
    match path_parent(working_dir) {
        Some(par) => path_joined(par, "remote_workspace"@),
        None => path_joined(working_dir, "remote_workspace"@),
    }
}

/// Resolves the profile name, remote workspace, screen session name and remote-control
/// instance name for a working directory.
pub fn resolve_profile_info(working_dir: &str) -> (r: (String, String, String, String))
    ensures
        r.0@ == profile_of(working_dir@),
        r.1@ == remote_workspace_of(working_dir@),
        r.2@ == "tuner-agy-remote-"@ + profile_of(working_dir@),
        r.3@ == profile_of(working_dir@) + "-remote"@,
{
    let par = parent(working_dir);
    let profile: String = match &par {
        Some(p) => match file_name(p.as_str()) {
            Some(n) => {
                let nv = chars_of(n.as_str());
                if !crate::text::eq_str(&nv, "profiles") && nv.len() > 0 {
                    n
                } else {
                    "default".to_owned()
                }
            },
            None => "default".to_owned(),
        },
        None => "default".to_owned(),
    };
    let remote_ws = match &par {
        Some(p) => join_path(p.as_str(), "remote_workspace"),
        None => join_path(working_dir, "remote_workspace"),
    };
    let pv = chars_of(profile.as_str());
    let mut screen: Vec<char> = Vec::new();
    append_str(&mut screen, "tuner-agy-remote-");
    append(&mut screen, &pv);
    let mut instance: Vec<char> = pv.clone();
    append_str(&mut instance, "-remote");
    (profile, remote_ws, string_of(&screen), string_of(&instance))
}

/// Whether a process command line is the remote-control instance of the given name.
pub open spec fn is_instance_cmdline(cmdline: Seq<char>, instance: Seq<char>) -> bool {
    &&& contains(cmdline, "--remote-control"@)
    &&& !contains(cmdline, "SCREEN"@)
    &&& (contains(cmdline, instance) || (starts_with(instance, "default"@) && (contains(
        cmdline,
        "wimvm-dev"@,
    ) || !contains(cmdline, "-remote"@))))
}

/// Decides whether a process command line belongs to the remote-control instance.
pub fn is_instance_process(cmdline: &str, instance_name: &str) -> (r: bool)
    ensures
        r == is_instance_cmdline(cmdline@, instance_name@),
{
    let s = chars_of(cmdline);
    let inst = chars_of(instance_name);
    contains_str(&s, "--remote-control") && !contains_str(&s, "SCREEN") && (
    crate::text::contains_chars(&s, &inst) || (starts_with_str(&inst, "default") && (contains_str(
        &s,
        "wimvm-dev",
    ) || !contains_str(&s, "-remote"))))
}

/// Uptime text for a process that has run `secs` seconds.
pub open spec fn uptime_text(secs: nat) -> Seq<char> {
    let m = secs / 60;
    if m >= 60 {
        decimal(m / 60) + "h "@ + decimal(m % 60) + "m"@
    } else {
        decimal(m) + "m"@
    }
}

/// Formats an uptime as `{h}h {m}m`, or `{m}m` below one hour.
pub fn format_uptime(secs: u64) -> (r: String)
    ensures
        r@ == uptime_text(secs as nat),
{
    let m = secs / 60;
    let mut out: Vec<char> = Vec::new();
    if m >= 60 {
        append(&mut out, &decimal_u64(m / 60));
        append_str(&mut out, "h ");
        append(&mut out, &decimal_u64(m % 60));
        append_str(&mut out, "m");
    } else {
        append(&mut out, &decimal_u64(m));
        append_str(&mut out, "m");
    }
    string_of(&out)
}

/// `u` with a trailing `-v1` replaced by `-v2`.
pub open spec fn upgraded_url(u: Seq<char>) -> Seq<char> {
    if ends_with(u, "-v1"@) {
        u.take(u.len() - 3) + "-v2"@
    } else {
        u
    }
}

/// Replaces a trailing `-v1` of a URL by `-v2`.
fn upgrade_url(u: &Vec<char>) -> (r: Vec<char>)
    ensures
        r@ == upgraded_url(u@),
{
    if ends_with_chars(u, &chars_of("-v1")) {
        proof {
            reveal_strlit("-v1");
        }
        let mut r = slice(u, 0, u.len() - 3);
        append_str(&mut r, "-v2");
        assert(u@.take(u@.len() - 3) == u@.subrange(0, u@.len() - 3));
        r
    } else {
        u.clone()
    }
}

/// The remote-control URL recorded in a cache file's contents, if it holds one.
pub open spec fn cached_url(contents: Seq<char>) -> Option<Seq<char>> {
    let t = trim(contents);
    if starts_with(t, "https://antigravity.google.com/r/"@) {
        Some(upgraded_url(t))
    } else {
        None
    }
}

/// Reads the remote-control URL from a cache file's contents.
pub fn url_from_cache(contents: &str) -> (r: Option<String>)
    ensures
        r is None <==> cached_url(contents@) is None,
        r matches Some(u) ==> cached_url(contents@) == Some(u@),
{
    let t = trim_chars(&chars_of(contents));
    if starts_with_str(&t, "https://antigravity.google.com/r/") {
        Some(string_of(&upgrade_url(&t)))
    } else {
        None
    }
}

/// Length of the leading run of `s` free of whitespace and NUL.
pub open spec fn token_len(s: Seq<char>) -> nat
    decreases s.len(),
{
    if s.len() == 0 || is_ws(s[0]) || s[0] == '\0' {
        0
    } else {
        1 + token_len(s.drop_first())
    }
}

/// The remote-control URL shown on a screen dump, if one appears.
pub open spec fn screen_url(text: Seq<char>) -> Option<Seq<char>> {
    match find(text, "https://antigravity.google.com/r/"@) {
        Some(pos) => {
            let raw = text.skip(pos).take(token_len(text.skip(pos)) as int);
            if raw.len() > 0 {
                Some(upgraded_url(raw))
            } else {
                None
            }
        },
        None => None,
    }
}

/// Finds the remote-control URL in a screen dump: it runs from the URL prefix to the next
/// whitespace or NUL.
pub fn url_from_screen(text: &str) -> (r: Option<String>)
    ensures
        r is None <==> screen_url(text@) is None,
        r matches Some(u) ==> screen_url(text@) == Some(u@),
{
    let s = chars_of(text);
    let prefix = chars_of("https://antigravity.google.com/r/");
    match find_chars(&s, &prefix) {
        Some(pos) => {
            proof {
                assert(pos + prefix@.len() <= s@.len()) by {
                    crate::remote_hub::lemma_find_in_bounds(s@, prefix@, 0);
                }
            }
            let mut end = pos;
            assert(s@.skip(pos as int).skip(0) == s@.skip(pos as int));
            while end < s.len() && !is_whitespace(s[end]) && s[end] != '\0'
                invariant
                    pos <= end <= s@.len(),
                    token_len(s@.skip(pos as int)) == (end - pos) + token_len(s@.skip(end as int)),
                decreases s.len() - end,
            {
                assert(s@.skip(end as int).drop_first() == s@.skip(end + 1));
                end = end + 1;
            }
            assert(s@.skip(pos as int).take((end - pos) as int) == s@.subrange(pos as int, end as int));
            let raw = slice(&s, pos, end);
            if raw.len() > 0 {
                Some(string_of(&upgrade_url(&raw)))
            } else {
                None
            }
        },
        None => None,
    }
}

/// A match found from position `k` lies inside the text.
pub proof fn lemma_find_in_bounds(s: Seq<char>, p: Seq<char>, k: int)
    ensures
        crate::text::find_from(s, p, k) matches Some(i) ==> k <= i && i + p.len() <= s.len(),
    decreases s.len() + 1 - k,
{
    if !(k < 0 || k + p.len() > s.len()) && !crate::text::match_at(s, p, k) {
        lemma_find_in_bounds(s, p, k + 1);
    }
}

/// The Antigravity service status, URL, uptime and process id, given whether the `agy`
/// binary is installed, the matching process (id and uptime) if one runs, and the URL
/// found for it (looked up only when a process runs).
pub fn check_antigravity_status(
    installed: bool,
    process: Option<(u32, String)>,
    url: Option<String>,
) -> (r: (ServiceStatus, Option<String>, Option<String>, Option<u32>))
    ensures
        !installed ==> r == (ServiceStatus::NotInstalled, None::<String>, None::<String>, None::<u32>),
        installed && process is None ==> r == (ServiceStatus::Inactive, None::<String>, None::<String>, None::<u32>),
        installed ==> (process matches Some(p) ==> r == (ServiceStatus::Active, url, Some(p.1), Some(p.0))),
{
    if !installed {
        return (ServiceStatus::NotInstalled, None, None, None);
    }
    match process {
        Some((pid, uptime)) => (ServiceStatus::Active, url, Some(uptime), Some(pid)),
        None => (ServiceStatus::Inactive, None, None, None),
    }
}

/// The Tailscale status and address, given whether `tailscale` is installed and the output
/// of `tailscale ip -4` when it ran successfully.
pub fn check_tailscale_status(installed: bool, ip_output: Option<String>) -> (r: (ServiceStatus, Option<String>))
    ensures
        !installed ==> r == (ServiceStatus::NotInstalled, None::<String>),
        installed ==> match ip_output {
            Some(out) => if trim(out@).len() > 0 && starts_with(trim(out@), "100."@) {
                r.0 == ServiceStatus::Active && (r.1 matches Some(ip) && ip@ == trim(out@))
            } else {
                r == (ServiceStatus::Inactive, None::<String>)
            },
            None => r == (ServiceStatus::Inactive, None::<String>),
        },
{
    if !installed {
        return (ServiceStatus::NotInstalled, None);
    }
    match ip_output {
        Some(out) => {
            let ip = trim_chars(&chars_of(out.as_str()));
            if ip.len() > 0 && starts_with_str(&ip, "100.") {
                (ServiceStatus::Active, Some(string_of(&ip)))
            } else {
                (ServiceStatus::Inactive, None)
            }
        },
        None => (ServiceStatus::Inactive, None),
    }
}

/// The SSH status, given whether port 22 accepts connections and whether `sshd` or `ssh`
/// is installed.
pub fn check_ssh_status(port_open: bool, installed: bool) -> (r: ServiceStatus)
    ensures
        r == if port_open {
            ServiceStatus::Active
        } else if installed {
            ServiceStatus::Inactive
        } else {
            ServiceStatus::NotInstalled
        },
{
    if port_open {
        ServiceStatus::Active
    } else if installed {
        ServiceStatus::Inactive
    } else {
        ServiceStatus::NotInstalled
    }
}

/// Assembles the dashboard status of a working directory from the service checks.
pub fn query_remote_hub_status(
    working_dir: &str,
    antigravity: (ServiceStatus, Option<String>, Option<String>, Option<u32>),
    tailscale: (ServiceStatus, Option<String>),
    ssh: ServiceStatus,
) -> (r: RemoteHubStatus)
    ensures
        r.profile@ == profile_of(working_dir@),
        r.remote_workspace@ == remote_workspace_of(working_dir@),
        r.antigravity == antigravity.0,
        r.antigravity_url == antigravity.1,
        r.antigravity_uptime == antigravity.2,
        r.antigravity_pid == antigravity.3,
        r.tailscale == tailscale.0,
        r.tailscale_ip == tailscale.1,
        r.ssh == ssh,
{
    let (profile, remote_ws, _screen, _instance) = resolve_profile_info(working_dir);
    RemoteHubStatus {
        profile,
        remote_workspace: remote_ws,
        antigravity: antigravity.0,
        antigravity_url: antigravity.1,
        antigravity_uptime: antigravity.2,
        antigravity_pid: antigravity.3,
        tailscale: tailscale.0,
        tailscale_ip: tailscale.1,
        ssh,
    }
}

} // verus!
