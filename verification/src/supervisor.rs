//! The command line and the supervision of worker processes: which mode a run starts in,
//! and what the supervisor does when workers exit.

use vstd::prelude::*;
use crate::text::{chars_of, eq_str, lowercase, starts_with, string_of, to_lowercase};

verus! {

/// The exit code by which a worker asks the whole service to restart.
pub const RESTART_EXIT_CODE: i32 = 42;

/// The placeholder token of a fresh configuration.
pub open spec fn placeholder_token() -> Seq<char> {
    "YOUR_BOT_TOKEN_HERE"@
}

/// Whether a bot token entered during setup can be used.
pub fn is_usable_token(token: &str) -> (r: bool)
    ensures
        r == (token@.len() > 0 && token@ != placeholder_token()),
{
    !token.is_empty() && !eq_str(&chars_of(token), "YOUR_BOT_TOKEN_HERE")
}

/// Whether a setup answer says yes: its lowercase form starts with `y`.
pub fn answers_yes(answer: &str) -> (r: bool)
    ensures
        r == starts_with(lowercase(answer@), "y"@),
{
    let low = to_lowercase(&chars_of(answer));
    crate::text::starts_with_str(&low, "y")
}

fn has_arg(args: &Vec<String>, flag: &str) -> (r: bool)
    ensures
        r == args@.map_values(|a: String| a@).contains(flag@),
{
    let ghost names = args@.map_values(|a: String| a@);
    let mut i: usize = 0;
    while i < args.len()
        invariant
            i <= args@.len(),
            names == args@.map_values(|a: String| a@),
            forall|j: int| 0 <= j < i ==> names[j] != flag@,
        decreases args.len() - i,
    {
        if eq_str(&chars_of(args[i].as_str()), flag) {
            assert(names[i as int] == flag@);
            return true;
        }
        i = i + 1;
    }
    false
}

/// What a run does before anything else.
#[derive(Clone, Copy, Debug, PartialEq, Eq)]
pub enum EarlyAction {
    /// `--version` or `-V`: print the version and stop.
    PrintVersion,
    /// `--upgrade`: upgrade the installed binary and stop.
    Upgrade,
    /// Go on starting.
    Continue,
}

/// The early action of a command line (the program name included).
pub open spec fn early_action_of(args: Seq<Seq<char>>) -> EarlyAction {
    if args.contains("--version"@) || args.contains("-V"@) {
        EarlyAction::PrintVersion
    } else if args.contains("--upgrade"@) {
        EarlyAction::Upgrade
    } else {
        EarlyAction::Continue
    }
}

/// Reads the early action of a command line.
pub fn early_action(args: &Vec<String>) -> (r: EarlyAction)
    ensures
        r == early_action_of(args@.map_values(|a: String| a@)),
{
    if has_arg(args, "--version") || has_arg(args, "-V") {
        EarlyAction::PrintVersion
    } else if has_arg(args, "--upgrade") {
        EarlyAction::Upgrade
    } else {
        EarlyAction::Continue
    }
}

/// The line printed for `--version`.
pub fn version_line(version: &str) -> (r: String)
    ensures
        r@ == "tuner "@ + version@,
{
    let mut v = chars_of("tuner ");
    crate::text::append_str(&mut v, version);
    string_of(&v)
}

/// Whether the command line asks for the setup wizard.
pub fn wants_setup(args: &Vec<String>) -> (r: bool)
    ensures
        r == args@.map_values(|a: String| a@).contains("--setup"@),
{
    has_arg(args, "--setup")
}

/// The profile a worker serves: the argument after the first `--worker`, if any.
pub open spec fn worker_profile_of(args: Seq<Seq<char>>) -> Option<Seq<char>> {
    if args.contains("--worker"@) {
        let pos = choose|i: int| 0 <= i < args.len() && args[i] == "--worker"@ && forall|j: int| 0 <= j < i ==> args[j] != "--worker"@;
        if pos + 1 < args.len() {
            Some(args[pos + 1])
        } else {
            None
        }
    } else {
        None
    }
}

/// Reads the worker profile of a command line.
pub fn worker_profile(args: &Vec<String>) -> (r: Option<String>)
    ensures
        r is None <==> worker_profile_of(args@.map_values(|a: String| a@)) is None,
        r matches Some(p) ==> worker_profile_of(args@.map_values(|a: String| a@)) == Some(p@),
{
    let ghost names = args@.map_values(|a: String| a@);
    let mut i: usize = 0;
    while i < args.len()
        invariant
            i <= args@.len(),
            names == args@.map_values(|a: String| a@),
            forall|j: int| 0 <= j < i ==> names[j] != "--worker"@,
        decreases args.len() - i,
    {
        if eq_str(&chars_of(args[i].as_str()), "--worker") {
            proof {
                let pos = choose|k: int| 0 <= k < names.len() && names[k] == "--worker"@ && forall|j: int| 0 <= j < k ==> names[j] != "--worker"@;
                assert(names[i as int] == "--worker"@);
                if pos < i {
                } else if pos > i {
                    assert(names[i as int] != "--worker"@);
                }
                assert(pos == i);
            }
            if i + 1 < args.len() {
                return Some(args[i + 1].clone());
            } else {
                return None;
            }
        }
        i = i + 1;
    }
    None
}

/// What the service does after loading its configuration.
#[derive(Clone, Debug, PartialEq, Eq)]
pub enum DaemonAction {
    /// `--install-systemd`: install the user service and stop.
    InstallSystemd,
    /// `--supervisor`: run under the supervisor with these arguments (the program name and
    /// every `--supervisor` left out).
    Supervise(Vec<String>),
    /// Go on: run a worker or the master.
    Continue,
}

/// Keeps every argument but `--supervisor`.
pub open spec fn not_supervisor_flag() -> spec_fn(Seq<char>) -> bool {
    |a: Seq<char>| a != "--supervisor"@
}

/// The arguments handed on to a supervised run.
pub open spec fn supervised_args_of(args: Seq<Seq<char>>) -> Seq<Seq<char>> {
    args.skip(1).filter(not_supervisor_flag())
}

/// Reads what the service does after loading its configuration.
pub fn daemon_action(args: &Vec<String>) -> (r: DaemonAction)
    ensures
        args@.map_values(|a: String| a@).contains("--install-systemd"@) ==> r is InstallSystemd,
        !args@.map_values(|a: String| a@).contains("--install-systemd"@) && args@.map_values(
            |a: String| a@,
        ).contains("--supervisor"@) ==> (r matches DaemonAction::Supervise(v) && v@.map_values(
            |a: String| a@,
        ) == supervised_args_of(args@.map_values(|a: String| a@))),
        !args@.map_values(|a: String| a@).contains("--install-systemd"@) && !args@.map_values(
            |a: String| a@,
        ).contains("--supervisor"@) ==> r is Continue,
{
    if has_arg(args, "--install-systemd") {
        return DaemonAction::InstallSystemd;
    }
    if !has_arg(args, "--supervisor") {
        return DaemonAction::Continue;
    }
    let ghost names = args@.map_values(|a: String| a@);
    let mut kept: Vec<String> = Vec::new();
    let mut i: usize = 1;
    assert(names.skip(1).take(0).filter(not_supervisor_flag()) =~= Seq::<Seq<char>>::empty()) by {
        reveal(Seq::filter);
    }
    while i < args.len()
        invariant
            1 <= i <= args@.len() || (args@.len() == 0 && i == 1),
            names == args@.map_values(|a: String| a@),
            kept@.map_values(|a: String| a@) == names.skip(1).take(i - 1).filter(not_supervisor_flag()),
        decreases args.len() - i,
    {
        let ghost pre = names.skip(1).take(i - 1);
        let ghost cur = names.skip(1).take(i as int);
        let ghost before = kept@.map_values(|a: String| a@);
        proof {
            assert(cur =~= pre.push(names[i as int]));
            assert(cur.drop_last() =~= pre);
            assert(cur.last() == names[i as int]);
            reveal(Seq::filter);
            assert(cur.filter(not_supervisor_flag()) == if not_supervisor_flag()(names[i as int]) {
                pre.filter(not_supervisor_flag()).push(names[i as int])
            } else {
                pre.filter(not_supervisor_flag())
            });
        }
        if !eq_str(&chars_of(args[i].as_str()), "--supervisor") {
            kept.push(args[i].clone());
            assert(kept@.map_values(|a: String| a@) =~= before.push(names[i as int]));
        }
        assert(kept@.map_values(|a: String| a@) =~= cur.filter(not_supervisor_flag()));
        i = i + 1;
    }
    proof {
        if args@.len() >= 1 {
            assert(names.skip(1).take(args@.len() - 1) =~= names.skip(1));
        } else {
            assert(names.skip(1) =~= Seq::<Seq<char>>::empty());
            assert(names.skip(1).take(0) =~= names.skip(1));
        }
    }
    DaemonAction::Supervise(kept)
}

/// The state of a worker process at a supervision round.
#[derive(Clone, Copy, Debug, PartialEq, Eq)]
pub enum WorkerState {
    /// Still running, or its state could not be read.
    Running,
    /// It exited, with this code when it had one.
    Exited(Option<i32>),
}

/// What the supervisor does in one round.
#[derive(Clone, Debug, PartialEq, Eq)]
pub struct SupervisionPlan {
    /// The workers to start again, in order.
    pub restart: Vec<usize>,
    /// The worker that asked for a restart of the whole service: every other worker is
    /// stopped and the supervisor exits with the restart code.
    pub restart_requested_by: Option<usize>,
}

/// Plans a supervision round: the workers are looked at in order; one that exited with the
/// restart code ends the round and restarts the service; before it, every worker that
/// exited otherwise is started again.
pub fn plan_supervision(states: &Vec<WorkerState>) -> (p: SupervisionPlan)
    ensures
        match p.restart_requested_by {
            Some(k) => {
                &&& k < states@.len()
                &&& states@[k as int] == WorkerState::Exited(Some(RESTART_EXIT_CODE))
                &&& forall|j: int| 0 <= j < k ==> states@[j] != WorkerState::Exited(Some(RESTART_EXIT_CODE))
            },
            None => forall|j: int| 0 <= j < states@.len() ==> states@[j] != WorkerState::Exited(Some(RESTART_EXIT_CODE)),
        },
        forall|j: int| 0 <= j < p.restart@.len() ==> (#[trigger] p.restart@[j]) < states@.len()
            && states@[p.restart@[j] as int] is Exited,
        forall|j: int| 0 <= j < p.restart@.len() ==> match p.restart_requested_by {
            Some(k) => #[trigger] p.restart@[j] < k,
            None => true,
        },
        forall|a: int, b: int| 0 <= a < b < p.restart@.len() ==> p.restart@[a] < p.restart@[b],
        forall|i: int| 0 <= i < states@.len() && (#[trigger] states@[i] is Exited) && (match p.restart_requested_by {
            Some(k) => i < k,
            None => true,
        }) ==> p.restart@.contains(i as usize),
{
    let mut restart: Vec<usize> = Vec::new();
    let mut i: usize = 0;
    while i < states.len()
        invariant
            i <= states@.len(),
            forall|j: int| 0 <= j < i ==> states@[j] != WorkerState::Exited(Some(RESTART_EXIT_CODE)),
            forall|j: int| 0 <= j < restart@.len() ==> (#[trigger] restart@[j]) < i && states@[restart@[j] as int] is Exited,
            forall|a: int, b: int| 0 <= a < b < restart@.len() ==> restart@[a] < restart@[b],
            forall|k: int| 0 <= k < i && (#[trigger] states@[k] is Exited) ==> restart@.contains(k as usize),
        decreases states.len() - i,
    {
        let ghost old_restart = restart@;
        match states[i] {
            WorkerState::Exited(Some(code)) => {
                if code == RESTART_EXIT_CODE {
                    return SupervisionPlan { restart, restart_requested_by: Some(i) };
                }
                restart.push(i);
            },
            WorkerState::Exited(None) => {
                restart.push(i);
            },
            WorkerState::Running => {},
        }
        assert forall|k: int| 0 <= k < i + 1 && (#[trigger] states@[k] is Exited) implies restart@.contains(k as usize) by {
            if k < i {
                let j = choose|j: int| 0 <= j < old_restart.len() && old_restart[j] == k as usize;
                assert(restart@[j] == k as usize);
            } else {
                assert(restart@[restart@.len() - 1] == i);
            }
        }
        i = i + 1;
    }
    SupervisionPlan { restart, restart_requested_by: None }
}

} // verus!
