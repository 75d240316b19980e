//! Removing workspaces, as a machine: resolve each argument (or, with none,
//! the current workspace) to a target, then forget/remove each target and
//! delete its folder, refusing jj's `default` workspace and names that are
//! neither known nor on disk.
use vstd::prelude::*;
use crate::backend::{capture, captured, command_view, config_str, container_suffix, git_config_query, git_config_str, Backend, Command, RunResult};
use crate::create::{event_v, exit_v, git_get_v, prog, EventV};
use crate::layout::{current_name, current_workspace_name, in_container, jj_current_workspace_query, layout_of, resolve_layout};
use crate::paths::{concat, joined_path, path_join, path_starts_with, std_starts_with, str_eq};
use crate::steps::{concat3, opt_v, Event, Exit, Step, StepV};
use crate::text::views;
use crate::workspaces::{
    arg_path, contains_name, known_names, known_query_view, known_workspaces, known_workspaces_query,
    resolve_rm_target, rm_paths, rm_target, RmProbe,
};

verus! {

/// What `wts rm` was asked to remove, and where the process stands.
#[derive(Debug)]
pub struct RmRequest {
    pub backend: Backend,
    /// The repo root the backend reported.
    pub root: String,
    /// The workspace names or paths given (none: the current workspace).
    pub names: Vec<String>,
    /// The current directory, if known.
    pub cwd: Option<String>,
}

/// Where a remove run stands.
#[derive(Clone, Copy, PartialEq, Eq, Structural, Debug)]
pub enum RmPhase {
    /// Waiting for `wts.containerSuffix` (git).
    Suffix,
    /// Waiting for the backend's list of workspaces.
    Known,
    /// Waiting for jj's name of the current workspace.
    CurrentJj,
    /// Waiting for the "removing current workspace" line to be printed.
    CurrentAnnounced,
    /// Waiting to hear whether the argument names a folder in the container.
    ArgExists,
    /// Waiting for the argument's path and the container, canonicalized.
    ArgCanon,
    /// Waiting for the "no such workspace" line to be printed.
    ArgMissing,
    /// Waiting to hear whether the target's folder exists.
    TargetExists,
    /// Waiting for `jj workspace forget`.
    Forget,
    /// Waiting for the jj workspace's folder to be deleted.
    JjRemove,
    /// Waiting for `git worktree remove --force`.
    GitRemove,
    /// Waiting for `git worktree prune`.
    GitPrune,
    /// Waiting to hear whether git left the folder behind.
    GitLeftover,
    /// Waiting for the left-behind folder to be deleted.
    GitRemoveDir,
    /// Waiting for `wts.branchPrefix`.
    GitBranchPrefix,
    /// Waiting for `git branch -D`.
    GitBranchDelete,
    /// Waiting for a line about the current target to be printed.
    Said,
    /// Waiting for the cd back to the main repo to be recorded.
    CdBack,
    /// Done.
    Finished,
}

/// A remove run: the request, the phase, and what has been found so far.
#[derive(Debug)]
pub struct Rm {
    pub request: RmRequest,
    pub phase: RmPhase,
    pub suffix: String,
    pub container: String,
    pub main_repo: String,
    pub known: Vec<String>,
    pub targets: Vec<(String, String)>,
    pub arg: usize,
    pub name_dir_exists: bool,
    pub target: usize,
    pub failed: bool,
    pub cwd_removed: bool,
    pub in_vcs: bool,
    pub on_disk: bool,
    pub removing_cwd: bool,
}

/// A remove run, as text.
pub struct RmV {
    pub backend: Backend,
    pub root: Seq<char>,
    pub names: Seq<Seq<char>>,
    pub cwd: Option<Seq<char>>,
    pub phase: RmPhase,
    pub suffix: Seq<char>,
    pub container: Seq<char>,
    pub main_repo: Seq<char>,
    pub known: Seq<Seq<char>>,
    pub targets: Seq<(Seq<char>, Seq<char>)>,
    pub arg: int,
    pub name_dir_exists: bool,
    pub target: int,
    pub failed: bool,
    pub cwd_removed: bool,
    pub in_vcs: bool,
    pub on_disk: bool,
    pub removing_cwd: bool,
}

/// A list of targets, as text.
pub open spec fn targets_v(t: Seq<(String, String)>) -> Seq<(Seq<char>, Seq<char>)> {
    t.map_values(|p: (String, String)| (p.0@, p.1@))
}

impl View for Rm {
    type V = RmV;

    open spec fn view(&self) -> RmV {
        RmV {
            backend: self.request.backend,
            root: self.request.root@,
            names: views(self.request.names@),
            cwd: opt_v(self.request.cwd),
            phase: self.phase,
            suffix: self.suffix@,
            container: self.container@,
            main_repo: self.main_repo@,
            known: views(self.known@),
            targets: targets_v(self.targets@),
            arg: self.arg as int,
            name_dir_exists: self.name_dir_exists,
            target: self.target as int,
            failed: self.failed,
            cwd_removed: self.cwd_removed,
            in_vcs: self.in_vcs,
            on_disk: self.on_disk,
            removing_cwd: self.removing_cwd,
        }
    }
}

// ---------------------------------------------------------------------------
// The transitions, as text
// ---------------------------------------------------------------------------

/// The run stopped with an error message.
pub open spec fn rm_fail_v(s: RmV, m: Seq<char>) -> (RmV, StepV) {
    (RmV { phase: RmPhase::Finished, ..s }, StepV::Fail(m))
}

/// The exit code: 1 if anything failed.
pub open spec fn exit_code(s: RmV) -> int {
    if s.failed {
        1
    } else {
        0
    }
}

/// The first step: read the container suffix (git), or go on with `-wts` (jj).
pub open spec fn rm_start_v(s: RmV) -> (RmV, StepV) {
    match s.backend {
        Backend::Git => (
            RmV { phase: RmPhase::Suffix, ..s },
            StepV::Capture(git_get_v("wts.containerSuffix"@)),
        ),
        Backend::Jj => rm_after_suffix_v(s, "-wts"@),
    }
}

/// With the suffix known: resolve the layout, then list the known workspaces.
pub open spec fn rm_after_suffix_v(s: RmV, suffix: Seq<char>) -> (RmV, StepV) {
    match layout_of(s.root, suffix) {
        Err(m) => rm_fail_v(RmV { suffix: suffix, ..s }, m),
        Ok((c, m)) => (
            RmV { phase: RmPhase::Known, suffix: suffix, container: c, main_repo: m, ..s },
            StepV::Capture(known_query_view(s.backend, m)),
        ),
    }
}

/// With the known workspaces listed: the current workspace when no names
/// were given, else each argument in turn.
pub open spec fn on_known_v(s: RmV, run: RunResult) -> (RmV, StepV) {
    let t = RmV { known: known_names(s.backend, captured(prog(s.backend), run)), ..s };
    if t.names.len() == 0 {
        current_v(t)
    } else {
        to_arg_v(RmV { arg: 0, ..t })
    }
}

/// The error for a no-name `rm` outside a wts workspace.
pub open spec fn not_in_workspace_text() -> Seq<char> {
    "no workspace name given and not inside a wts workspace"@
}

/// No names given: only valid inside a `<repo><suffix>/<name>` workspace.
pub open spec fn current_v(s: RmV) -> (RmV, StepV) {
    if !in_container(s.root, s.suffix) {
        rm_fail_v(s, not_in_workspace_text())
    } else {
        match s.backend {
            Backend::Git => announce_current_v(
                s,
                current_name(Backend::Git, s.root, s.suffix, Err(Seq::empty())),
            ),
            Backend::Jj => (
                RmV { phase: RmPhase::CurrentJj, ..s },
                StepV::Capture(
                    (
                        "jj"@,
                        seq![
                            "workspace"@,
                            "list"@,
                            "--ignore-working-copy"@,
                            "-T"@,
                            "if(target.current_working_copy(), name ++ \"\\n\", \"\")"@,
                        ],
                    ),
                ),
            ),
        }
    }
}

/// The current workspace becomes the only target: its name, and the root.
pub open spec fn announce_current_v(s: RmV, n: Option<Seq<char>>) -> (RmV, StepV) {
    match n {
        None => rm_fail_v(s, not_in_workspace_text()),
        Some(n) => (
            RmV { phase: RmPhase::CurrentAnnounced, targets: seq![(n, s.root)], ..s },
            StepV::Say("wts: removing current workspace '"@ + n + "'"@),
        ),
    }
}

/// Look at the next argument; after the last, on to the targets.
pub open spec fn to_arg_v(s: RmV) -> (RmV, StepV) {
    if 0 <= s.arg < s.names.len() {
        (
            RmV { phase: RmPhase::ArgExists, ..s },
            StepV::ProbeExists(joined_path(s.container, s.names[s.arg])),
        )
    } else {
        to_target_v(RmV { target: 0, ..s })
    }
}

/// With the argument's folder probed: canonicalize its path and the container.
pub open spec fn on_arg_exists_v(s: RmV, b: bool) -> (RmV, StepV) {
    (
        RmV { phase: RmPhase::ArgCanon, name_dir_exists: b, ..s },
        StepV::Canonicalize(arg_path(s.cwd, s.names[s.arg]), s.container),
    )
}

/// With the canonical paths: resolve the argument, or note that it names nothing.
pub open spec fn on_arg_canon_v(s: RmV, a: Option<Seq<char>>, b: Option<Seq<char>>) -> (
    RmV,
    StepV,
) {
    match rm_target(
        s.container,
        s.known,
        s.names[s.arg],
        arg_path(s.cwd, s.names[s.arg]),
        s.name_dir_exists,
        a,
        b,
    ) {
        Some(t) => to_arg_v(RmV { targets: s.targets.push(t), arg: s.arg + 1, ..s }),
        None => (
            RmV { phase: RmPhase::ArgMissing, failed: true, ..s },
            StepV::Say("wts: no such workspace: '"@ + s.names[s.arg] + "'"@),
        ),
    }
}

/// Take the next target; after the last, cd back if needed and finish.
pub open spec fn to_target_v(s: RmV) -> (RmV, StepV) {
    if 0 <= s.target < s.targets.len() {
        let n = s.targets[s.target].0;
        let d = s.targets[s.target].1;
        if n == "default"@ {
            (
                RmV { phase: RmPhase::Said, failed: true, ..s },
                StepV::Say("wts: refusing to remove the 'default' (main) workspace"@),
            )
        } else {
            (
                RmV { phase: RmPhase::TargetExists, in_vcs: s.known.contains(n), ..s },
                StepV::ProbeExists(d),
            )
        }
    } else if s.cwd_removed {
        (RmV { phase: RmPhase::CdBack, ..s }, StepV::Cd(s.main_repo))
    } else {
        (RmV { phase: RmPhase::Finished, ..s }, StepV::Finish(exit_code(s)))
    }
}

/// The name of the current target.
pub open spec fn cur_name(s: RmV) -> Seq<char> {
    s.targets[s.target].0
}

/// The folder of the current target.
pub open spec fn cur_dir(s: RmV) -> Seq<char> {
    s.targets[s.target].1
}

/// A line about the current target, then on to the next.
pub open spec fn said_v(s: RmV, line: Seq<char>) -> (RmV, StepV) {
    (RmV { phase: RmPhase::Said, ..s }, StepV::Say(line))
}

/// With the target's folder probed: a name neither known nor on disk is an
/// error; otherwise remove it the backend's way.
pub open spec fn on_target_exists_v(s: RmV, on_disk: bool) -> (RmV, StepV) {
    let t = RmV { on_disk: on_disk, ..s };
    if !t.in_vcs && !on_disk {
        said_v(RmV { failed: true, ..t }, "wts: no such workspace: '"@ + cur_name(t) + "'"@)
    } else {
        let u = RmV {
            removing_cwd: match t.cwd {
                Some(c) => std_starts_with(c, cur_dir(t)),
                None => false,
            },
            ..t
        };
        match u.backend {
            Backend::Jj => if u.in_vcs {
                (
                    RmV { phase: RmPhase::Forget, ..u },
                    StepV::Run(
                        ("jj"@, seq!["-R"@, u.main_repo, "workspace"@, "forget"@, cur_name(u)]),
                    ),
                )
            } else {
                jj_after_forget_v(u)
            },
            Backend::Git => (
                RmV { phase: RmPhase::GitRemove, ..u },
                StepV::RunQuiet(
                    (
                        "git"@,
                        seq![
                            "-C"@,
                            u.main_repo,
                            "worktree"@,
                            "remove"@,
                            "--force"@,
                            cur_dir(u),
                        ],
                    ),
                ),
            ),
        }
    }
}

/// jj: once forgotten (or never registered), delete the folder if there is one.
pub open spec fn jj_after_forget_v(s: RmV) -> (RmV, StepV) {
    if s.on_disk {
        (RmV { phase: RmPhase::JjRemove, ..s }, StepV::RemoveTree(cur_dir(s)))
    } else {
        said_v(s, "wts: forgot '"@ + cur_name(s) + "' (no folder at "@ + cur_dir(s) + ")"@)
    }
}

/// The "removed workspace" line.
pub open spec fn removed_text(s: RmV) -> Seq<char> {
    "wts: removed workspace '"@ + cur_name(s) + "' ("@ + cur_dir(s) + ")"@
}

/// git: with the worktree gone, note a removed cwd and read the branch prefix.
pub open spec fn git_after_remove_v(s: RmV) -> (RmV, StepV) {
    (
        RmV {
            phase: RmPhase::GitBranchPrefix,
            cwd_removed: s.cwd_removed || s.removing_cwd,
            ..s
        },
        StepV::Capture(git_get_v("wts.branchPrefix"@)),
    )
}

/// Whether the argument index points at an argument.
pub open spec fn arg_ok(s: RmV) -> bool {
    0 <= s.arg < s.names.len()
}

/// Whether the target index points at a target.
pub open spec fn target_ok(s: RmV) -> bool {
    0 <= s.target < s.targets.len()
}

/// The run ends with exit code 1 if anything failed, else 0.
pub open spec fn finish_v(s: RmV) -> (RmV, StepV) {
    (RmV { phase: RmPhase::Finished, ..s }, StepV::Finish(exit_code(s)))
}

/// jj: after `jj workspace forget`, delete the folder, or report the failure.
pub open spec fn on_forget_v(s: RmV, r: Result<(bool, Option<int>), Seq<char>>) -> (RmV, StepV) {
    match r {
        Ok((ok, _)) => if ok {
            jj_after_forget_v(s)
        } else {
            said_v(
                RmV { failed: true, ..s },
                "wts: 'jj workspace forget "@ + cur_name(s) + "' failed; leaving folder in place"@,
            )
        },
        Err(m) => said_v(RmV { failed: true, ..s }, "wts: failed to run jj: "@ + m),
    }
}

/// jj: after the folder was deleted (or could not be).
pub open spec fn on_jj_removed_v(s: RmV, r: Result<(), Seq<char>>) -> (RmV, StepV) {
    match r {
        Ok(_) => said_v(RmV { cwd_removed: s.cwd_removed || s.removing_cwd, ..s }, removed_text(s)),
        Err(m) => said_v(
            RmV { failed: true, ..s },
            "wts: forgot '"@ + cur_name(s) + "' but could not delete "@ + cur_dir(s) + ": "@ + m,
        ),
    }
}

/// git: after `git worktree remove --force`; on failure, prune.
pub open spec fn on_git_removed_v(s: RmV, r: Result<(bool, Option<int>), Seq<char>>) -> (RmV, StepV) {
    if r matches Ok((true, _)) {
        git_after_remove_v(s)
    } else {
        (
            RmV { phase: RmPhase::GitPrune, ..s },
            StepV::RunQuiet(("git"@, seq!["-C"@, s.main_repo, "worktree"@, "prune"@])),
        )
    }
}

/// git: after the prune, look for a folder git left behind.
pub open spec fn on_git_pruned_v(s: RmV) -> (RmV, StepV) {
    (RmV { phase: RmPhase::GitLeftover, ..s }, StepV::ProbeExists(cur_dir(s)))
}

/// git: delete a left-behind folder, if there is one.
pub open spec fn on_git_leftover_v(s: RmV, b: bool) -> (RmV, StepV) {
    if b {
        (RmV { phase: RmPhase::GitRemoveDir, ..s }, StepV::RemoveTree(cur_dir(s)))
    } else {
        git_after_remove_v(s)
    }
}

/// git: after the left-behind folder was deleted (or could not be).
pub open spec fn on_git_dir_removed_v(s: RmV, r: Result<(), Seq<char>>) -> (RmV, StepV) {
    match r {
        Ok(_) => git_after_remove_v(s),
        Err(m) => said_v(RmV { failed: true, ..s }, "wts: could not delete "@ + cur_dir(s) + ": "@ + m),
    }
}

/// `git branch -D <prefix><name>`, as text.
pub open spec fn branch_delete_v(main_repo: Seq<char>, branch: Seq<char>) -> (Seq<char>, Seq<Seq<char>>) {
    ("git"@, seq!["-C"@, main_repo, "branch"@, "-D"@, branch])
}

/// git: with the branch prefix read, delete the branch wts created.
pub open spec fn on_rm_branch_prefix_v(s: RmV, run: RunResult) -> (RmV, StepV) {
    (
        RmV { phase: RmPhase::GitBranchDelete, ..s },
        StepV::RunQuiet(
            branch_delete_v(s.main_repo, config_str(captured("git"@, run), Seq::empty()) + cur_name(s)),
        ),
    )
}

/// The next state and step of a remove run, given what the last step brought.
pub open spec fn rm_next_v(s: RmV, e: EventV) -> (RmV, StepV) {
    let bad = rm_fail_v(s, crate::steps::unexpected_text());
    match (s.phase, e) {
        (RmPhase::Suffix, EventV::Ran(run)) => rm_after_suffix_v(
            s,
            config_str(captured("git"@, run), "-wts"@),
        ),
        (RmPhase::Known, EventV::Ran(run)) => on_known_v(s, run),
        (RmPhase::CurrentJj, EventV::Ran(run)) => announce_current_v(
            s,
            current_name(Backend::Jj, s.root, s.suffix, captured("jj"@, run)),
        ),
        (RmPhase::CurrentAnnounced, EventV::Ack) => to_target_v(RmV { target: 0, ..s }),
        (RmPhase::ArgExists, EventV::Flag(b)) => if arg_ok(s) {
            on_arg_exists_v(s, b)
        } else {
            bad
        },
        (RmPhase::ArgCanon, EventV::Canonical(a, b)) => if arg_ok(s) {
            on_arg_canon_v(s, a, b)
        } else {
            bad
        },
        (RmPhase::ArgMissing, EventV::Ack) => if arg_ok(s) {
            to_arg_v(RmV { arg: s.arg + 1, ..s })
        } else {
            bad
        },
        (RmPhase::TargetExists, EventV::Flag(b)) => if target_ok(s) {
            on_target_exists_v(s, b)
        } else {
            bad
        },
        (RmPhase::Forget, EventV::Exited(r)) => if target_ok(s) {
            on_forget_v(s, r)
        } else {
            bad
        },
        (RmPhase::JjRemove, EventV::Done(r)) => if target_ok(s) {
            on_jj_removed_v(s, r)
        } else {
            bad
        },
        (RmPhase::GitRemove, EventV::Exited(r)) => if target_ok(s) {
            on_git_removed_v(s, r)
        } else {
            bad
        },
        (RmPhase::GitPrune, EventV::Exited(_)) => if target_ok(s) {
            on_git_pruned_v(s)
        } else {
            bad
        },
        (RmPhase::GitLeftover, EventV::Flag(b)) => if target_ok(s) {
            on_git_leftover_v(s, b)
        } else {
            bad
        },
        (RmPhase::GitRemoveDir, EventV::Done(r)) => if target_ok(s) {
            on_git_dir_removed_v(s, r)
        } else {
            bad
        },
        (RmPhase::GitBranchPrefix, EventV::Ran(run)) => if target_ok(s) {
            on_rm_branch_prefix_v(s, run)
        } else {
            bad
        },
        (RmPhase::GitBranchDelete, EventV::Exited(_)) => if target_ok(s) {
            said_v(s, removed_text(s))
        } else {
            bad
        },
        (RmPhase::Said, EventV::Ack) => if target_ok(s) {
            to_target_v(RmV { target: s.target + 1, ..s })
        } else {
            bad
        },
        (RmPhase::CdBack, EventV::Ack) => finish_v(s),
        _ => bad,
    }
}

// ---------------------------------------------------------------------------
// The machine
// ---------------------------------------------------------------------------

/// A fresh remove run for `request`, before its first step.
pub open spec fn rm_fresh_v(request: RmRequest) -> RmV {
    RmV {
        backend: request.backend,
        root: request.root@,
        names: views(request.names@),
        cwd: opt_v(request.cwd),
        phase: RmPhase::Suffix,
        suffix: Seq::empty(),
        container: Seq::empty(),
        main_repo: Seq::empty(),
        known: Seq::empty(),
        targets: Seq::empty(),
        arg: 0,
        name_dir_exists: false,
        target: 0,
        failed: false,
        cwd_removed: false,
        in_vcs: false,
        on_disk: false,
        removing_cwd: false,
    }
}

fn rm_fail(st: Rm, m: String) -> (r: (Rm, Step))
    ensures
        (r.0@, r.1@) == rm_fail_v(st@, m@),
{
    let mut s = st;
    s.phase = RmPhase::Finished;
    (s, Step::Fail(m))
}

fn unexpected_message() -> (m: String)
    ensures
        m@ == crate::steps::unexpected_text(),
{
    "internal error: unexpected answer from the outside".to_owned()
}

fn prog_of(b: Backend) -> (p: &'static str)
    ensures
        p@ == prog(b),
{
    match b {
        Backend::Jj => "jj",
        Backend::Git => "git",
    }
}

fn command_of(program: &str, args: &[&str]) -> (c: Command)
    ensures
        command_view(c) == (program@, args@.map_values(|a: &str| a@)),
{
    crate::backend::command(program, args)
}

/// Starts a remove run: the first state and step.
pub fn rm_start(request: RmRequest) -> (r: (Rm, Step))
    ensures
        (r.0@, r.1@) == rm_start_v(rm_fresh_v(request)),
{
    let s = Rm {
        request,
        phase: RmPhase::Suffix,
        suffix: String::new(),
        container: String::new(),
        main_repo: String::new(),
        known: Vec::new(),
        targets: Vec::new(),
        arg: 0,
        name_dir_exists: false,
        target: 0,
        failed: false,
        cwd_removed: false,
        in_vcs: false,
        on_disk: false,
        removing_cwd: false,
    };
    assert(s@ == rm_fresh_v(s.request)) by {
        assert(views(s.known@) =~= Seq::<Seq<char>>::empty());
        assert(targets_v(s.targets@) =~= Seq::<(Seq<char>, Seq<char>)>::empty());
    }
    match s.request.backend {
        Backend::Git => (s, Step::Capture(git_config_query("wts.containerSuffix"))),
        Backend::Jj => rm_after_suffix(s, "-wts".to_owned()),
    }
}

fn rm_after_suffix(st: Rm, suffix: String) -> (r: (Rm, Step))
    ensures
        (r.0@, r.1@) == rm_after_suffix_v(st@, suffix@),
{
    let mut s = st;
    let layout = resolve_layout(s.request.root.as_str(), suffix.as_str());
    s.suffix = suffix;
    match layout {
        Err(m) => rm_fail(s, m),
        Ok((c, m)) => {
            let q = known_workspaces_query(s.request.backend, m.as_str());
            s.container = c;
            s.main_repo = m;
            s.phase = RmPhase::Known;
            (s, Step::Capture(q))
        },
    }
}

fn on_known(st: Rm, run: RunResult) -> (r: (Rm, Step))
    ensures
        (r.0@, r.1@) == on_known_v(st@, run),
{
    let mut s = st;
    let answer = capture(prog_of(s.request.backend), &run);
    s.known = known_workspaces(s.request.backend, &answer);
    if s.request.names.len() == 0 {
        current(s)
    } else {
        s.arg = 0;
        to_arg(s)
    }
}

fn current(st: Rm) -> (r: (Rm, Step))
    ensures
        (r.0@, r.1@) == current_v(st@),
{
    let mut s = st;
    if !crate::layout::in_wts_container(s.request.root.as_str(), s.suffix.as_str()) {
        return rm_fail(s, "no workspace name given and not inside a wts workspace".to_owned());
    }
    match s.request.backend {
        Backend::Git => {
            let none: Result<String, String> = Err(String::new());
            let n = current_workspace_name(
                Backend::Git,
                s.request.root.as_str(),
                s.suffix.as_str(),
                &none,
            );
            announce_current(s, n)
        },
        Backend::Jj => {
            s.phase = RmPhase::CurrentJj;
            (s, Step::Capture(jj_current_workspace_query()))
        },
    }
}

fn announce_current(st: Rm, n: Option<String>) -> (r: (Rm, Step))
    ensures
        (r.0@, r.1@) == announce_current_v(st@, opt_v(n)),
{
    let mut s = st;
    match n {
        None => rm_fail(s, "no workspace name given and not inside a wts workspace".to_owned()),
        Some(n) => {
            let line = concat3("wts: removing current workspace '", n.as_str(), "'");
            let root = s.request.root.clone();
            let mut ts: Vec<(String, String)> = Vec::new();
            ts.push((n, root));
            s.targets = ts;
            assert(targets_v(s.targets@) =~= seq![(n@, root@)]);
            s.phase = RmPhase::CurrentAnnounced;
            (s, Step::Say(line))
        },
    }
}

fn to_arg(st: Rm) -> (r: (Rm, Step))
    ensures
        (r.0@, r.1@) == to_arg_v(st@),
{
    let mut s = st;
    if s.arg < s.request.names.len() {
        assert(views(s.request.names@)[s.arg as int] == s.request.names@[s.arg as int]@);
        let d = path_join(s.container.as_str(), s.request.names[s.arg].as_str());
        s.phase = RmPhase::ArgExists;
        (s, Step::ProbeExists(d))
    } else {
        s.target = 0;
        to_target(s)
    }
}

fn on_arg_exists(st: Rm, b: bool) -> (r: (Rm, Step))
    requires
        st.arg < st.request.names.len(),
    ensures
        (r.0@, r.1@) == on_arg_exists_v(st@, b),
{
    let mut s = st;
    assert(views(s.request.names@)[s.arg as int] == s.request.names@[s.arg as int]@);
    let paths = rm_paths(s.container.as_str(), &s.request.cwd, s.request.names[s.arg].as_str());
    s.name_dir_exists = b;
    s.phase = RmPhase::ArgCanon;
    let c = s.container.clone();
    (s, Step::Canonicalize(paths.as_path, c))
}

fn on_arg_canon(st: Rm, a: Option<String>, b: Option<String>) -> (r: (Rm, Step))
    requires
        st.arg < st.request.names.len(),
    ensures
        (r.0@, r.1@) == on_arg_canon_v(st@, opt_v(a), opt_v(b)),
{
    let mut s = st;
    assert(views(s.request.names@)[s.arg as int] == s.request.names@[s.arg as int]@);
    let probe = RmProbe { name_dir_exists: s.name_dir_exists, canonical: a, container_canonical: b };
    let found = resolve_rm_target(
        s.container.as_str(),
        &s.known,
        &s.request.cwd,
        s.request.names[s.arg].as_str(),
        &probe,
    );
    match found {
        Some(t) => {
            let ghost prev = s.targets@;
            s.targets.push(t);
            assert(targets_v(s.targets@) =~= targets_v(prev).push((t.0@, t.1@)));
            s.arg = s.arg + 1;
            to_arg(s)
        },
        None => {
            let line = concat3("wts: no such workspace: '", s.request.names[s.arg].as_str(), "'");
            s.failed = true;
            s.phase = RmPhase::ArgMissing;
            (s, Step::Say(line))
        },
    }
}

fn to_target(st: Rm) -> (r: (Rm, Step))
    ensures
        (r.0@, r.1@) == to_target_v(st@),
{
    let mut s = st;
    if s.target < s.targets.len() {
        assert(targets_v(s.targets@)[s.target as int] == (
            s.targets@[s.target as int].0@,
            s.targets@[s.target as int].1@,
        ));
        let n = s.targets[s.target].0.clone();
        let d = s.targets[s.target].1.clone();
        if str_eq(n.as_str(), "default") {
            s.failed = true;
            s.phase = RmPhase::Said;
            (s, Step::Say("wts: refusing to remove the 'default' (main) workspace".to_owned()))
        } else {
            s.in_vcs = contains_name(&s.known, n.as_str());
            s.phase = RmPhase::TargetExists;
            (s, Step::ProbeExists(d))
        }
    } else if s.cwd_removed {
        s.phase = RmPhase::CdBack;
        let m = s.main_repo.clone();
        (s, Step::Cd(m))
    } else {
        s.phase = RmPhase::Finished;
        let code: i32 = if s.failed {
            1
        } else {
            0
        };
        (s, Step::Finish(code))
    }
}

/// The current target's name and folder.
fn current_target(s: &Rm) -> (r: (String, String))
    requires
        s.target < s.targets.len(),
    ensures
        r.0@ == cur_name(s@),
        r.1@ == cur_dir(s@),
{
    assert(targets_v(s.targets@)[s.target as int] == (
        s.targets@[s.target as int].0@,
        s.targets@[s.target as int].1@,
    ));
    (s.targets[s.target].0.clone(), s.targets[s.target].1.clone())
}

fn said(st: Rm, line: String) -> (r: (Rm, Step))
    ensures
        (r.0@, r.1@) == said_v(st@, line@),
{
    let mut s = st;
    s.phase = RmPhase::Said;
    (s, Step::Say(line))
}

fn on_target_exists(st: Rm, on_disk: bool) -> (r: (Rm, Step))
    requires
        st.target < st.targets.len(),
    ensures
        (r.0@, r.1@) == on_target_exists_v(st@, on_disk),
{
    let mut s = st;
    s.on_disk = on_disk;
    let (n, d) = current_target(&s);
    if !s.in_vcs && !on_disk {
        s.failed = true;
        let line = concat3("wts: no such workspace: '", n.as_str(), "'");
        return said(s, line);
    }
    s.removing_cwd = match &s.request.cwd {
        Some(c) => path_starts_with(c.as_str(), d.as_str()),
        None => false,
    };
    match s.request.backend {
        Backend::Jj => {
            if s.in_vcs {
                let q = command_of("jj", &["-R", s.main_repo.as_str(), "workspace", "forget", n.as_str()]);
                assert(command_view(q).1 =~= seq!["-R"@, s.main_repo@, "workspace"@, "forget"@, n@]);
                s.phase = RmPhase::Forget;
                (s, Step::Run(q))
            } else {
                jj_after_forget(s)
            }
        },
        Backend::Git => {
            let q = command_of(
                "git",
                &["-C", s.main_repo.as_str(), "worktree", "remove", "--force", d.as_str()],
            );
            assert(command_view(q).1 =~= seq![
                "-C"@,
                s.main_repo@,
                "worktree"@,
                "remove"@,
                "--force"@,
                d@,
            ]);
            s.phase = RmPhase::GitRemove;
            (s, Step::RunQuiet(q))
        },
    }
}

fn jj_after_forget(st: Rm) -> (r: (Rm, Step))
    requires
        st.target < st.targets.len(),
    ensures
        (r.0@, r.1@) == jj_after_forget_v(st@),
{
    let mut s = st;
    let (n, d) = current_target(&s);
    if s.on_disk {
        s.phase = RmPhase::JjRemove;
        (s, Step::RemoveTree(d))
    } else {
        let a = concat3("wts: forgot '", n.as_str(), "' (no folder at ");
        let line = concat3(a.as_str(), d.as_str(), ")");
        said(s, line)
    }
}

fn removed_line(s: &Rm) -> (m: String)
    requires
        s.target < s.targets.len(),
    ensures
        m@ == removed_text(s@),
{
    let (n, d) = current_target(s);
    let a = concat3("wts: removed workspace '", n.as_str(), "' (");
    concat3(a.as_str(), d.as_str(), ")")
}

fn git_after_remove(st: Rm) -> (r: (Rm, Step))
    ensures
        (r.0@, r.1@) == git_after_remove_v(st@),
{
    let mut s = st;
    s.cwd_removed = s.cwd_removed || s.removing_cwd;
    s.phase = RmPhase::GitBranchPrefix;
    (s, Step::Capture(git_config_query("wts.branchPrefix")))
}

fn rm_finish(st: Rm) -> (r: (Rm, Step))
    ensures
        (r.0@, r.1@) == finish_v(st@),
{
    let mut s = st;
    s.phase = RmPhase::Finished;
    let code: i32 = if s.failed {
        1
    } else {
        0
    };
    (s, Step::Finish(code))
}

fn on_forget(st: Rm, r: Result<Exit, String>) -> (out: (Rm, Step))
    requires
        st.target < st.targets.len(),
    ensures
        (out.0@, out.1@) == on_forget_v(st@, exit_v(r)),
{
    let mut s = st;
    match r {
        Ok(x) => {
            if x.success {
                jj_after_forget(s)
            } else {
                let (n, _) = current_target(&s);
                let line = concat3(
                    "wts: 'jj workspace forget ",
                    n.as_str(),
                    "' failed; leaving folder in place",
                );
                s.failed = true;
                said(s, line)
            }
        },
        Err(m) => {
            let line = concat("wts: failed to run jj: ", m.as_str());
            s.failed = true;
            said(s, line)
        },
    }
}

fn on_jj_removed(st: Rm, r: Result<(), String>) -> (out: (Rm, Step))
    requires
        st.target < st.targets.len(),
    ensures
        (out.0@, out.1@) == on_jj_removed_v(
            st@,
            match r {
                Ok(_) => Ok(()),
                Err(m) => Err(m@),
            },
        ),
{
    let mut s = st;
    match r {
        Ok(_) => {
            let line = removed_line(&s);
            s.cwd_removed = s.cwd_removed || s.removing_cwd;
            said(s, line)
        },
        Err(m) => {
            let (n, d) = current_target(&s);
            let a = concat3("wts: forgot '", n.as_str(), "' but could not delete ");
            let b = concat3(a.as_str(), d.as_str(), ": ");
            let line = concat(b.as_str(), m.as_str());
            s.failed = true;
            said(s, line)
        },
    }
}

fn on_git_removed(st: Rm, r: Result<Exit, String>) -> (out: (Rm, Step))
    requires
        st.target < st.targets.len(),
    ensures
        (out.0@, out.1@) == on_git_removed_v(st@, exit_v(r)),
{
    let mut s = st;
    let ok = match &r {
        Ok(x) => x.success,
        Err(_) => false,
    };
    if ok {
        git_after_remove(s)
    } else {
        let q = command_of("git", &["-C", s.main_repo.as_str(), "worktree", "prune"]);
        assert(command_view(q).1 =~= seq!["-C"@, s.main_repo@, "worktree"@, "prune"@]);
        s.phase = RmPhase::GitPrune;
        (s, Step::RunQuiet(q))
    }
}

fn on_git_pruned(st: Rm) -> (out: (Rm, Step))
    requires
        st.target < st.targets.len(),
    ensures
        (out.0@, out.1@) == on_git_pruned_v(st@),
{
    let mut s = st;
    let (_, d) = current_target(&s);
    s.phase = RmPhase::GitLeftover;
    (s, Step::ProbeExists(d))
}

fn on_git_leftover(st: Rm, b: bool) -> (out: (Rm, Step))
    requires
        st.target < st.targets.len(),
    ensures
        (out.0@, out.1@) == on_git_leftover_v(st@, b),
{
    let mut s = st;
    if b {
        let (_, d) = current_target(&s);
        s.phase = RmPhase::GitRemoveDir;
        (s, Step::RemoveTree(d))
    } else {
        git_after_remove(s)
    }
}

fn on_git_dir_removed(st: Rm, r: Result<(), String>) -> (out: (Rm, Step))
    requires
        st.target < st.targets.len(),
    ensures
        (out.0@, out.1@) == on_git_dir_removed_v(
            st@,
            match r {
                Ok(_) => Ok(()),
                Err(m) => Err(m@),
            },
        ),
{
    let mut s = st;
    match r {
        Ok(_) => git_after_remove(s),
        Err(m) => {
            let (_, d) = current_target(&s);
            let a = concat3("wts: could not delete ", d.as_str(), ": ");
            let line = concat(a.as_str(), m.as_str());
            s.failed = true;
            said(s, line)
        },
    }
}

fn on_rm_branch_prefix(st: Rm, run: RunResult) -> (out: (Rm, Step))
    requires
        st.target < st.targets.len(),
    ensures
        (out.0@, out.1@) == on_rm_branch_prefix_v(st@, run),
{
    let mut s = st;
    let answer = capture("git", &run);
    let prefix = git_config_str(&answer, "");
    proof {
        reveal_strlit("");
        assert(""@ =~= Seq::<char>::empty());
    }
    let (n, _) = current_target(&s);
    let branch = concat(prefix.as_str(), n.as_str());
    let q = command_of("git", &["-C", s.main_repo.as_str(), "branch", "-D", branch.as_str()]);
    assert(command_view(q).1 =~= seq!["-C"@, s.main_repo@, "branch"@, "-D"@, branch@]);
    s.phase = RmPhase::GitBranchDelete;
    (s, Step::RunQuiet(q))
}

/// The next state and step of a remove run, given what the last step brought.
pub fn rm_next(st: Rm, e: Event) -> (r: (Rm, Step))
    ensures
        (r.0@, r.1@) == rm_next_v(st@, event_v(e)),
{
    let mut s = st;
    let in_arg = s.arg < s.request.names.len();
    let in_target = s.target < s.targets.len();
    proof {
        assert(in_arg == arg_ok(s@));
        assert(in_target == target_ok(s@));
    }
    match (s.phase, e) {
        (RmPhase::Suffix, Event::Ran(run)) => {
            let answer = capture("git", &run);
            let suffix = container_suffix(Backend::Git, &answer);
            rm_after_suffix(s, suffix)
        },
        (RmPhase::Known, Event::Ran(run)) => on_known(s, run),
        (RmPhase::CurrentJj, Event::Ran(run)) => {
            let answer = capture("jj", &run);
            let n = current_workspace_name(
                Backend::Jj,
                s.request.root.as_str(),
                s.suffix.as_str(),
                &answer,
            );
            announce_current(s, n)
        },
        (RmPhase::CurrentAnnounced, Event::Ack) => {
            s.target = 0;
            to_target(s)
        },
        (RmPhase::ArgExists, Event::Flag(b)) if in_arg => on_arg_exists(s, b),
        (RmPhase::ArgCanon, Event::Canonical(a, b)) if in_arg => on_arg_canon(s, a, b),
        (RmPhase::ArgMissing, Event::Ack) if in_arg => {
            s.arg = s.arg + 1;
            to_arg(s)
        },
        (RmPhase::TargetExists, Event::Flag(b)) if in_target => on_target_exists(s, b),
        (RmPhase::Forget, Event::Exited(r)) if in_target => on_forget(s, r),
        (RmPhase::JjRemove, Event::Done(r)) if in_target => on_jj_removed(s, r),
        (RmPhase::GitRemove, Event::Exited(r)) if in_target => on_git_removed(s, r),
        (RmPhase::GitPrune, Event::Exited(_)) if in_target => on_git_pruned(s),
        (RmPhase::GitLeftover, Event::Flag(b)) if in_target => on_git_leftover(s, b),
        (RmPhase::GitRemoveDir, Event::Done(r)) if in_target => on_git_dir_removed(s, r),
        (RmPhase::GitBranchPrefix, Event::Ran(run)) if in_target => on_rm_branch_prefix(s, run),
        (RmPhase::GitBranchDelete, Event::Exited(_)) if in_target => {
            let line = removed_line(&s);
            said(s, line)
        },
        (RmPhase::Said, Event::Ack) if in_target => {
            s.target = s.target + 1;
            to_target(s)
        },
        (RmPhase::CdBack, Event::Ack) => rm_finish(s),
        _ => rm_fail(s, unexpected_message()),
    }
}

// ---------------------------------------------------------------------------
// What every remove run keeps
// ---------------------------------------------------------------------------

/// The phases in which one target is being removed.
pub open spec fn removing(p: RmPhase) -> bool {
    p == RmPhase::TargetExists || p == RmPhase::Forget || p == RmPhase::JjRemove
        || p == RmPhase::GitRemove || p == RmPhase::GitPrune || p == RmPhase::GitLeftover
        || p == RmPhase::GitRemoveDir || p == RmPhase::GitBranchPrefix
        || p == RmPhase::GitBranchDelete
}

/// While a target is being removed, it is one of the run's targets and it is
/// not jj's `default` workspace; and a run given no names only ever has a
/// target (the current workspace) when its root sits in a `<repo><suffix>`
/// container.
pub open spec fn rm_inv(s: RmV) -> bool {
    &&& removing(s.phase) ==> target_ok(s) && cur_name(s) != "default"@
    &&& (s.phase == RmPhase::Suffix || s.phase == RmPhase::Known) ==> s.targets.len() == 0
    &&& s.phase == RmPhase::CurrentJj ==> in_container(s.root, s.suffix)
    &&& s.names.len() == 0 && s.targets.len() > 0 ==> in_container(s.root, s.suffix)
    &&& removing(s.phase) && s.phase != RmPhase::TargetExists ==> s.removing_cwd == holds_cwd(s)
}

/// The current target's folder holds the current directory.
pub open spec fn holds_cwd(s: RmV) -> bool {
    match s.cwd {
        Some(c) => std_starts_with(c, cur_dir(s)),
        None => false,
    }
}

/// The steps that change a repository or the disk.
pub open spec fn rm_acts(step: StepV) -> bool {
    step is Run || step is RunQuiet || step is RemoveTree
}

/// What a step that changes something touches: the folder it deletes is the
/// current target's, and the workspace jj forgets is the current target's.
pub open spec fn touches_current(t: RmV, step: StepV) -> bool {
    &&& step matches StepV::RemoveTree(d) ==> d == cur_dir(t)
    &&& step matches StepV::Run(c) ==> c == (
        "jj"@,
        seq!["-R"@, t.main_repo, "workspace"@, "forget"@, cur_name(t)],
    )
}

/// What each step of a remove run keeps (see `lemma_rm_step`).
#[verifier::opaque]
pub open spec fn rm_step_ok(s: RmV, r: (RmV, StepV)) -> bool {
    &&& rm_inv(r.0)
    &&& rm_acts(r.1) ==> removing(r.0.phase) && target_ok(r.0) && cur_name(r.0) != "default"@
    &&& touches_current(r.0, r.1)
    &&& s.failed ==> r.0.failed
    &&& r.1 matches StepV::Finish(c) ==> c == exit_code(r.0)
    &&& keeps_request(s, r.0)
    &&& s.cwd_removed ==> r.0.cwd_removed
    &&& !s.cwd_removed && r.0.cwd_removed ==> target_ok(s) && holds_cwd(s)
}

/// `t` holds the same request as `s`, and, once `s` has read the container
/// suffix, the same suffix, never to read it again.
pub open spec fn keeps_request(s: RmV, t: RmV) -> bool {
    &&& t.backend == s.backend
    &&& t.root == s.root
    &&& t.names == s.names
    &&& t.cwd == s.cwd
    &&& s.phase != RmPhase::Suffix ==> t.suffix == s.suffix && t.phase != RmPhase::Suffix
}

proof fn lemma_to_target_ok(s: RmV, t: RmV)
    requires
        t.cwd_removed == s.cwd_removed,
        t.backend == s.backend,
        t.root == s.root,
        t.names == s.names,
        t.cwd == s.cwd,
        t.suffix == s.suffix,
        s.phase != RmPhase::Suffix,
        t.failed == s.failed,
        t.names.len() == 0 && t.targets.len() > 0 ==> in_container(t.root, t.suffix),
    ensures
        rm_step_ok(s, to_target_v(t)),
{
    reveal(rm_step_ok);
}

proof fn lemma_to_arg_ok(s: RmV, t: RmV)
    requires
        t.cwd_removed == s.cwd_removed,
        t.backend == s.backend,
        t.root == s.root,
        t.names == s.names,
        t.cwd == s.cwd,
        t.suffix == s.suffix,
        s.phase != RmPhase::Suffix,
        t.failed == s.failed,
        t.names.len() == 0 && t.targets.len() > 0 ==> in_container(t.root, t.suffix),
    ensures
        rm_step_ok(s, to_arg_v(t)),
{
    reveal(rm_step_ok);
    lemma_to_target_ok(s, RmV { target: 0, ..t });
}

proof fn lemma_fail_ok(s: RmV, m: Seq<char>)
    requires
        rm_inv(s),
    ensures
        rm_step_ok(s, rm_fail_v(s, m)),
{
    reveal(rm_step_ok);
}

proof fn lemma_listing_ok(s: RmV, run: RunResult, sfx: Seq<char>)
    requires
        rm_inv(s),
    ensures
        s.phase == RmPhase::Suffix ==> rm_step_ok(s, rm_after_suffix_v(s, sfx)),
        s.phase == RmPhase::Known ==> rm_step_ok(s, on_known_v(s, run)),
        s.phase == RmPhase::CurrentJj ==> rm_step_ok(
            s,
            announce_current_v(s, current_name(Backend::Jj, s.root, s.suffix, captured("jj"@, run))),
        ),
{
    reveal(rm_step_ok);
    if s.phase == RmPhase::Known {
        let t = RmV { known: known_names(s.backend, captured(prog(s.backend), run)), ..s };
        lemma_to_arg_ok(s, RmV { arg: 0, ..t });
    }
}

proof fn lemma_args_ok(s: RmV, b: bool, x: Option<Seq<char>>, y: Option<Seq<char>>)
    requires
        rm_inv(s),
        s.phase != RmPhase::Suffix,
        arg_ok(s),
    ensures
        rm_step_ok(s, on_arg_exists_v(s, b)),
        rm_step_ok(s, on_arg_canon_v(s, x, y)),
        rm_step_ok(s, to_arg_v(RmV { arg: s.arg + 1, ..s })),
{
    reveal(rm_step_ok);
    lemma_to_arg_ok(s, RmV { arg: s.arg + 1, ..s });
    match rm_target(
        s.container,
        s.known,
        s.names[s.arg],
        arg_path(s.cwd, s.names[s.arg]),
        s.name_dir_exists,
        x,
        y,
    ) {
        Some(t) => lemma_to_arg_ok(s, RmV { targets: s.targets.push(t), arg: s.arg + 1, ..s }),
        None => {},
    }
}

proof fn lemma_target_ok(s: RmV, b: bool)
    requires
        rm_inv(s),
        target_ok(s),
        cur_name(s) != "default"@,
    ensures
        rm_step_ok(s, on_target_exists_v(s, b)),
{
    reveal(rm_step_ok);
}

proof fn lemma_jj_ok(s: RmV, r: Result<(bool, Option<int>), Seq<char>>, d: Result<(), Seq<char>>)
    requires
        s.phase != RmPhase::TargetExists,
        removing(s.phase),
        rm_inv(s),
        target_ok(s),
        cur_name(s) != "default"@,
    ensures
        rm_step_ok(s, on_forget_v(s, r)),
        rm_step_ok(s, on_jj_removed_v(s, d)),
{
    reveal(rm_step_ok);
}

proof fn lemma_git_ok(
    s: RmV,
    r: Result<(bool, Option<int>), Seq<char>>,
    b: bool,
    d: Result<(), Seq<char>>,
)
    requires
        s.phase != RmPhase::TargetExists,
        removing(s.phase),
        rm_inv(s),
        target_ok(s),
        cur_name(s) != "default"@,
    ensures
        rm_step_ok(s, on_git_removed_v(s, r)),
        rm_step_ok(s, on_git_pruned_v(s)),
        rm_step_ok(s, on_git_leftover_v(s, b)),
        rm_step_ok(s, on_git_dir_removed_v(s, d)),
        rm_step_ok(s, said_v(s, removed_text(s))),
{
    reveal(rm_step_ok);
}

proof fn lemma_git_branch_ok(s: RmV, run: RunResult)
    requires
        s.phase != RmPhase::TargetExists,
        removing(s.phase),
        rm_inv(s),
        target_ok(s),
        cur_name(s) != "default"@,
    ensures
        rm_step_ok(s, on_rm_branch_prefix_v(s, run)),
{
    reveal(rm_step_ok);
}

proof fn lemma_finish_ok(s: RmV)
    requires
        rm_inv(s),
    ensures
        rm_step_ok(s, finish_v(s)),
{
    reveal(rm_step_ok);
}

/// A remove run starts in a state that keeps `rm_inv`, and its first step
/// changes nothing.
pub proof fn lemma_rm_start(request: RmRequest)
    ensures
        rm_inv(rm_start_v(rm_fresh_v(request)).0),
        !rm_acts(rm_start_v(rm_fresh_v(request)).1),
{
}

/// Every step of a remove run keeps `rm_inv`; a step that forgets, removes
/// or deletes anything does so for the current target, which is never jj's
/// `default` workspace, and, in a run given no names, only when the root sits
/// in a `<repo><suffix>` container; a failure, once noted, is never dropped;
/// and the run finishes with exit code 1 exactly when something failed. No
/// step changes what was asked for, and the container suffix, once read,
/// stays. The flag that asks for the cd back to the main repo is only ever
/// set, and only while removing a target whose folder holds the current
/// directory.
pub proof fn lemma_rm_step(s: RmV, e: EventV)
    requires
        rm_inv(s),
    ensures
        rm_inv(rm_next_v(s, e).0),
        rm_acts(rm_next_v(s, e).1) ==> removing(rm_next_v(s, e).0.phase) && target_ok(
            rm_next_v(s, e).0,
        ) && cur_name(rm_next_v(s, e).0) != "default"@,
        touches_current(rm_next_v(s, e).0, rm_next_v(s, e).1),
        rm_acts(rm_next_v(s, e).1) && rm_next_v(s, e).0.names.len() == 0 ==> in_container(
            rm_next_v(s, e).0.root,
            rm_next_v(s, e).0.suffix,
        ),
        s.failed ==> rm_next_v(s, e).0.failed,
        rm_next_v(s, e).1 matches StepV::Finish(c) ==> c == exit_code(rm_next_v(s, e).0),
        keeps_request(s, rm_next_v(s, e).0),
        s.cwd_removed ==> rm_next_v(s, e).0.cwd_removed,
        !s.cwd_removed && rm_next_v(s, e).0.cwd_removed ==> target_ok(s) && holds_cwd(s),
{
    lemma_fail_ok(s, crate::steps::unexpected_text());
    match e {
        EventV::Ran(run) => {
            lemma_listing_ok(s, run, config_str(captured("git"@, run), "-wts"@));
            if target_ok(s) && s.phase == RmPhase::GitBranchPrefix {
                lemma_git_branch_ok(s, run);
            }
        },
        EventV::Flag(b) => {
            if arg_ok(s) && s.phase != RmPhase::Suffix {
                lemma_args_ok(s, b, None, None);
            }
            if s.phase == RmPhase::TargetExists {
                lemma_target_ok(s, b);
            }
            if s.phase == RmPhase::GitLeftover {
                lemma_git_ok(s, Err(Seq::empty()), b, Ok(()));
            }
        },
        EventV::Canonical(x, y) => {
            if arg_ok(s) && s.phase != RmPhase::Suffix {
                lemma_args_ok(s, false, x, y);
            }
        },
        EventV::Exited(r) => {
            if removing(s.phase) && s.phase != RmPhase::TargetExists {
                lemma_jj_ok(s, r, Ok(()));
                lemma_git_ok(s, r, false, Ok(()));
            }
        },
        EventV::Done(d) => {
            if removing(s.phase) && s.phase != RmPhase::TargetExists {
                lemma_jj_ok(s, Err(Seq::empty()), d);
                lemma_git_ok(s, Err(Seq::empty()), false, d);
            }
        },
        EventV::Ack => {
            lemma_finish_ok(s);
            if s.phase != RmPhase::Suffix {
                lemma_to_target_ok(s, RmV { target: 0, ..s });
                lemma_to_target_ok(s, RmV { target: s.target + 1, ..s });
                if arg_ok(s) {
                    lemma_args_ok(s, false, None, None);
                }
            }
        },
        _ => {},
    }
    reveal(rm_step_ok);
}

/// A no-name `rm` run from outside a `<repo><suffix>/<name>` workspace (the
/// main repo, say) fails as soon as the workspaces are listed, before it
/// has removed anything.
pub proof fn lemma_rm_main_repo_refused(s: RmV, run: RunResult)
    requires
        s.phase == RmPhase::Known,
        s.names.len() == 0,
        !in_container(s.root, s.suffix),
    ensures
        rm_next_v(s, EventV::Ran(run)).1 == StepV::Fail(not_in_workspace_text()),
{
}

/// An argument that names neither a known workspace, nor a folder in the
/// container, nor (as a path) a folder directly inside it, is an error: the
/// run notes the failure and says so, and takes no target from it.
pub proof fn lemma_rm_unknown_arg_is_error(s: RmV, a: Option<Seq<char>>, b: Option<Seq<char>>)
    requires
        s.phase == RmPhase::ArgCanon,
        arg_ok(s),
        rm_target(
            s.container,
            s.known,
            s.names[s.arg],
            arg_path(s.cwd, s.names[s.arg]),
            s.name_dir_exists,
            a,
            b,
        ) is None,
    ensures
        rm_next_v(s, EventV::Canonical(a, b)).0.failed,
        rm_next_v(s, EventV::Canonical(a, b)).0.targets == s.targets,
        rm_next_v(s, EventV::Canonical(a, b)).1 == StepV::Say(
            "wts: no such workspace: '"@ + s.names[s.arg] + "'"@,
        ),
{
}

/// A target that is neither a known workspace nor a folder on disk is an
/// error: the run notes the failure, says so, and removes nothing.
pub proof fn lemma_rm_unknown_target_is_error(s: RmV)
    requires
        s.phase == RmPhase::TargetExists,
        target_ok(s),
        !s.in_vcs,
    ensures
        rm_next_v(s, EventV::Flag(false)).0.failed,
        rm_next_v(s, EventV::Flag(false)).1 == StepV::Say(
            "wts: no such workspace: '"@ + cur_name(s) + "'"@,
        ),
{
}

/// Once every target has been handled, the run cds back to the main repo
/// exactly when it deleted the folder holding the current directory, and
/// otherwise finishes with the exit code.
pub proof fn lemma_rm_cd_back(s: RmV)
    requires
        !target_ok(s),
    ensures
        s.cwd_removed ==> to_target_v(s).1 == StepV::Cd(s.main_repo),
        !s.cwd_removed ==> to_target_v(s).1 == StepV::Finish(exit_code(s)),
{
}

// ---------------------------------------------------------------------------
// Whole runs
// ---------------------------------------------------------------------------

/// The state a remove run reaches from `s` after answering `es`.
pub open spec fn rm_after(s: RmV, es: Seq<EventV>) -> RmV
    decreases es.len(),
{
    if es.len() == 0 {
        s
    } else {
        rm_after(rm_next_v(s, es[0]).0, es.drop_first())
    }
}

proof fn lemma_rm_after_inv(s: RmV, es: Seq<EventV>)
    requires
        rm_inv(s),
    ensures
        rm_inv(rm_after(s, es)),
        rm_after(s, es).root == s.root,
        rm_after(s, es).names == s.names,
        s.phase != RmPhase::Suffix ==> rm_after(s, es).suffix == s.suffix,
    decreases es.len(),
{
    if es.len() > 0 {
        lemma_rm_step(s, es[0]);
        lemma_rm_after_inv(rm_next_v(s, es[0]).0, es.drop_first());
    }
}

/// Over a whole remove run, however the outside answers: every step that
/// forgets, removes or deletes anything does so for a target that is not
/// jj's `default` workspace, touching only that target's folder and name;
/// in a run given no names, only when the root sits in a `<repo><suffix>`
/// container for the suffix in force; and the run finishes with exit code 1
/// exactly when something failed.
pub proof fn lemma_rm_run(request: RmRequest, es: Seq<EventV>, e: EventV)
    ensures
        ({
            let s = rm_after(rm_start_v(rm_fresh_v(request)).0, es);
            let t = rm_next_v(s, e).0;
            let step = rm_next_v(s, e).1;
            &&& rm_acts(step) ==> target_ok(t) && cur_name(t) != "default"@
            &&& touches_current(t, step)
            &&& rm_acts(step) && request.names@.len() == 0 ==> in_container(request.root@, t.suffix)
            &&& step matches StepV::Finish(c) ==> c == exit_code(t)
        }),
{
    let s0 = rm_start_v(rm_fresh_v(request)).0;
    lemma_rm_start(request);
    lemma_rm_after_inv(s0, es);
    let s = rm_after(s0, es);
    lemma_rm_step(s, e);
}

/// A jj `rm` given no names, from a root that does not sit in a
/// `<repo>-wts` container (the main repo, say), forgets, removes and
/// deletes nothing, however the outside answers.
pub proof fn lemma_jj_rm_main_repo_run(request: RmRequest, es: Seq<EventV>, e: EventV)
    requires
        request.backend == Backend::Jj,
        request.names@.len() == 0,
        !in_container(request.root@, "-wts"@),
    ensures
        !rm_acts(rm_next_v(rm_after(rm_start_v(rm_fresh_v(request)).0, es), e).1),
{
    let s0 = rm_start_v(rm_fresh_v(request)).0;
    lemma_rm_run(request, es, e);
    lemma_rm_start(request);
    lemma_rm_after_inv(s0, es);
    lemma_rm_step(rm_after(s0, es), e);
}

/// The steps a remove run takes from `s` answering `es`.
pub open spec fn rm_steps(s: RmV, es: Seq<EventV>) -> Seq<StepV>
    decreases es.len(),
{
    if es.len() == 0 {
        Seq::empty()
    } else {
        seq![rm_next_v(s, es[0]).1] + rm_steps(rm_next_v(s, es[0]).0, es.drop_first())
    }
}

proof fn lemma_rm_cons(s: RmV, e: EventV, rest: Seq<EventV>)
    ensures
        rm_after(s, seq![e] + rest) == rm_after(rm_next_v(s, e).0, rest),
        rm_steps(s, seq![e] + rest) == seq![rm_next_v(s, e).1] + rm_steps(rm_next_v(s, e).0, rest),
{
    assert((seq![e] + rest).drop_first() =~= rest);
    assert((seq![e] + rest)[0] == e);
}

/// A command run that started and succeeded.
pub open spec fn exit_ok(r: Result<(bool, Option<int>), Seq<char>>) -> bool {
    r matches Ok((true, _))
}

/// The answers a jj removal of the current target gets: whether its folder
/// exists; how `jj workspace forget` went (asked only for a known
/// workspace); how deleting the folder went (asked only when it exists and
/// no forget failed).
pub open spec fn jj_removal_events(
    in_vcs: bool,
    on_disk: bool,
    forget: Result<(bool, Option<int>), Seq<char>>,
    del: Result<(), Seq<char>>,
) -> Seq<EventV> {
    let deleting = if on_disk {
        seq![EventV::Done(del)]
    } else {
        Seq::empty()
    };
    if in_vcs {
        if exit_ok(forget) {
            seq![EventV::Flag(on_disk), EventV::Exited(forget)] + deleting
        } else {
            seq![EventV::Flag(on_disk), EventV::Exited(forget)]
        }
    } else {
        seq![EventV::Flag(on_disk)] + deleting
    }
}

/// Removing one target with jj, as a whole: the run ends on that target's
/// closing line; it has failed exactly when the forget failed, or the folder
/// could not be deleted; the folder is only deleted when no forget failed;
/// and the cd back is asked for exactly when a deleted folder held the
/// current directory.
pub proof fn lemma_jj_removal(
    s: RmV,
    on_disk: bool,
    forget: Result<(bool, Option<int>), Seq<char>>,
    del: Result<(), Seq<char>>,
)
    requires
        rm_inv(s),
        s.phase == RmPhase::TargetExists,
        target_ok(s),
        s.backend == Backend::Jj,
        s.in_vcs || on_disk,
    ensures
        ({
            let es = jj_removal_events(s.in_vcs, on_disk, forget, del);
            let t = rm_after(s, es);
            let steps = rm_steps(s, es);
            let forgotten = !s.in_vcs || exit_ok(forget);
            &&& t.phase == RmPhase::Said
            &&& t.target == s.target
            &&& t.targets == s.targets
            &&& t.failed == (s.failed || !forgotten || (on_disk && del is Err))
            &&& t.cwd_removed == (s.cwd_removed || (forgotten && on_disk && del is Ok && holds_cwd(s)))
            &&& forall|i: int| 0 <= i < steps.len() && #[trigger] steps[i] is RemoveTree ==> forgotten
            &&& forgotten && on_disk ==> steps[steps.len() - 2] == StepV::RemoveTree(cur_dir(s))
        }),
{
    let e1 = EventV::Flag(on_disk);
    let s1 = rm_next_v(s, e1).0;
    assert(rm_next_v(s, e1) == on_target_exists_v(s, on_disk));
    assert(holds_cwd(s1) == holds_cwd(s));
    let deleting = if on_disk {
        seq![EventV::Done(del)]
    } else {
        Seq::<EventV>::empty()
    };
    let tail_after_forget = if s.in_vcs {
        if exit_ok(forget) {
            seq![EventV::Exited(forget)] + deleting
        } else {
            seq![EventV::Exited(forget)]
        }
    } else {
        deleting
    };
    assert(jj_removal_events(s.in_vcs, on_disk, forget, del) =~= seq![e1] + tail_after_forget);
    lemma_rm_cons(s, e1, tail_after_forget);
    let mut cur = s1;
    if s.in_vcs {
        let e2 = EventV::Exited(forget);
        let rest = if exit_ok(forget) {
            deleting
        } else {
            Seq::<EventV>::empty()
        };
        assert(tail_after_forget =~= seq![e2] + rest);
        lemma_rm_cons(s1, e2, rest);
        assert(rm_next_v(s1, e2) == on_forget_v(s1, forget));
        cur = rm_next_v(s1, e2).0;
        if exit_ok(forget) && on_disk {
            let e3 = EventV::Done(del);
            assert(rest =~= seq![e3] + Seq::<EventV>::empty());
            lemma_rm_cons(cur, e3, Seq::empty());
            assert(rm_next_v(cur, e3) == on_jj_removed_v(cur, del));
        }
        assert(rm_after(cur, Seq::empty()) == cur);
    } else if on_disk {
        let e3 = EventV::Done(del);
        assert(tail_after_forget =~= seq![e3] + Seq::<EventV>::empty());
        lemma_rm_cons(s1, e3, Seq::empty());
        assert(rm_next_v(s1, e3) == on_jj_removed_v(s1, del));
    }
    let steps = rm_steps(s, jj_removal_events(s.in_vcs, on_disk, forget, del));
    assert forall|i: int| 0 <= i < steps.len() && #[trigger] steps[i] is RemoveTree implies (!s.in_vcs
        || exit_ok(forget)) by {
        if s.in_vcs && !exit_ok(forget) {
            lemma_rm_cons(s1, EventV::Exited(forget), Seq::empty());
            assert(steps.len() == 2);
        }
    }
}

/// The answers a git removal of the current target gets: whether its
/// folder exists; how `git worktree remove --force` went; when that failed,
/// how `git worktree prune` went, whether the folder is still there, and (if
/// it is) how deleting it went; and, unless that delete failed, the
/// `wts.branchPrefix` read and how `git branch -D` went.
pub open spec fn git_removal_events(
    on_disk: bool,
    removed: Result<(bool, Option<int>), Seq<char>>,
    pruned: Result<(bool, Option<int>), Seq<char>>,
    left: bool,
    del: Result<(), Seq<char>>,
    prefix: RunResult,
    branch: Result<(bool, Option<int>), Seq<char>>,
) -> Seq<EventV> {
    let start = seq![EventV::Flag(on_disk), EventV::Exited(removed)];
    let tail = seq![EventV::Ran(prefix), EventV::Exited(branch)];
    if exit_ok(removed) {
        start + tail
    } else if !left {
        start + seq![EventV::Exited(pruned), EventV::Flag(false)] + tail
    } else if del is Ok {
        start + seq![EventV::Exited(pruned), EventV::Flag(true), EventV::Done(del)] + tail
    } else {
        start + seq![EventV::Exited(pruned), EventV::Flag(true), EventV::Done(del)]
    }
}

proof fn lemma_git_tail(u: RmV, prefix: RunResult, branch: Result<(bool, Option<int>), Seq<char>>)
    requires
        u.phase == RmPhase::GitBranchPrefix,
        target_ok(u),
    ensures
        rm_after(u, seq![EventV::Ran(prefix), EventV::Exited(branch)]) == (RmV {
            phase: RmPhase::Said,
            ..u
        }),
        rm_steps(u, seq![EventV::Ran(prefix), EventV::Exited(branch)]) == seq![
            StepV::RunQuiet(
                branch_delete_v(
                    u.main_repo,
                    config_str(captured("git"@, prefix), Seq::empty()) + cur_name(u),
                ),
            ),
            StepV::Say(removed_text(u)),
        ],
{
    let e6 = EventV::Ran(prefix);
    let e7 = EventV::Exited(branch);
    assert(seq![e6, e7] =~= seq![e6] + seq![e7]);
    lemma_rm_cons(u, e6, seq![e7]);
    assert(rm_next_v(u, e6) == on_rm_branch_prefix_v(u, prefix));
    let u1 = rm_next_v(u, e6).0;
    assert(seq![e7] =~= seq![e7] + Seq::<EventV>::empty());
    lemma_rm_cons(u1, e7, Seq::empty());
    assert(rm_after(rm_next_v(u1, e7).0, Seq::empty()) == rm_next_v(u1, e7).0);
    assert(rm_steps(rm_next_v(u1, e7).0, Seq::empty()) =~= Seq::<StepV>::empty());
    assert(rm_steps(u, seq![e6, e7]) =~= seq![rm_next_v(u, e6).1, rm_next_v(u1, e7).1]);
}

/// The first two answers of a git removal: the folder probe and the
/// worktree remove.
proof fn lemma_git_start(s: RmV, on_disk: bool, removed: Result<(bool, Option<int>), Seq<char>>, rest: Seq<EventV>)
    requires
        rm_inv(s),
        s.phase == RmPhase::TargetExists,
        target_ok(s),
        s.backend == Backend::Git,
        s.in_vcs || on_disk,
    ensures
        ({
            let s2 = on_git_removed_v(on_target_exists_v(s, on_disk).0, removed).0;
            &&& rm_after(s, seq![EventV::Flag(on_disk), EventV::Exited(removed)] + rest) == rm_after(s2, rest)
            &&& rm_steps(s, seq![EventV::Flag(on_disk), EventV::Exited(removed)] + rest) == seq![
                on_target_exists_v(s, on_disk).1,
                on_git_removed_v(on_target_exists_v(s, on_disk).0, removed).1,
            ] + rm_steps(s2, rest)
            &&& s2.target == s.target && s2.targets == s.targets && s2.failed == s.failed
            &&& s2.main_repo == s.main_repo && cur_name(s2) == cur_name(s)
            &&& s2.removing_cwd == holds_cwd(s)
            &&& !exit_ok(removed) ==> s2.cwd_removed == s.cwd_removed
            &&& exit_ok(removed) ==> s2.phase == RmPhase::GitBranchPrefix && s2.cwd_removed
                == (s.cwd_removed || holds_cwd(s))
            &&& !exit_ok(removed) ==> s2.phase == RmPhase::GitPrune
        }),
{
    let e1 = EventV::Flag(on_disk);
    let e2 = EventV::Exited(removed);
    assert(rm_next_v(s, e1) == on_target_exists_v(s, on_disk));
    let s1 = rm_next_v(s, e1).0;
    assert(rm_next_v(s1, e2) == on_git_removed_v(s1, removed));
    assert(seq![e1, e2] + rest =~= seq![e1] + (seq![e2] + rest));
    lemma_rm_cons(s, e1, seq![e2] + rest);
    lemma_rm_cons(s1, e2, rest);
    assert(seq![rm_next_v(s, e1).1] + (seq![rm_next_v(s1, e2).1] + rm_steps(rm_next_v(s1, e2).0, rest))
        =~= seq![rm_next_v(s, e1).1, rm_next_v(s1, e2).1] + rm_steps(rm_next_v(s1, e2).0, rest));
}

/// The fallback answers of a git removal whose worktree remove failed: the
/// prune, whether the folder is left, and (if it is) its delete.
proof fn lemma_git_fallback(s2: RmV, pruned: Result<(bool, Option<int>), Seq<char>>, left: bool, del: Result<(), Seq<char>>, rest: Seq<EventV>)
    requires
        s2.phase == RmPhase::GitPrune,
        target_ok(s2),
    ensures
        ({
            let evs = if left {
                seq![EventV::Exited(pruned), EventV::Flag(true), EventV::Done(del)]
            } else {
                seq![EventV::Exited(pruned), EventV::Flag(false)]
            };
            let u = if left {
                on_git_dir_removed_v(RmV { phase: RmPhase::GitRemoveDir, ..s2 }, del).0
            } else {
                git_after_remove_v(RmV { phase: RmPhase::GitLeftover, ..s2 }).0
            };
            let ending = if left {
                on_git_dir_removed_v(RmV { phase: RmPhase::GitRemoveDir, ..s2 }, del).1
            } else {
                git_after_remove_v(RmV { phase: RmPhase::GitLeftover, ..s2 }).1
            };
            let before = if left {
                seq![StepV::ProbeExists(cur_dir(s2)), StepV::RemoveTree(cur_dir(s2))]
            } else {
                seq![StepV::ProbeExists(cur_dir(s2))]
            };
            &&& rm_after(s2, evs + rest) == rm_after(u, rest)
            &&& rm_steps(s2, evs + rest) == before + seq![ending] + rm_steps(u, rest)
        }),
{
    let e3 = EventV::Exited(pruned);
    let e4 = EventV::Flag(left);
    assert(rm_next_v(s2, e3) == on_git_pruned_v(s2));
    let s3 = rm_next_v(s2, e3).0;
    assert(rm_next_v(s3, e4) == on_git_leftover_v(s3, left));
    let s4 = rm_next_v(s3, e4).0;
    if left {
        let e5 = EventV::Done(del);
        assert(seq![e3, EventV::Flag(true), e5] + rest =~= seq![e3] + (seq![e4] + (seq![e5] + rest)));
        lemma_rm_cons(s2, e3, seq![e4] + (seq![e5] + rest));
        lemma_rm_cons(s3, e4, seq![e5] + rest);
        assert(rm_next_v(s4, e5) == on_git_dir_removed_v(s4, del));
        lemma_rm_cons(s4, e5, rest);
        assert(seq![rm_next_v(s2, e3).1] + (seq![rm_next_v(s3, e4).1] + (seq![rm_next_v(s4, e5).1]
            + rm_steps(rm_next_v(s4, e5).0, rest))) =~= seq![rm_next_v(s2, e3).1, rm_next_v(s3, e4).1]
            + seq![rm_next_v(s4, e5).1] + rm_steps(rm_next_v(s4, e5).0, rest));
    } else {
        assert(seq![e3, EventV::Flag(false)] + rest =~= seq![e3] + (seq![e4] + rest));
        lemma_rm_cons(s2, e3, seq![e4] + rest);
        lemma_rm_cons(s3, e4, rest);
        assert(seq![rm_next_v(s2, e3).1] + (seq![rm_next_v(s3, e4).1] + rm_steps(rm_next_v(s3, e4).0, rest))
            =~= seq![rm_next_v(s2, e3).1] + seq![rm_next_v(s3, e4).1] + rm_steps(rm_next_v(s3, e4).0, rest));
    }
}

/// Removing one target with git, as a whole: the run ends on that target's
/// closing line; it has failed exactly when the worktree remove failed, the
/// folder survived the prune, and deleting it failed; the branch
/// `<prefix><name>` is deleted exactly when it has not failed; and the cd
/// back is asked for exactly when it has not failed and the folder held the
/// current directory.
#[verifier::rlimit(40)]
pub proof fn lemma_git_removal(
    s: RmV,
    on_disk: bool,
    removed: Result<(bool, Option<int>), Seq<char>>,
    pruned: Result<(bool, Option<int>), Seq<char>>,
    left: bool,
    del: Result<(), Seq<char>>,
    prefix: RunResult,
    branch: Result<(bool, Option<int>), Seq<char>>,
)
    requires
        rm_inv(s),
        s.phase == RmPhase::TargetExists,
        target_ok(s),
        s.backend == Backend::Git,
        s.in_vcs || on_disk,
    ensures
        ({
            let es = git_removal_events(on_disk, removed, pruned, left, del, prefix, branch);
            let t = rm_after(s, es);
            let steps = rm_steps(s, es);
            let kept = !exit_ok(removed) && left && del is Err;
            let bd = StepV::RunQuiet(
                branch_delete_v(
                    s.main_repo,
                    config_str(captured("git"@, prefix), Seq::empty()) + cur_name(s),
                ),
            );
            &&& t.phase == RmPhase::Said
            &&& t.target == s.target
            &&& t.targets == s.targets
            &&& t.failed == (s.failed || kept)
            &&& t.cwd_removed == (s.cwd_removed || (!kept && holds_cwd(s)))
            &&& !kept ==> steps[steps.len() - 2] == bd
            &&& kept ==> forall|i: int| 0 <= i < steps.len() ==> #[trigger] steps[i] != bd
        }),
{
    let tail = seq![EventV::Ran(prefix), EventV::Exited(branch)];
    let es = git_removal_events(on_disk, removed, pruned, left, del, prefix, branch);
    let start = seq![EventV::Flag(on_disk), EventV::Exited(removed)];
    let s2 = on_git_removed_v(on_target_exists_v(s, on_disk).0, removed).0;
    let kept = !exit_ok(removed) && left && del is Err;
    if exit_ok(removed) {
        lemma_git_start(s, on_disk, removed, tail);
        lemma_git_tail(s2, prefix, branch);
    } else {
        let evs = if left {
            seq![EventV::Exited(pruned), EventV::Flag(true), EventV::Done(del)]
        } else {
            seq![EventV::Exited(pruned), EventV::Flag(false)]
        };
        let rest = if kept {
            Seq::<EventV>::empty()
        } else {
            tail
        };
        assert(es =~= start + (evs + rest));
        lemma_git_start(s, on_disk, removed, evs + rest);
        lemma_git_fallback(s2, pruned, left, del, rest);
        let u = if left {
            on_git_dir_removed_v(RmV { phase: RmPhase::GitRemoveDir, ..s2 }, del).0
        } else {
            git_after_remove_v(RmV { phase: RmPhase::GitLeftover, ..s2 }).0
        };
        if kept {
            assert(rm_after(u, Seq::empty()) == u);
            assert(rm_steps(u, Seq::empty()) =~= Seq::<StepV>::empty());
            let steps = rm_steps(s, es);
            let bd = StepV::RunQuiet(
                branch_delete_v(
                    s.main_repo,
                    config_str(captured("git"@, prefix), Seq::empty()) + cur_name(s),
                ),
            );
            assert(steps.len() == 5);
            assert forall|i: int| 0 <= i < steps.len() implies #[trigger] steps[i] != bd by {
                if i == 0 {
                    assert(steps[0] == on_target_exists_v(s, on_disk).1);
                    assert(steps[0]->RunQuiet_0.1.len() == 6);
                } else if i == 1 {
                    assert(steps[1]->RunQuiet_0.1.len() == 4);
                }
            }
        } else {
            lemma_git_tail(u, prefix, branch);
        }
    }
}

/// A failed argument does not stop the run: once its "no such workspace"
/// line is printed, the next argument is looked at (or, after the last, the
/// targets are removed), with the failure kept.
pub proof fn lemma_rm_goes_on_after_bad_arg(s: RmV)
    requires
        s.phase == RmPhase::ArgMissing,
        arg_ok(s),
    ensures
        rm_next_v(s, EventV::Ack) == to_arg_v(RmV { arg: s.arg + 1, ..s }),
        s.arg + 1 < s.names.len() ==> rm_next_v(s, EventV::Ack).1 == StepV::ProbeExists(
            joined_path(s.container, s.names[s.arg + 1]),
        ),
        s.failed ==> rm_next_v(s, EventV::Ack).0.failed,
{
}

/// A target's outcome, failed or not, does not stop the run: once its
/// closing line is printed, the next target is taken up (refused if it is
/// jj's `default`, else probed), and after the last the run cds back or
/// finishes.
pub proof fn lemma_rm_goes_on_after_target(s: RmV)
    requires
        s.phase == RmPhase::Said,
        target_ok(s),
    ensures
        rm_next_v(s, EventV::Ack) == to_target_v(RmV { target: s.target + 1, ..s }),
        s.target + 1 < s.targets.len() ==> ({
            let n = s.targets[s.target + 1].0;
            let step = rm_next_v(s, EventV::Ack).1;
            &&& n == "default"@ ==> step == StepV::Say(
                "wts: refusing to remove the 'default' (main) workspace"@,
            )
            &&& n != "default"@ ==> step == StepV::ProbeExists(s.targets[s.target + 1].1)
        }),
{
}

} // verus!
