//! Creating a workspace, as a machine: given the state and what the last
//! step brought back, it decides the next step. The decisions follow one
//! fixed order: container suffix and layout, the action (so an unknown one
//! fails before anything is created), the base revision, the workspace name,
//! the destination check, creation, copying untracked files, and the action.
use vstd::prelude::*;
use crate::action::{action_key, action_query, resolve_action, resolved_action, Action, ActionSpec};
use crate::backend::{
    capture, captured, command_view, config_bool, config_query_view, config_str, container_suffix,
    git_config_bool, git_config_bool_query, git_config_query, git_config_str, result_view, Backend,
    Command, RunResult,
};
use crate::copy::{
    configured_patterns, copy_glob, copy_patterns, copy_query, copy_target, glob_escaped,
    patterns_warning,
};
use crate::layout::{layout_of, mirror_candidate, mirror_subpath_from, resolve_layout};
use crate::naming::{joined_name, name_from, sanitize, sanitized};
use crate::order::sorted_set;
use crate::paths::{concat, joined_path, path_join, std_strip_prefix, str_eq};
use crate::steps::{concat3, decimal, decimal_string, opt_v, unexpected, unexpected_text, Event, Exit, Step, StepV};
use crate::text::{chars_of, find_char_from, first_or_len, string_of_range, views};

verus! {

/// What the user asked for when creating a workspace, and what the process
/// knows of its surroundings.
#[derive(Debug)]
pub struct CreateRequest {
    pub backend: Backend,
    /// The repo root the backend reported.
    pub root: String,
    /// `-r`: the base revision/ref.
    pub revision: Option<String>,
    /// `-n`: the workspace name.
    pub name: Option<String>,
    /// `-a`: the action to run.
    pub action: Option<String>,
    /// The value of `HOME`, if set.
    pub home: Option<String>,
    /// The current directory, if known.
    pub cwd: Option<String>,
}

/// Where a create run stands.
#[derive(Clone, Copy, PartialEq, Eq, Structural, Debug)]
pub enum CreatePhase {
    /// Waiting for `wts.containerSuffix` (git).
    Suffix,
    /// Waiting for `wts.action.<name>`.
    ActionConfig,
    /// Waiting for `wts.baseRef`.
    BaseRef,
    /// Waiting for jj's change id and description of the base revision.
    JjLog,
    /// Waiting for git's short hash of the base ref.
    GitShort,
    /// Waiting for git's subject of the base ref.
    GitSubject,
    /// Waiting to hear whether the destination holds anything.
    DestCheck,
    /// Waiting for the container to be created.
    MakeContainer,
    /// Waiting for the "creating workspace" line to be printed.
    Announced,
    /// Waiting for `jj workspace add`.
    JjAdd,
    /// Waiting for `wts.createBranch`.
    CreateBranch,
    /// Waiting for `wts.branchPrefix`.
    BranchPrefix,
    /// Waiting for `git worktree add`.
    GitAdd,
    /// Waiting to hear whether the base ref is a commit.
    BaseCheck,
    /// Waiting for the `wts.copy` patterns.
    CopyConfig,
    /// Waiting for the warning about them to be printed.
    CopyWarned,
    /// Waiting for a pattern's matches.
    Globbing,
    /// Waiting for the bad-pattern note to be printed.
    BadPattern,
    /// Waiting for a match to be copied.
    Copying,
    /// Waiting for the failed-copy note to be printed.
    CopyFailed,
    /// Waiting for the copy count to be printed.
    CopyReported,
    /// Waiting for the current directory and the source, canonicalized.
    MirrorCanon,
    /// Waiting to hear whether the mirrored directory exists.
    MirrorDir,
    /// Waiting for the cd to be recorded.
    Cded,
    /// Waiting for the "running action" line to be printed.
    ScriptAnnounced,
    /// Waiting for the action script.
    ScriptRun,
    /// Done.
    Finished,
}

/// A create run: the request, the phase, and what has been found so far.
#[derive(Debug)]
pub struct Create {
    pub request: CreateRequest,
    pub phase: CreatePhase,
    pub container: String,
    pub act: Option<Action>,
    pub git_base: String,
    pub short: String,
    pub workspace: String,
    pub dest: String,
    pub create_branch: bool,
    pub patterns: Vec<String>,
    pub pattern: usize,
    pub matches: Vec<String>,
    pub next_match: usize,
    pub rel: String,
    pub copied: usize,
    pub target: String,
    /// The destination was found to hold nothing.
    pub dest_free: bool,
}

/// A create run, as text.
pub struct CreateV {
    pub backend: Backend,
    pub root: Seq<char>,
    pub revision: Option<Seq<char>>,
    pub name: Option<Seq<char>>,
    pub action: Option<Seq<char>>,
    pub home: Option<Seq<char>>,
    pub cwd: Option<Seq<char>>,
    pub phase: CreatePhase,
    pub container: Seq<char>,
    pub act: Option<ActionSpec>,
    pub git_base: Seq<char>,
    pub short: Seq<char>,
    pub workspace: Seq<char>,
    pub dest: Seq<char>,
    pub create_branch: bool,
    pub patterns: Seq<Seq<char>>,
    pub pattern: int,
    pub matches: Seq<Seq<char>>,
    pub next_match: int,
    pub rel: Seq<char>,
    pub copied: int,
    pub target: Seq<char>,
    pub dest_free: bool,
}

impl View for Create {
    type V = CreateV;

    open spec fn view(&self) -> CreateV {
        CreateV {
            backend: self.request.backend,
            root: self.request.root@,
            revision: opt_v(self.request.revision),
            name: opt_v(self.request.name),
            action: opt_v(self.request.action),
            home: opt_v(self.request.home),
            cwd: opt_v(self.request.cwd),
            phase: self.phase,
            container: self.container@,
            act: match self.act {
                Some(a) => Some(a@),
                None => None,
            },
            git_base: self.git_base@,
            short: self.short@,
            workspace: self.workspace@,
            dest: self.dest@,
            create_branch: self.create_branch,
            patterns: views(self.patterns@),
            pattern: self.pattern as int,
            matches: views(self.matches@),
            next_match: self.next_match as int,
            rel: self.rel@,
            copied: self.copied as int,
            target: self.target@,
            dest_free: self.dest_free,
        }
    }
}

/// An event, as text.
pub enum EventV {
    Ran(RunResult),
    Exited(Result<(bool, Option<int>), Seq<char>>),
    Flag(bool),
    Canonical(Option<Seq<char>>, Option<Seq<char>>),
    Done(Result<(), Seq<char>>),
    Matches(Result<Seq<Seq<char>>, Seq<char>>),
    Copied(Result<int, Seq<char>>),
    Ack,
}

/// The text view of an event.
pub open spec fn event_v(e: Event) -> EventV {
    match e {
        Event::Ran(r) => EventV::Ran(r),
        Event::Exited(Ok(x)) => EventV::Exited(
            Ok(
                (
                    x.success,
                    match x.code {
                        Some(c) => Some(c as int),
                        None => None,
                    },
                ),
            ),
        ),
        Event::Exited(Err(m)) => EventV::Exited(Err(m@)),
        Event::Flag(b) => EventV::Flag(b),
        Event::Canonical(a, b) => EventV::Canonical(opt_v(a), opt_v(b)),
        Event::Done(Ok(())) => EventV::Done(Ok(())),
        Event::Done(Err(m)) => EventV::Done(Err(m@)),
        Event::Matches(Ok(ms)) => EventV::Matches(Ok(views(ms@))),
        Event::Matches(Err(m)) => EventV::Matches(Err(m@)),
        Event::Copied(Ok(n)) => EventV::Copied(Ok(n as int)),
        Event::Copied(Err(m)) => EventV::Copied(Err(m@)),
        Event::Ack => EventV::Ack,
    }
}

// ---------------------------------------------------------------------------
// The commands a create run issues
// ---------------------------------------------------------------------------

/// The program a backend's config is read with.
pub open spec fn prog(b: Backend) -> Seq<char> {
    match b {
        Backend::Jj => "jj"@,
        Backend::Git => "git"@,
    }
}

/// `git config --get <key>`, as text.
pub open spec fn git_get_v(key: Seq<char>) -> (Seq<char>, Seq<Seq<char>>) {
    ("git"@, seq!["config"@, "--get"@, key])
}

/// The jj template giving a revision's short change id and first line.
pub open spec fn jj_name_template() -> Seq<char> {
    "change_id.shortest(8) ++ \"\\t\" ++ description.first_line()"@
}

/// `jj log` of one revision's short change id and description.
pub open spec fn jj_log_v(rev: Seq<char>) -> (Seq<char>, Seq<Seq<char>>) {
    (
        "jj"@,
        seq![
            "log"@,
            "--no-graph"@,
            "--ignore-working-copy"@,
            "--limit"@,
            "1"@,
            "-r"@,
            rev,
            "-T"@,
            jj_name_template(),
        ],
    )
}

/// `git rev-parse --short <base>`.
pub open spec fn git_short_v(base: Seq<char>) -> (Seq<char>, Seq<Seq<char>>) {
    ("git"@, seq!["rev-parse"@, "--short"@, base])
}

/// `git log -1 --format=%s <base>`.
pub open spec fn git_subject_v(base: Seq<char>) -> (Seq<char>, Seq<Seq<char>>) {
    ("git"@, seq!["log"@, "-1"@, "--format=%s"@, base])
}

/// `jj workspace add --name <ws> [--revision <rev>] <dest>`.
pub open spec fn jj_add_v(ws: Seq<char>, rev: Option<Seq<char>>, dest: Seq<char>) -> (
    Seq<char>,
    Seq<Seq<char>>,
) {
    (
        "jj"@,
        seq!["workspace"@, "add"@, "--name"@, ws] + match rev {
            Some(r) => seq!["--revision"@, r],
            None => Seq::empty(),
        } + seq![dest],
    )
}

/// `git worktree add (-b <branch> | --detach) <dest> <base>`.
pub open spec fn git_add_v(create_branch: bool, branch: Seq<char>, dest: Seq<char>, base: Seq<char>) -> (
    Seq<char>,
    Seq<Seq<char>>,
) {
    (
        "git"@,
        seq!["worktree"@, "add"@] + if create_branch {
            seq!["-b"@, branch]
        } else {
            seq!["--detach"@]
        } + seq![dest, base],
    )
}

/// `git rev-parse --verify --quiet <base>^{commit}`.
pub open spec fn git_verify_v(base: Seq<char>) -> (Seq<char>, Seq<Seq<char>>) {
    ("git"@, seq!["rev-parse"@, "--verify"@, "--quiet"@, base + "^{commit}"@])
}

/// The command reading the backend's `wts.copy`.
pub open spec fn copy_query_v(b: Backend) -> (Seq<char>, Seq<Seq<char>>) {
    match b {
        Backend::Jj => ("jj"@, seq!["config"@, "list"@, "wts.copy"@]),
        Backend::Git => ("git"@, seq!["config"@, "--get-all"@, "--null"@, "wts.copy"@]),
    }
}

// ---------------------------------------------------------------------------
// The transitions, as text
// ---------------------------------------------------------------------------

/// The action asked for: `-a NAME`, else `default`.
pub open spec fn requested(s: CreateV) -> Seq<char> {
    match s.action {
        Some(a) => a,
        None => "default"@,
    }
}

/// Captured stdout, or nothing if the run failed.
pub open spec fn ok_or_empty(r: Result<Seq<char>, Seq<char>>) -> Seq<char> {
    match r {
        Ok(s) => s,
        Err(_) => Seq::empty(),
    }
}

/// The run stopped with an error message.
pub open spec fn fail_v(s: CreateV, m: Seq<char>) -> (CreateV, StepV) {
    (CreateV { phase: CreatePhase::Finished, ..s }, StepV::Fail(m))
}

/// The error for an action that resolves to nothing.
pub open spec fn no_action_text(s: CreateV) -> Seq<char> {
    match s.action {
        Some(a) => "no action '"@ + a + "' configured; set wts.action."@ + a
            + ", or use the built-in `cd`"@,
        None => "no default action configured; pass -a/--action NAME, or set one with e.g. `jj config set --user wts.action.default cd` or `git config wts.action.default cd`"@,
    }
}

/// The first step: read the container suffix (git), or go on with `-wts` (jj).
pub open spec fn start_v(s: CreateV) -> (CreateV, StepV) {
    match s.backend {
        Backend::Git => (
            CreateV { phase: CreatePhase::Suffix, ..s },
            StepV::Capture(git_get_v("wts.containerSuffix"@)),
        ),
        Backend::Jj => after_suffix_v(s, "-wts"@),
    }
}

/// With the suffix known: resolve the layout, then read the action's config.
pub open spec fn after_suffix_v(s: CreateV, suffix: Seq<char>) -> (CreateV, StepV) {
    match layout_of(s.root, suffix) {
        Err(m) => fail_v(s, m),
        Ok((c, _)) => (
            CreateV { phase: CreatePhase::ActionConfig, container: c, ..s },
            StepV::Capture(config_query_view(s.backend, action_key(requested(s)))),
        ),
    }
}

/// With the action's config read: an unknown action stops the run before
/// anything is created.
pub open spec fn on_action_v(s: CreateV, run: RunResult) -> (CreateV, StepV) {
    match resolved_action(requested(s), captured(prog(s.backend), run), s.home) {
        None => fail_v(s, no_action_text(s)),
        Some(a) => to_base_v(CreateV { act: Some(a), ..s }),
    }
}

/// The base ref: `-r`, else the `wts.baseRef` config (default `HEAD`).
pub open spec fn to_base_v(s: CreateV) -> (CreateV, StepV) {
    match s.revision {
        Some(r) => to_naming_v(CreateV { git_base: r, ..s }),
        None => (
            CreateV { phase: CreatePhase::BaseRef, ..s },
            StepV::Capture(git_get_v("wts.baseRef"@)),
        ),
    }
}

/// The workspace name: `-n`, sanitized; else derived from the base revision.
pub open spec fn to_naming_v(s: CreateV) -> (CreateV, StepV) {
    match s.name {
        Some(n) => to_dest_v(CreateV { workspace: sanitized(n), ..s }),
        None => match s.backend {
            Backend::Jj => (
                CreateV { phase: CreatePhase::JjLog, ..s },
                StepV::Capture(
                    jj_log_v(
                        match s.revision {
                            Some(r) => r,
                            None => "@-"@,
                        },
                    ),
                ),
            ),
            Backend::Git => (
                CreateV { phase: CreatePhase::GitShort, ..s },
                StepV::Capture(git_short_v(s.git_base)),
            ),
        },
    }
}

/// `raw` split at its first tab; all of it and nothing when there is none.
pub open spec fn split_tab(raw: Seq<char>) -> (Seq<char>, Seq<char>) {
    let e = first_or_len(raw, '\t');
    if e < raw.len() {
        (raw.take(e), raw.skip(e + 1))
    } else {
        (raw, Seq::empty())
    }
}

/// With jj's `<change id>\t<description>` of the base revision.
pub open spec fn on_jj_log_v(s: CreateV, run: RunResult) -> (CreateV, StepV) {
    let parts = split_tab(ok_or_empty(captured("jj"@, run)));
    to_dest_v(CreateV { workspace: sanitized(joined_name(parts.0, parts.1)), ..s })
}

/// With git's short hash of the base ref.
pub open spec fn on_git_short_v(s: CreateV, run: RunResult) -> (CreateV, StepV) {
    (
        CreateV {
            phase: CreatePhase::GitSubject,
            short: ok_or_empty(captured("git"@, run)),
            ..s
        },
        StepV::Capture(git_subject_v(s.git_base)),
    )
}

/// With git's subject of the base ref.
pub open spec fn on_git_subject_v(s: CreateV, run: RunResult) -> (CreateV, StepV) {
    to_dest_v(
        CreateV {
            workspace: sanitized(joined_name(s.short, ok_or_empty(captured("git"@, run)))),
            ..s
        },
    )
}

/// With the name known: refuse an empty one, then check the destination.
pub open spec fn to_dest_v(s: CreateV) -> (CreateV, StepV) {
    if s.workspace.len() == 0 {
        fail_v(s, "derived workspace name is empty; pass --name NAME"@)
    } else {
        let d = joined_path(s.container, s.workspace);
        (CreateV { phase: CreatePhase::DestCheck, dest: d, ..s }, StepV::ProbeNonEmpty(d))
    }
}

/// A destination that already holds files is refused.
pub open spec fn on_dest_v(s: CreateV, nonempty: bool) -> (CreateV, StepV) {
    if nonempty {
        fail_v(s, "destination already exists and is not empty: "@ + s.dest)
    } else {
        (
            CreateV { phase: CreatePhase::MakeContainer, dest_free: true, ..s },
            StepV::MakeDirs(s.container),
        )
    }
}

/// With the container created, announce the new workspace.
pub open spec fn on_made_v(s: CreateV, r: Result<(), Seq<char>>) -> (CreateV, StepV) {
    match r {
        Err(e) => fail_v(s, "cannot create "@ + s.container + ": "@ + e),
        Ok(_) => (
            CreateV { phase: CreatePhase::Announced, ..s },
            StepV::Say("wts: creating workspace '"@ + s.workspace + "' at "@ + s.dest),
        ),
    }
}

/// Add the workspace: jj directly; git after reading its branch knobs.
pub open spec fn on_announced_v(s: CreateV) -> (CreateV, StepV) {
    match s.backend {
        Backend::Jj => (
            CreateV { phase: CreatePhase::JjAdd, ..s },
            StepV::Run(jj_add_v(s.workspace, s.revision, s.dest)),
        ),
        Backend::Git => (
            CreateV { phase: CreatePhase::CreateBranch, ..s },
            StepV::Capture(("git"@, seq!["config"@, "--type=bool"@, "--get"@, "wts.createBranch"@])),
        ),
    }
}

/// With `jj workspace add` done.
pub open spec fn on_jj_add_v(s: CreateV, r: Result<(bool, Option<int>), Seq<char>>) -> (CreateV, StepV) {
    match r {
        Err(e) => fail_v(s, "failed to run jj: "@ + e),
        Ok((ok, _)) => if ok {
            to_copy_v(s)
        } else {
            fail_v(s, "jj workspace add failed"@)
        },
    }
}

/// With `wts.createBranch` read (default true).
pub open spec fn on_create_branch_v(s: CreateV, run: RunResult) -> (CreateV, StepV) {
    (
        CreateV {
            phase: CreatePhase::BranchPrefix,
            create_branch: config_bool(captured("git"@, run), true),
            ..s
        },
        StepV::Capture(git_get_v("wts.branchPrefix"@)),
    )
}

/// With `wts.branchPrefix` read: add the worktree on a branch named after
/// it (prefixed), or detached.
pub open spec fn on_branch_prefix_v(s: CreateV, run: RunResult) -> (CreateV, StepV) {
    (
        CreateV { phase: CreatePhase::GitAdd, ..s },
        StepV::Run(
            git_add_v(
                s.create_branch,
                config_str(captured("git"@, run), Seq::empty()) + s.workspace,
                s.dest,
                s.git_base,
            ),
        ),
    )
}

/// With `git worktree add` done; on failure, check the base ref for a hint.
pub open spec fn on_git_add_v(s: CreateV, r: Result<(bool, Option<int>), Seq<char>>) -> (CreateV, StepV) {
    match r {
        Err(e) => fail_v(s, "failed to run git: "@ + e),
        Ok((ok, _)) => if ok {
            to_copy_v(s)
        } else {
            (
                CreateV { phase: CreatePhase::BaseCheck, ..s },
                StepV::Capture(git_verify_v(s.git_base)),
            )
        },
    }
}

/// The hint for a repo without commits.
pub open spec fn no_commits_text() -> Seq<char> {
    "the repo has no commits yet — make an initial commit (e.g. `git commit --allow-empty -m init`) before creating a worktree"@
}

/// Why `git worktree add` failed, as far as wts can tell.
pub open spec fn on_base_check_v(s: CreateV, run: RunResult) -> (CreateV, StepV) {
    match captured("git"@, run) {
        Err(_) => if s.git_base == "HEAD"@ {
            fail_v(s, no_commits_text())
        } else {
            fail_v(
                s,
                "base ref '"@ + s.git_base + "' doesn't resolve to a commit; pass -r with a valid ref"@,
            )
        },
        Ok(_) => fail_v(s, "git worktree add failed (see git's message above)"@),
    }
}

/// With the workspace added: read the copy patterns.
pub open spec fn to_copy_v(s: CreateV) -> (CreateV, StepV) {
    (CreateV { phase: CreatePhase::CopyConfig, ..s }, StepV::Capture(copy_query_v(s.backend)))
}

/// With the patterns read: warn if they did not parse, then glob each.
pub open spec fn on_copy_config_v(s: CreateV, run: RunResult) -> (CreateV, StepV) {
    let t = CreateV {
        patterns: sorted_set(configured_patterns(s.backend, run)),
        pattern: 0,
        copied: 0,
        ..s
    };
    match patterns_warning(s.backend, run) {
        Some(w) => (CreateV { phase: CreatePhase::CopyWarned, ..t }, StepV::Say(w)),
        None => to_glob_v(t),
    }
}

/// The copy count line.
pub open spec fn copied_text(n: int) -> Seq<char> {
    "wts: copied "@ + decimal(n as nat) + " file(s) into the new workspace"@
}

/// Glob the next pattern; after the last, report the count (if any) and
/// run the action.
pub open spec fn to_glob_v(s: CreateV) -> (CreateV, StepV) {
    if 0 <= s.pattern < s.patterns.len() {
        (
            CreateV { phase: CreatePhase::Globbing, ..s },
            StepV::Glob(glob_escaped(s.root) + "/"@ + s.patterns[s.pattern]),
        )
    } else if s.copied > 0 {
        (CreateV { phase: CreatePhase::CopyReported, ..s }, StepV::Say(copied_text(s.copied)))
    } else {
        to_action_v(s)
    }
}

/// On to the next pattern.
pub open spec fn next_pattern_v(s: CreateV) -> (CreateV, StepV) {
    to_glob_v(CreateV { pattern: s.pattern + 1, ..s })
}

/// With a pattern's matches (or its error).
pub open spec fn on_matches_v(s: CreateV, r: Result<Seq<Seq<char>>, Seq<char>>) -> (CreateV, StepV) {
    match r {
        Err(e) => (
            CreateV { phase: CreatePhase::BadPattern, ..s },
            StepV::Say("wts: ignoring bad wts.copy pattern '"@ + s.patterns[s.pattern] + "': "@ + e),
        ),
        Ok(ms) => to_match_v(CreateV { matches: ms, next_match: 0, ..s }),
    }
}

/// The first match from `from` on that lies under `root`.
pub open spec fn first_copyable(ms: Seq<Seq<char>>, root: Seq<char>, from: int) -> int
    decreases ms.len() - from,
{
    if from < 0 || from >= ms.len() {
        ms.len() as int
    } else if std_strip_prefix(ms[from], root) is Some {
        from
    } else {
        first_copyable(ms, root, from + 1)
    }
}

/// Copy the next match under the source into the new workspace; after the
/// last, on to the next pattern.
pub open spec fn to_match_v(s: CreateV) -> (CreateV, StepV) {
    let k = first_copyable(s.matches, s.root, s.next_match);
    if 0 <= k < s.matches.len() {
        let rel = std_strip_prefix(s.matches[k], s.root)->0;
        (
            CreateV { phase: CreatePhase::Copying, rel: rel, next_match: k + 1, ..s },
            StepV::CopyPath(s.matches[k], joined_path(s.dest, rel)),
        )
    } else {
        next_pattern_v(s)
    }
}

/// `a + b`, held at `usize::MAX`.
pub open spec fn saturated(a: int, b: int) -> int {
    if a + b > usize::MAX {
        usize::MAX as int
    } else {
        a + b
    }
}

/// With a match copied (counting the files), or a note of why not.
pub open spec fn on_copied_v(s: CreateV, r: Result<int, Seq<char>>) -> (CreateV, StepV) {
    match r {
        Ok(n) => to_match_v(CreateV { copied: saturated(s.copied, n), ..s }),
        Err(e) => (
            CreateV { phase: CreatePhase::CopyFailed, ..s },
            StepV::Say("wts: failed to copy "@ + s.rel + ": "@ + e),
        ),
    }
}

/// Run the action: the built-in cd (mirroring the subdirectory when the
/// current directory is known), or the script.
pub open spec fn to_action_v(s: CreateV) -> (CreateV, StepV) {
    match s.act {
        Some(ActionSpec::Cd) => match s.cwd {
            None => (CreateV { phase: CreatePhase::Cded, ..s }, StepV::Cd(s.dest)),
            Some(c) => (
                CreateV { phase: CreatePhase::MirrorCanon, ..s },
                StepV::Canonicalize(Some(c), s.root),
            ),
        },
        Some(ActionSpec::Script(sc)) => (
            CreateV { phase: CreatePhase::ScriptAnnounced, ..s },
            StepV::Say("wts: running action ("@ + sc + ")"@),
        ),
        None => fail_v(s, unexpected_text()),
    }
}

/// With the current directory and the source canonicalized (each left as
/// it was where that failed): the mirrored directory, if there is one.
pub open spec fn on_canon_v(s: CreateV, a: Option<Seq<char>>, b: Option<Seq<char>>) -> (
    CreateV,
    StepV,
) {
    let cwd = match a {
        Some(x) => x,
        None => match s.cwd {
            Some(c) => c,
            None => Seq::empty(),
        },
    };
    let src = match b {
        Some(x) => x,
        None => s.root,
    };
    match mirror_candidate(src, s.dest, cwd) {
        Some(t) => (CreateV { phase: CreatePhase::MirrorDir, target: t, ..s }, StepV::ProbeIsDir(t)),
        None => (CreateV { phase: CreatePhase::Cded, ..s }, StepV::Cd(s.dest)),
    }
}

/// The script of the resolved action.
pub open spec fn script_of(s: CreateV) -> Seq<char> {
    match s.act {
        Some(ActionSpec::Script(sc)) => sc,
        _ => Seq::empty(),
    }
}

/// The next state and step of a create run, given what the last step brought.
pub open spec fn create_next_v(s: CreateV, e: EventV) -> (CreateV, StepV) {
    match (s.phase, e) {
        (CreatePhase::Suffix, EventV::Ran(run)) => after_suffix_v(
            s,
            config_str(captured("git"@, run), "-wts"@),
        ),
        (CreatePhase::ActionConfig, EventV::Ran(run)) => on_action_v(s, run),
        (CreatePhase::BaseRef, EventV::Ran(run)) => to_naming_v(
            CreateV { git_base: config_str(captured("git"@, run), "HEAD"@), ..s },
        ),
        (CreatePhase::JjLog, EventV::Ran(run)) => on_jj_log_v(s, run),
        (CreatePhase::GitShort, EventV::Ran(run)) => on_git_short_v(s, run),
        (CreatePhase::GitSubject, EventV::Ran(run)) => on_git_subject_v(s, run),
        (CreatePhase::DestCheck, EventV::Flag(b)) => on_dest_v(s, b),
        (CreatePhase::MakeContainer, EventV::Done(r)) => on_made_v(s, r),
        (CreatePhase::Announced, EventV::Ack) => on_announced_v(s),
        (CreatePhase::JjAdd, EventV::Exited(r)) => on_jj_add_v(s, r),
        (CreatePhase::CreateBranch, EventV::Ran(run)) => on_create_branch_v(s, run),
        (CreatePhase::BranchPrefix, EventV::Ran(run)) => on_branch_prefix_v(s, run),
        (CreatePhase::GitAdd, EventV::Exited(r)) => on_git_add_v(s, r),
        (CreatePhase::BaseCheck, EventV::Ran(run)) => on_base_check_v(s, run),
        (CreatePhase::CopyConfig, EventV::Ran(run)) => on_copy_config_v(s, run),
        (CreatePhase::CopyWarned, EventV::Ack) => to_glob_v(s),
        (CreatePhase::Globbing, EventV::Matches(r)) => if s.pattern < s.patterns.len() {
            on_matches_v(s, r)
        } else {
            fail_v(s, unexpected_text())
        },
        (CreatePhase::BadPattern, EventV::Ack) => if s.pattern < usize::MAX {
            next_pattern_v(s)
        } else {
            fail_v(s, unexpected_text())
        },
        (CreatePhase::Copying, EventV::Copied(r)) => if s.pattern < s.patterns.len() {
            on_copied_v(s, r)
        } else {
            fail_v(s, unexpected_text())
        },
        (CreatePhase::CopyFailed, EventV::Ack) => if s.pattern < s.patterns.len() {
            to_match_v(s)
        } else {
            fail_v(s, unexpected_text())
        },
        (CreatePhase::CopyReported, EventV::Ack) => to_action_v(s),
        (CreatePhase::MirrorCanon, EventV::Canonical(a, b)) => on_canon_v(s, a, b),
        (CreatePhase::MirrorDir, EventV::Flag(b)) => (
            CreateV { phase: CreatePhase::Cded, ..s },
            StepV::Cd(
                if b {
                    s.target
                } else {
                    s.dest
                },
            ),
        ),
        (CreatePhase::Cded, EventV::Ack) => (
            CreateV { phase: CreatePhase::Finished, ..s },
            StepV::Finish(0),
        ),
        (CreatePhase::ScriptAnnounced, EventV::Ack) => (
            CreateV { phase: CreatePhase::ScriptRun, ..s },
            StepV::RunScript(script_of(s), s.dest),
        ),
        (CreatePhase::ScriptRun, EventV::Exited(r)) => match r {
            Err(m) => fail_v(s, "failed to run action '"@ + script_of(s) + "': "@ + m),
            Ok((ok, code)) => (
                CreateV { phase: CreatePhase::Finished, ..s },
                StepV::Finish(
                    if ok {
                        0
                    } else {
                        match code {
                            Some(c) => c,
                            None => 1,
                        }
                    },
                ),
            ),
        },
        _ => fail_v(s, unexpected_text()),
    }
}

// ---------------------------------------------------------------------------
// The machine
// ---------------------------------------------------------------------------

/// A fresh run for `request`, before its first step.
pub open spec fn fresh_v(request: CreateRequest) -> CreateV {
    CreateV {
        backend: request.backend,
        root: request.root@,
        revision: opt_v(request.revision),
        name: opt_v(request.name),
        action: opt_v(request.action),
        home: opt_v(request.home),
        cwd: opt_v(request.cwd),
        phase: CreatePhase::Suffix,
        container: Seq::empty(),
        act: None,
        git_base: Seq::empty(),
        short: Seq::empty(),
        workspace: Seq::empty(),
        dest: Seq::empty(),
        create_branch: true,
        patterns: Seq::empty(),
        pattern: 0,
        matches: Seq::empty(),
        next_match: 0,
        rel: Seq::empty(),
        copied: 0,
        target: Seq::empty(),
        dest_free: false,
    }
}

/// `v` with `a` appended.
fn push_arg(v: &mut Vec<String>, a: &str)
    ensures
        views(final(v)@) == views(old(v)@).push(a@),
{
    let ghost prev = v@;
    let s = a.to_owned();
    v.push(s);
    assert(views(v@) =~= views(prev).push(s@));
}

/// A command for `program` with the given arguments.
fn command_of(program: &str, args: Vec<String>) -> (c: Command)
    ensures
        command_view(c) == (program@, views(args@)),
{
    Command { program: program.to_owned(), args }
}

fn fail(st: Create, m: String) -> (r: (Create, Step))
    ensures
        (r.0@, r.1@) == fail_v(st@, m@),
{
    let mut s = st;
    s.phase = CreatePhase::Finished;
    (s, Step::Fail(m))
}

fn requested_action(action: &Option<String>) -> (r: String)
    ensures
        r@ == match opt_v(*action) {
            Some(a) => a,
            None => "default"@,
        },
{
    match action {
        Some(a) => a.clone(),
        None => "default".to_owned(),
    }
}

fn ok_or_empty_exec(r: Result<String, String>) -> (s: String)
    ensures
        s@ == ok_or_empty(result_view(r)),
{
    match r {
        Ok(s) => s,
        Err(_) => String::new(),
    }
}

fn prog_of(b: Backend) -> (p: &'static str)
    ensures
        p@ == prog(b),
{
    match b {
        Backend::Jj => "jj",
        Backend::Git => "git",
    }
}

fn git_get(key: &str) -> (c: Command)
    ensures
        command_view(c) == git_get_v(key@),
{
    git_config_query(key)
}

/// Starts a create run: the first state and step.
pub fn create_start(request: CreateRequest) -> (r: (Create, Step))
    ensures
        (r.0@, r.1@) == start_v(fresh_v(request)),
{
    let s = Create {
        request,
        phase: CreatePhase::Suffix,
        container: String::new(),
        act: None,
        git_base: String::new(),
        short: String::new(),
        workspace: String::new(),
        dest: String::new(),
        create_branch: true,
        patterns: Vec::new(),
        pattern: 0,
        matches: Vec::new(),
        next_match: 0,
        rel: String::new(),
        copied: 0,
        target: String::new(),
        dest_free: false,
    };
    assert(s@ == fresh_v(s.request)) by {
        assert(views(s.patterns@) =~= Seq::<Seq<char>>::empty());
        assert(views(s.matches@) =~= Seq::<Seq<char>>::empty());
    }
    match s.request.backend {
        Backend::Git => (s, Step::Capture(git_get("wts.containerSuffix"))),
        Backend::Jj => after_suffix(s, "-wts".to_owned()),
    }
}

fn after_suffix(st: Create, suffix: String) -> (r: (Create, Step))
    ensures
        (r.0@, r.1@) == after_suffix_v(st@, suffix@),
{
    let mut s = st;
    match resolve_layout(s.request.root.as_str(), suffix.as_str()) {
        Err(m) => fail(s, m),
        Ok((c, _)) => {
            let req = requested_action(&s.request.action);
            let q = action_query(s.request.backend, req.as_str());
            s.container = c;
            s.phase = CreatePhase::ActionConfig;
            (s, Step::Capture(q))
        },
    }
}

fn no_action_message(action: &Option<String>) -> (m: String)
    ensures
        m@ == match opt_v(*action) {
            Some(a) => "no action '"@ + a + "' configured; set wts.action."@ + a
                + ", or use the built-in `cd`"@,
            None => "no default action configured; pass -a/--action NAME, or set one with e.g. `jj config set --user wts.action.default cd` or `git config wts.action.default cd`"@,
        },
{
    match action {
        Some(a) => {
            let x = concat3("no action '", a.as_str(), "' configured; set wts.action.");
            concat3(x.as_str(), a.as_str(), ", or use the built-in `cd`")
        },
        None => "no default action configured; pass -a/--action NAME, or set one with e.g. `jj config set --user wts.action.default cd` or `git config wts.action.default cd`".to_owned(),
    }
}

fn on_action(st: Create, run: RunResult) -> (r: (Create, Step))
    ensures
        (r.0@, r.1@) == on_action_v(st@, run),
{
    let mut s = st;
    let answer = capture(prog_of(s.request.backend), &run);
    let req = requested_action(&s.request.action);
    match resolve_action(req.as_str(), &answer, &s.request.home) {
        None => {
            let m = no_action_message(&s.request.action);
            fail(s, m)
        },
        Some(a) => {
            s.act = Some(a);
            to_base(s)
        },
    }
}

fn to_base(st: Create) -> (r: (Create, Step))
    ensures
        (r.0@, r.1@) == to_base_v(st@),
{
    let mut s = st;
    match &s.request.revision {
        Some(rev) => {
            s.git_base = rev.clone();
            to_naming(s)
        },
        None => {
            s.phase = CreatePhase::BaseRef;
            (s, Step::Capture(git_get("wts.baseRef")))
        },
    }
}

fn jj_log_query(rev: &str) -> (c: Command)
    ensures
        command_view(c) == jj_log_v(rev@),
{
    let mut a: Vec<String> = Vec::new();
    push_arg(&mut a, "log");
    push_arg(&mut a, "--no-graph");
    push_arg(&mut a, "--ignore-working-copy");
    push_arg(&mut a, "--limit");
    push_arg(&mut a, "1");
    push_arg(&mut a, "-r");
    push_arg(&mut a, rev);
    push_arg(&mut a, "-T");
    push_arg(&mut a, "change_id.shortest(8) ++ \"\\t\" ++ description.first_line()");
    let c = command_of("jj", a);
    assert(command_view(c).1 =~= jj_log_v(rev@).1);
    c
}

fn git_short_query(base: &str) -> (c: Command)
    ensures
        command_view(c) == git_short_v(base@),
{
    let mut a: Vec<String> = Vec::new();
    push_arg(&mut a, "rev-parse");
    push_arg(&mut a, "--short");
    push_arg(&mut a, base);
    let c = command_of("git", a);
    assert(command_view(c).1 =~= git_short_v(base@).1);
    c
}

fn git_subject_query(base: &str) -> (c: Command)
    ensures
        command_view(c) == git_subject_v(base@),
{
    let mut a: Vec<String> = Vec::new();
    push_arg(&mut a, "log");
    push_arg(&mut a, "-1");
    push_arg(&mut a, "--format=%s");
    push_arg(&mut a, base);
    let c = command_of("git", a);
    assert(command_view(c).1 =~= git_subject_v(base@).1);
    c
}

fn to_naming(st: Create) -> (r: (Create, Step))
    ensures
        (r.0@, r.1@) == to_naming_v(st@),
{
    let mut s = st;
    match &s.request.name {
        Some(n) => {
            s.workspace = sanitize(n.as_str());
            to_dest(s)
        },
        None => match s.request.backend {
            Backend::Jj => {
                let rev = match &s.request.revision {
                    Some(r) => r.clone(),
                    None => "@-".to_owned(),
                };
                s.phase = CreatePhase::JjLog;
                (s, Step::Capture(jj_log_query(rev.as_str())))
            },
            Backend::Git => {
                s.phase = CreatePhase::GitShort;
                let q = git_short_query(s.git_base.as_str());
                (s, Step::Capture(q))
            },
        },
    }
}

/// `raw` split at its first tab (as `split_once('\t')`, falling back to
/// all of it and nothing).
pub fn split_at_tab(raw: &str) -> (r: (String, String))
    ensures
        (r.0@, r.1@) == split_tab(raw@),
{
    let v = chars_of(raw);
    let e = find_char_from(&v, 0, '\t');
    assert(v@.skip(0) =~= v@);
    if e < v.len() {
        assert(v@.subrange(0, e as int) =~= v@.take(e as int));
        assert(v@.subrange(e + 1, v.len() as int) =~= v@.skip(e + 1));
        (string_of_range(&v, 0, e), string_of_range(&v, e + 1, v.len()))
    } else {
        (raw.to_owned(), String::new())
    }
}

fn on_jj_log(st: Create, run: RunResult) -> (r: (Create, Step))
    ensures
        (r.0@, r.1@) == on_jj_log_v(st@, run),
{
    let mut s = st;
    let raw = ok_or_empty_exec(capture("jj", &run));
    let (short, desc) = split_at_tab(raw.as_str());
    let joined = name_from(short.as_str(), desc.as_str());
    s.workspace = sanitize(joined.as_str());
    to_dest(s)
}

fn on_git_short(st: Create, run: RunResult) -> (r: (Create, Step))
    ensures
        (r.0@, r.1@) == on_git_short_v(st@, run),
{
    let mut s = st;
    s.short = ok_or_empty_exec(capture("git", &run));
    s.phase = CreatePhase::GitSubject;
    let q = git_subject_query(s.git_base.as_str());
    (s, Step::Capture(q))
}

fn on_git_subject(st: Create, run: RunResult) -> (r: (Create, Step))
    ensures
        (r.0@, r.1@) == on_git_subject_v(st@, run),
{
    let mut s = st;
    let subj = ok_or_empty_exec(capture("git", &run));
    let joined = name_from(s.short.as_str(), subj.as_str());
    s.workspace = sanitize(joined.as_str());
    to_dest(s)
}

fn to_dest(st: Create) -> (r: (Create, Step))
    ensures
        (r.0@, r.1@) == to_dest_v(st@),
{
    let mut s = st;
    if s.workspace.as_str().is_empty() {
        fail(s, "derived workspace name is empty; pass --name NAME".to_owned())
    } else {
        let d = path_join(s.container.as_str(), s.workspace.as_str());
        s.dest = d.clone();
        s.phase = CreatePhase::DestCheck;
        (s, Step::ProbeNonEmpty(d))
    }
}

fn on_dest(st: Create, nonempty: bool) -> (r: (Create, Step))
    ensures
        (r.0@, r.1@) == on_dest_v(st@, nonempty),
{
    let mut s = st;
    if nonempty {
        let m = concat("destination already exists and is not empty: ", s.dest.as_str());
        fail(s, m)
    } else {
        s.phase = CreatePhase::MakeContainer;
        s.dest_free = true;
        let c = s.container.clone();
        (s, Step::MakeDirs(c))
    }
}

fn on_made(st: Create, r: Result<(), String>) -> (out: (Create, Step))
    ensures
        (out.0@, out.1@) == on_made_v(
            st@,
            match r {
                Ok(_) => Ok(()),
                Err(e) => Err(e@),
            },
        ),
{
    let mut s = st;
    match r {
        Err(e) => {
            let a = concat3("cannot create ", s.container.as_str(), ": ");
            let m = concat(a.as_str(), e.as_str());
            fail(s, m)
        },
        Ok(_) => {
            let a = concat3("wts: creating workspace '", s.workspace.as_str(), "' at ");
            let m = concat(a.as_str(), s.dest.as_str());
            s.phase = CreatePhase::Announced;
            (s, Step::Say(m))
        },
    }
}

fn jj_add_query(ws: &str, rev: &Option<String>, dest: &str) -> (c: Command)
    ensures
        command_view(c) == jj_add_v(ws@, opt_v(*rev), dest@),
{
    let mut a: Vec<String> = Vec::new();
    push_arg(&mut a, "workspace");
    push_arg(&mut a, "add");
    push_arg(&mut a, "--name");
    push_arg(&mut a, ws);
    if let Some(r) = rev {
        push_arg(&mut a, "--revision");
        push_arg(&mut a, r.as_str());
    }
    push_arg(&mut a, dest);
    let c = command_of("jj", a);
    assert(command_view(c).1 =~= jj_add_v(ws@, opt_v(*rev), dest@).1);
    c
}

fn on_announced(st: Create) -> (r: (Create, Step))
    ensures
        (r.0@, r.1@) == on_announced_v(st@),
{
    let mut s = st;
    match s.request.backend {
        Backend::Jj => {
            let q = jj_add_query(s.workspace.as_str(), &s.request.revision, s.dest.as_str());
            s.phase = CreatePhase::JjAdd;
            (s, Step::Run(q))
        },
        Backend::Git => {
            s.phase = CreatePhase::CreateBranch;
            (s, Step::Capture(git_config_bool_query("wts.createBranch")))
        },
    }
}

/// How a run ended, as text.
pub open spec fn exit_v(r: Result<Exit, String>) -> Result<(bool, Option<int>), Seq<char>> {
    match r {
        Ok(x) => Ok(
            (
                x.success,
                match x.code {
                    Some(c) => Some(c as int),
                    None => None,
                },
            ),
        ),
        Err(m) => Err(m@),
    }
}

fn on_jj_add(s: Create, r: Result<Exit, String>) -> (out: (Create, Step))
    ensures
        (out.0@, out.1@) == on_jj_add_v(s@, exit_v(r)),
{
    match r {
        Err(e) => {
            let m = concat("failed to run jj: ", e.as_str());
            fail(s, m)
        },
        Ok(x) => {
            if x.success {
                to_copy(s)
            } else {
                fail(s, "jj workspace add failed".to_owned())
            }
        },
    }
}

fn on_create_branch(st: Create, run: RunResult) -> (r: (Create, Step))
    ensures
        (r.0@, r.1@) == on_create_branch_v(st@, run),
{
    let mut s = st;
    let answer = capture("git", &run);
    s.create_branch = git_config_bool(&answer, true);
    s.phase = CreatePhase::BranchPrefix;
    (s, Step::Capture(git_get("wts.branchPrefix")))
}

fn git_add_query(create_branch: bool, branch: &str, dest: &str, base: &str) -> (c: Command)
    ensures
        command_view(c) == git_add_v(create_branch, branch@, dest@, base@),
{
    let mut a: Vec<String> = Vec::new();
    push_arg(&mut a, "worktree");
    push_arg(&mut a, "add");
    if create_branch {
        push_arg(&mut a, "-b");
        push_arg(&mut a, branch);
    } else {
        push_arg(&mut a, "--detach");
    }
    push_arg(&mut a, dest);
    push_arg(&mut a, base);
    let c = command_of("git", a);
    assert(command_view(c).1 =~= git_add_v(create_branch, branch@, dest@, base@).1);
    c
}

fn on_branch_prefix(st: Create, run: RunResult) -> (r: (Create, Step))
    ensures
        (r.0@, r.1@) == on_branch_prefix_v(st@, run),
{
    let mut s = st;
    let answer = capture("git", &run);
    let prefix = git_config_str(&answer, "");
    proof {
        reveal_strlit("");
        assert(""@ =~= Seq::<char>::empty());
    }
    let branch = concat(prefix.as_str(), s.workspace.as_str());
    let q = git_add_query(s.create_branch, branch.as_str(), s.dest.as_str(), s.git_base.as_str());
    s.phase = CreatePhase::GitAdd;
    (s, Step::Run(q))
}

fn git_verify_query(base: &str) -> (c: Command)
    ensures
        command_view(c) == git_verify_v(base@),
{
    let mut a: Vec<String> = Vec::new();
    push_arg(&mut a, "rev-parse");
    push_arg(&mut a, "--verify");
    push_arg(&mut a, "--quiet");
    let target = concat(base, "^{commit}");
    push_arg(&mut a, target.as_str());
    let c = command_of("git", a);
    assert(command_view(c).1 =~= git_verify_v(base@).1);
    c
}

fn on_git_add(st: Create, r: Result<Exit, String>) -> (out: (Create, Step))
    ensures
        (out.0@, out.1@) == on_git_add_v(st@, exit_v(r)),
{
    let mut s = st;
    match r {
        Err(e) => {
            let m = concat("failed to run git: ", e.as_str());
            fail(s, m)
        },
        Ok(x) => {
            if x.success {
                to_copy(s)
            } else {
                let q = git_verify_query(s.git_base.as_str());
                s.phase = CreatePhase::BaseCheck;
                (s, Step::Capture(q))
            }
        },
    }
}

fn on_base_check(s: Create, run: RunResult) -> (r: (Create, Step))
    ensures
        (r.0@, r.1@) == on_base_check_v(s@, run),
{
    match capture("git", &run) {
        Err(_) => {
            if str_eq(s.git_base.as_str(), "HEAD") {
                fail(s, "the repo has no commits yet — make an initial commit (e.g. `git commit --allow-empty -m init`) before creating a worktree".to_owned())
            } else {
                let m = concat3(
                    "base ref '",
                    s.git_base.as_str(),
                    "' doesn't resolve to a commit; pass -r with a valid ref",
                );
                fail(s, m)
            }
        },
        Ok(_) => fail(s, "git worktree add failed (see git's message above)".to_owned()),
    }
}

fn to_copy(st: Create) -> (r: (Create, Step))
    ensures
        (r.0@, r.1@) == to_copy_v(st@),
{
    let mut s = st;
    s.phase = CreatePhase::CopyConfig;
    let q = copy_query(s.request.backend);
    (s, Step::Capture(q))
}

fn on_copy_config(st: Create, run: RunResult) -> (r: (Create, Step))
    ensures
        (r.0@, r.1@) == on_copy_config_v(st@, run),
{
    let mut s = st;
    let (pats, warn) = copy_patterns(s.request.backend, &run);
    s.patterns = pats;
    s.pattern = 0;
    s.copied = 0;
    match warn {
        Some(w) => {
            s.phase = CreatePhase::CopyWarned;
            (s, Step::Say(w))
        },
        None => to_glob(s),
    }
}

fn copied_message(n: usize) -> (m: String)
    ensures
        m@ == copied_text(n as int),
{
    let d = decimal_string(n);
    concat3("wts: copied ", d.as_str(), " file(s) into the new workspace")
}

fn to_glob(st: Create) -> (r: (Create, Step))
    ensures
        (r.0@, r.1@) == to_glob_v(st@),
{
    let mut s = st;
    if s.pattern < s.patterns.len() {
        let g = copy_glob(s.request.root.as_str(), s.patterns[s.pattern].as_str());
        assert(views(s.patterns@)[s.pattern as int] == s.patterns@[s.pattern as int]@);
        s.phase = CreatePhase::Globbing;
        (s, Step::Glob(g))
    } else if s.copied > 0 {
        let m = copied_message(s.copied);
        s.phase = CreatePhase::CopyReported;
        (s, Step::Say(m))
    } else {
        to_action(s)
    }
}

fn next_pattern(st: Create) -> (r: (Create, Step))
    requires
        st.pattern < usize::MAX,
    ensures
        (r.0@, r.1@) == next_pattern_v(st@),
{
    let mut s = st;
    s.pattern = s.pattern + 1;
    to_glob(s)
}

fn on_matches(st: Create, r: Result<Vec<String>, String>) -> (out: (Create, Step))
    requires
        st@.pattern < st@.patterns.len(),
    ensures
        (out.0@, out.1@) == on_matches_v(
            st@,
            match r {
                Ok(ms) => Ok(views(ms@)),
                Err(e) => Err(e@),
            },
        ),
{
    let mut s = st;
    match r {
        Err(e) => {
            let a = concat3("wts: ignoring bad wts.copy pattern '", s.patterns[s.pattern].as_str(), "': ");
            assert(views(s.patterns@)[s.pattern as int] == s.patterns@[s.pattern as int]@);
            let m = concat(a.as_str(), e.as_str());
            s.phase = CreatePhase::BadPattern;
            (s, Step::Say(m))
        },
        Ok(ms) => {
            s.matches = ms;
            s.next_match = 0;
            to_match(s)
        },
    }
}

fn to_match(st: Create) -> (r: (Create, Step))
    requires
        st@.pattern < st@.patterns.len(),
    ensures
        (r.0@, r.1@) == to_match_v(st@),
{
    let mut s = st;
    let ghost s0 = s@;
    let plen = s.patterns.len();
    let mut k = s.next_match;
    if k > s.matches.len() {
        k = s.matches.len();
    }
    while k < s.matches.len()
        invariant
            s@ == s0,
            st@ == s0,
            s0.pattern < s0.patterns.len(),
            k <= s.matches.len(),
            s.pattern < plen,
            first_copyable(views(s.matches@), s.request.root@, s.next_match as int)
                == first_copyable(views(s.matches@), s.request.root@, k as int),
        decreases s.matches.len() - k,
    {
        assert(views(s.matches@)[k as int] == s.matches@[k as int]@);
        match copy_target(s.request.root.as_str(), s.dest.as_str(), s.matches[k].as_str()) {
            Some((rel, to)) => {
                assert(first_copyable(views(s.matches@), s.request.root@, k as int) == k as int);
                let from = s.matches[k].clone();
                s.rel = rel;
                s.next_match = k + 1;
                s.phase = CreatePhase::Copying;
                return (s, Step::CopyPath(from, to));
            },
            None => {
                k = k + 1;
            },
        }
    }
    next_pattern(s)
}

fn on_copied(st: Create, r: Result<usize, String>) -> (out: (Create, Step))
    requires
        st@.pattern < st@.patterns.len(),
    ensures
        (out.0@, out.1@) == on_copied_v(
            st@,
            match r {
                Ok(n) => Ok(n as int),
                Err(e) => Err(e@),
            },
        ),
{
    let mut s = st;
    match r {
        Ok(n) => {
            s.copied = s.copied.saturating_add(n);
            to_match(s)
        },
        Err(e) => {
            let a = concat3("wts: failed to copy ", s.rel.as_str(), ": ");
            let m = concat(a.as_str(), e.as_str());
            s.phase = CreatePhase::CopyFailed;
            (s, Step::Say(m))
        },
    }
}

fn to_action(st: Create) -> (r: (Create, Step))
    ensures
        (r.0@, r.1@) == to_action_v(st@),
{
    let mut s = st;
    match &s.act {
        Some(Action::Cd) => match &s.request.cwd {
            None => {
                s.phase = CreatePhase::Cded;
                let d = s.dest.clone();
                (s, Step::Cd(d))
            },
            Some(c) => {
                let c = c.clone();
                let root = s.request.root.clone();
                s.phase = CreatePhase::MirrorCanon;
                (s, Step::Canonicalize(Some(c), root))
            },
        },
        Some(Action::Script(sc)) => {
            let m = concat3("wts: running action (", sc.as_str(), ")");
            s.phase = CreatePhase::ScriptAnnounced;
            (s, Step::Say(m))
        },
        None => fail(s, unexpected_message()),
    }
}

fn unexpected_message() -> (m: String)
    ensures
        m@ == unexpected_text(),
{
    "internal error: unexpected answer from the outside".to_owned()
}

fn on_canon(st: Create, a: Option<String>, b: Option<String>) -> (r: (Create, Step))
    ensures
        (r.0@, r.1@) == on_canon_v(st@, opt_v(a), opt_v(b)),
{
    let mut s = st;
    let cwd = match a {
        Some(x) => x,
        None => match &s.request.cwd {
            Some(c) => c.clone(),
            None => String::new(),
        },
    };
    let src = match b {
        Some(x) => x,
        None => s.request.root.clone(),
    };
    match mirror_subpath_from(src.as_str(), s.dest.as_str(), cwd.as_str()) {
        Some(t) => {
            s.target = t.clone();
            s.phase = CreatePhase::MirrorDir;
            (s, Step::ProbeIsDir(t))
        },
        None => {
            s.phase = CreatePhase::Cded;
            let d = s.dest.clone();
            (s, Step::Cd(d))
        },
    }
}

fn script_exec(act: &Option<Action>) -> (r: String)
    ensures
        r@ == match act {
            Some(Action::Script(sc)) => sc@,
            _ => Seq::empty(),
        },
{
    match act {
        Some(Action::Script(sc)) => sc.clone(),
        _ => String::new(),
    }
}

/// The next state and step of a create run, given what the last step brought.
pub fn create_next(st: Create, e: Event) -> (r: (Create, Step))
    ensures
        (r.0@, r.1@) == create_next_v(st@, event_v(e)),
{
    let mut s = st;
    match (s.phase, e) {
        (CreatePhase::Suffix, Event::Ran(run)) => {
            let answer = capture("git", &run);
            let suffix = container_suffix(Backend::Git, &answer);
            after_suffix(s, suffix)
        },
        (CreatePhase::ActionConfig, Event::Ran(run)) => on_action(s, run),
        (CreatePhase::BaseRef, Event::Ran(run)) => {
            let answer = capture("git", &run);
            s.git_base = git_config_str(&answer, "HEAD");
            to_naming(s)
        },
        (CreatePhase::JjLog, Event::Ran(run)) => on_jj_log(s, run),
        (CreatePhase::GitShort, Event::Ran(run)) => on_git_short(s, run),
        (CreatePhase::GitSubject, Event::Ran(run)) => on_git_subject(s, run),
        (CreatePhase::DestCheck, Event::Flag(b)) => on_dest(s, b),
        (CreatePhase::MakeContainer, Event::Done(r)) => on_made(s, r),
        (CreatePhase::Announced, Event::Ack) => on_announced(s),
        (CreatePhase::JjAdd, Event::Exited(r)) => on_jj_add(s, r),
        (CreatePhase::CreateBranch, Event::Ran(run)) => on_create_branch(s, run),
        (CreatePhase::BranchPrefix, Event::Ran(run)) => on_branch_prefix(s, run),
        (CreatePhase::GitAdd, Event::Exited(r)) => on_git_add(s, r),
        (CreatePhase::BaseCheck, Event::Ran(run)) => on_base_check(s, run),
        (CreatePhase::CopyConfig, Event::Ran(run)) => on_copy_config(s, run),
        (CreatePhase::CopyWarned, Event::Ack) => to_glob(s),
        (CreatePhase::Globbing, Event::Matches(r)) => {
            if s.pattern < s.patterns.len() {
                on_matches(s, r)
            } else {
                fail(s, unexpected_message())
            }
        },
        (CreatePhase::BadPattern, Event::Ack) => {
            if s.pattern < usize::MAX {
                next_pattern(s)
            } else {
                fail(s, unexpected_message())
            }
        },
        (CreatePhase::Copying, Event::Copied(r)) => {
            if s.pattern < s.patterns.len() {
                on_copied(s, r)
            } else {
                fail(s, unexpected_message())
            }
        },
        (CreatePhase::CopyFailed, Event::Ack) => {
            if s.pattern < s.patterns.len() {
                to_match(s)
            } else {
                fail(s, unexpected_message())
            }
        },
        (CreatePhase::CopyReported, Event::Ack) => to_action(s),
        (CreatePhase::MirrorCanon, Event::Canonical(a, b)) => on_canon(s, a, b),
        (CreatePhase::MirrorDir, Event::Flag(b)) => {
            let to = if b {
                s.target.clone()
            } else {
                s.dest.clone()
            };
            s.phase = CreatePhase::Cded;
            (s, Step::Cd(to))
        },
        (CreatePhase::Cded, Event::Ack) => {
            s.phase = CreatePhase::Finished;
            (s, Step::Finish(0))
        },
        (CreatePhase::ScriptAnnounced, Event::Ack) => {
            let sc = script_exec(&s.act);
            let d = s.dest.clone();
            s.phase = CreatePhase::ScriptRun;
            (s, Step::RunScript(sc, d))
        },
        (CreatePhase::ScriptRun, Event::Exited(r)) => match r {
            Err(m) => {
                let sc = script_exec(&s.act);
                let a = concat3("failed to run action '", sc.as_str(), "': ");
                let msg = concat(a.as_str(), m.as_str());
                fail(s, msg)
            },
            Ok(x) => {
                s.phase = CreatePhase::Finished;
                let code = if x.success {
                    0
                } else {
                    match x.code {
                        Some(c) => c,
                        None => 1,
                    }
                };
                (s, Step::Finish(code))
            },
        },
        _ => fail(s, unexpected_message()),
    }
}

// ---------------------------------------------------------------------------
// What every create run keeps
// ---------------------------------------------------------------------------

/// The phases that come after the workspace's destination is fixed.
pub open spec fn past_naming(p: CreatePhase) -> bool {
    !(p == CreatePhase::Suffix || p == CreatePhase::ActionConfig || p == CreatePhase::BaseRef
        || p == CreatePhase::JjLog || p == CreatePhase::GitShort || p == CreatePhase::GitSubject
        || p == CreatePhase::Finished)
}

/// What holds of a create run at every step: once past the config reads,
/// the action is resolved, the workspace name is a clean non-empty name, and
/// the destination is `<container>/<name>`, found to hold nothing once it has
/// been checked; a script phase holds a script.
pub open spec fn create_inv(s: CreateV) -> bool {
    &&& (s.phase == CreatePhase::BaseRef || s.phase == CreatePhase::JjLog || s.phase
        == CreatePhase::GitShort || s.phase == CreatePhase::GitSubject) ==> s.act is Some
    &&& past_naming(s.phase) ==> {
        &&& s.act is Some
        &&& s.workspace.len() > 0
        &&& crate::naming::is_clean_name(s.workspace)
        &&& s.dest == joined_path(s.container, s.workspace)
        &&& s.phase != CreatePhase::DestCheck ==> s.dest_free
    }
    &&& s.phase == CreatePhase::MirrorDir ==> mirrored_under(s.dest, s.target)
    &&& s.phase != CreatePhase::Suffix && s.phase != CreatePhase::Finished ==> laid_out(s)
    &&& past_naming(s.phase) ==> (s.name matches Some(n) ==> s.workspace == sanitized(n))
    &&& (s.phase == CreatePhase::JjLog || s.phase == CreatePhase::GitShort || s.phase
        == CreatePhase::GitSubject) ==> s.name is None
    &&& based(s)
    &&& (s.phase == CreatePhase::ScriptAnnounced || s.phase == CreatePhase::ScriptRun) ==> s.act
        matches Some(ActionSpec::Script(_))
}

/// The phases that come after the base ref is settled.
pub open spec fn past_base(p: CreatePhase) -> bool {
    !(p == CreatePhase::Suffix || p == CreatePhase::ActionConfig || p == CreatePhase::BaseRef
        || p == CreatePhase::Finished)
}

/// With `-r`, the base ref is the `-r` revision once settled, and
/// `wts.baseRef` is never waited for.
pub open spec fn based(s: CreateV) -> bool {
    &&& s.revision is Some ==> s.phase != CreatePhase::BaseRef
    &&& past_base(s.phase) ==> (s.revision matches Some(r) ==> s.git_base == r)
}

/// The revision a jj run names its workspace after: `-r`, else `@-` (the
/// parent of the working copy, which a new workspace shares).
pub open spec fn jj_naming_rev(revision: Option<Seq<char>>) -> Seq<char> {
    match revision {
        Some(r) => r,
        None => "@-"@,
    }
}

/// The command words told apart by the laws on the base ref.
proof fn lemma_words_differ()
    ensures
        "config"@ != "rev-parse"@,
        "config"@ != "log"@,
        "rev-parse"@ != "log"@,
        "git"@ != "jj"@,
{
    reveal_strlit("config");
    reveal_strlit("rev-parse");
    reveal_strlit("log");
    reveal_strlit("git");
    reveal_strlit("jj");
    assert("config"@.len() != "rev-parse"@.len());
    assert("config"@.len() != "log"@.len());
    assert("rev-parse"@.len() != "log"@.len());
    assert("git"@.len() != "jj"@.len());
}

/// `git worktree add ...`: its last argument is the base ref.
pub open spec fn is_worktree_add(c: (Seq<char>, Seq<Seq<char>>)) -> bool {
    c.0 == "git"@ && c.1.len() >= 2 && c.1[0] == "worktree"@ && c.1[1] == "add"@
}

/// `git rev-parse --short <ref>`.
pub open spec fn is_short_query(c: (Seq<char>, Seq<Seq<char>>)) -> bool {
    c.0 == "git"@ && c.1.len() == 3 && c.1[0] == "rev-parse"@ && c.1[1] == "--short"@
}

/// `git log -1 --format=%s <ref>`.
pub open spec fn is_subject_query(c: (Seq<char>, Seq<Seq<char>>)) -> bool {
    c.0 == "git"@ && c.1.len() == 4 && c.1[0] == "log"@
}

/// `jj log ... -r <rev> ...` (the naming query).
pub open spec fn is_jj_log(c: (Seq<char>, Seq<Seq<char>>)) -> bool {
    c.0 == "jj"@ && c.1.len() == 9 && c.1[0] == "log"@ && c.1[5] == "-r"@
}

/// What the commands and copies of a step name: the worktree add and the
/// git naming queries name the run's base ref; the jj naming query names
/// `-r` or `@-`; `wts.baseRef` is read only without `-r`; and a copy lands
/// at the match's path relative to the source, under the destination.
pub open spec fn names_base(t: CreateV, step: StepV) -> bool {
    &&& (step matches StepV::Run(c) ==> (is_worktree_add(c) ==> c.1.last() == t.git_base
        && past_base(t.phase)))
    &&& (step matches StepV::Capture(c) ==> (is_short_query(c) ==> c.1[2] == t.git_base
        && past_base(t.phase)))
    &&& (step matches StepV::Capture(c) ==> (is_subject_query(c) ==> c.1[3] == t.git_base
        && past_base(t.phase)))
    &&& (step matches StepV::Capture(c) ==> (is_jj_log(c) ==> c.1[6] == jj_naming_rev(t.revision)))
    &&& (step matches StepV::CopyPath(a, b) ==> copies_under(t, a, b))
}

/// A copy of `a` lands at `b`: `a`'s path relative to the source, under the
/// destination.
pub open spec fn copies_under(t: CreateV, a: Seq<char>, b: Seq<char>) -> bool {
    std_strip_prefix(a, t.root) matches Some(rel) && b == joined_path(t.dest, rel)
}

/// `t` holds the same request as `s`.
pub open spec fn same_request(s: CreateV, t: CreateV) -> bool {
    &&& t.backend == s.backend
    &&& t.root == s.root
    &&& t.revision == s.revision
    &&& t.name == s.name
    &&& t.action == s.action
    &&& t.home == s.home
    &&& t.cwd == s.cwd
}

/// The container is the one `resolve_layout` gives for the root, with the
/// container suffix in force.
pub open spec fn laid_out(s: CreateV) -> bool {
    exists|sfx: Seq<char>| #[trigger] layout_of(s.root, sfx) matches Ok((c, _)) && c == s.container
}

/// `x` is `dest` joined with a non-empty relative part (the current
/// directory's path past the source, as `Path::strip_prefix` gives it).
pub open spec fn mirrored_under(dest: Seq<char>, x: Seq<char>) -> bool {
    exists|rel: Seq<char>| rel.len() > 0 && x == #[trigger] joined_path(dest, rel)
}

/// Where a step sends the shell, if it does: the destination itself, or the
/// destination joined with the mirrored subdirectory.
pub open spec fn cd_into_dest(t: CreateV, step: StepV) -> bool {
    step matches StepV::Cd(x) ==> x == t.dest || mirrored_under(t.dest, x)
}

/// The steps that create or change something on disk or run something.
pub open spec fn acts_on_disk(step: StepV) -> bool {
    ||| step is MakeDirs
    ||| step is Run
    ||| step is RunScript
    ||| step is CopyPath
}

/// What a step that acts on disk may rely on: the action is resolved; the
/// name is clean, non-empty, and the sanitized `-n` when one was given; the
/// container is the one the layout gives; the destination is
/// `<container>/<name>` and was found to hold nothing.
pub open spec fn ready_to_act(s: CreateV) -> bool {
    &&& s.act is Some
    &&& s.workspace.len() > 0
    &&& crate::naming::is_clean_name(s.workspace)
    &&& s.dest == joined_path(s.container, s.workspace)
    &&& s.dest_free
    &&& laid_out(s)
    &&& s.name matches Some(n) ==> s.workspace == sanitized(n)
}

proof fn lemma_to_dest_inv(s: CreateV)
    requires
        s.act is Some,
        laid_out(s),
        s.name matches Some(n) ==> s.workspace == sanitized(n),
        s.workspace.len() == 0 || crate::naming::is_clean_name(s.workspace),
        s.revision matches Some(r) ==> s.git_base == r,
    ensures
        create_inv(to_dest_v(s).0),
        !acts_on_disk(to_dest_v(s).1),
        names_base(to_dest_v(s).0, to_dest_v(s).1),
{
    lemma_words_differ();
}

proof fn lemma_to_naming_inv(s: CreateV)
    requires
        s.act is Some,
        laid_out(s),
        s.revision matches Some(r) ==> s.git_base == r,
    ensures
        create_inv(to_naming_v(s).0),
        !acts_on_disk(to_naming_v(s).1),
        names_base(to_naming_v(s).0, to_naming_v(s).1),
{
    lemma_words_differ();
    if let Some(n) = s.name {
        crate::naming::lemma_sanitized_is_clean(n);
        lemma_to_dest_inv(CreateV { workspace: sanitized(n), ..s });
    }
}

proof fn lemma_to_action_inv(s: CreateV)
    requires
        ready_to_act(s),
        based(s),
        past_base(s.phase),
    ensures
        create_inv(to_action_v(s).0),
        acts_on_disk(to_action_v(s).1) ==> ready_to_act(to_action_v(s).0),
        names_base(to_action_v(s).0, to_action_v(s).1),
{
    lemma_words_differ();
}

proof fn lemma_to_glob_inv(s: CreateV)
    requires
        ready_to_act(s),
        based(s),
        past_base(s.phase),
    ensures
        create_inv(to_glob_v(s).0),
        acts_on_disk(to_glob_v(s).1) ==> ready_to_act(to_glob_v(s).0),
        names_base(to_glob_v(s).0, to_glob_v(s).1),
{
    lemma_words_differ();
    lemma_to_action_inv(s);
}

proof fn lemma_to_match_inv(s: CreateV)
    requires
        ready_to_act(s),
        based(s),
        past_base(s.phase),
    ensures
        create_inv(to_match_v(s).0),
        acts_on_disk(to_match_v(s).1) ==> ready_to_act(to_match_v(s).0),
        names_base(to_match_v(s).0, to_match_v(s).1),
{
    lemma_words_differ();
    lemma_to_glob_inv(CreateV { pattern: s.pattern + 1, ..s });
    if 0 <= s.next_match <= s.matches.len() {
        lemma_copyable_first(s.matches, s.root, s.next_match);
    }
}

/// A create run starts in a state that keeps `create_inv`, and its first
/// step acts on nothing.
pub proof fn lemma_create_start(request: CreateRequest)
    ensures
        create_inv(start_v(fresh_v(request)).0),
        !acts_on_disk(start_v(fresh_v(request)).1),
        names_base(start_v(fresh_v(request)).0, start_v(fresh_v(request)).1),
        same_request(fresh_v(request), start_v(fresh_v(request)).0),
{
    lemma_words_differ();
    if request.backend == Backend::Jj {
        let s = fresh_v(request);
        if let Ok((c, _)) = layout_of(s.root, "-wts"@) {
            assert(layout_of(s.root, "-wts"@) matches Ok((c, _)));
        }
    }
}

/// What each step of a create run keeps (see `lemma_create_step`).
#[verifier::opaque]
pub open spec fn create_step_ok(s: CreateV, r: (CreateV, StepV)) -> bool {
    &&& create_inv(r.0)
    &&& acts_on_disk(r.1) ==> ready_to_act(r.0)
    &&& cd_into_dest(r.0, r.1)
    &&& names_base(r.0, r.1)
    &&& same_request(s, r.0)
    &&& base_kept(s, r.0)
}

/// Once the base ref is settled it stays, to the end of the run.
pub open spec fn base_kept(s: CreateV, t: CreateV) -> bool {
    (past_base(s.phase) || s.phase == CreatePhase::Finished) ==> (t.git_base == s.git_base && (
    past_base(t.phase) || t.phase == CreatePhase::Finished))
}

proof fn lemma_step_ran(s: CreateV, run: RunResult)
    requires
        create_inv(s),
    ensures
        create_step_ok(s, create_next_v(s, EventV::Ran(run))),
{
    lemma_words_differ();
    reveal(create_step_ok);
    match s.phase {
        CreatePhase::Suffix => {
            let sfx = config_str(captured("git"@, run), "-wts"@);
            if let Ok((c, _)) = layout_of(s.root, sfx) {
                assert(layout_of(s.root, sfx) matches Ok((c, _)));
            }
        },
        CreatePhase::ActionConfig => {
            match resolved_action(requested(s), captured(prog(s.backend), run), s.home) {
                Some(a) => {
                    let t = CreateV { act: Some(a), ..s };
                    if let Some(r) = t.revision {
                        lemma_to_naming_inv(CreateV { git_base: r, ..t });
                    }
                },
                None => {},
            }
        },
        CreatePhase::BaseRef => {
            lemma_to_naming_inv(
                CreateV { git_base: config_str(captured("git"@, run), "HEAD"@), ..s },
            );
        },
        CreatePhase::JjLog => {
            let parts = split_tab(ok_or_empty(captured("jj"@, run)));
            crate::naming::lemma_sanitized_is_clean(joined_name(parts.0, parts.1));
            lemma_to_dest_inv(
                CreateV { workspace: sanitized(joined_name(parts.0, parts.1)), ..s },
            );
        },
        CreatePhase::GitSubject => {
            let n = joined_name(s.short, ok_or_empty(captured("git"@, run)));
            crate::naming::lemma_sanitized_is_clean(n);
            lemma_to_dest_inv(CreateV { workspace: sanitized(n), ..s });
        },
        CreatePhase::CopyConfig => {
            lemma_to_glob_inv(
                CreateV {
                    patterns: sorted_set(configured_patterns(s.backend, run)),
                    pattern: 0,
                    copied: 0,
                    ..s
                },
            );
        },
        _ => {},
    }
}

proof fn lemma_step_ack(s: CreateV)
    requires
        create_inv(s),
    ensures
        create_step_ok(s, create_next_v(s, EventV::Ack)),
{
    lemma_words_differ();
    reveal(create_step_ok);
    match s.phase {
        CreatePhase::CopyWarned => lemma_to_glob_inv(s),
        CreatePhase::BadPattern => lemma_to_glob_inv(CreateV { pattern: s.pattern + 1, ..s }),
        CreatePhase::CopyFailed => lemma_to_match_inv(s),
        CreatePhase::CopyReported => lemma_to_action_inv(s),
        _ => {},
    }
}

proof fn lemma_step_matches(s: CreateV, r: Result<Seq<Seq<char>>, Seq<char>>)
    requires
        create_inv(s),
    ensures
        create_step_ok(s, create_next_v(s, EventV::Matches(r))),
{
    lemma_words_differ();
    reveal(create_step_ok);
    if s.phase == CreatePhase::Globbing {
        if let Ok(ms) = r {
            lemma_to_match_inv(CreateV { matches: ms, next_match: 0, ..s });
        }
    }
}

proof fn lemma_step_copied(s: CreateV, r: Result<int, Seq<char>>)
    requires
        create_inv(s),
    ensures
        create_step_ok(s, create_next_v(s, EventV::Copied(r))),
{
    lemma_words_differ();
    reveal(create_step_ok);
    if s.phase == CreatePhase::Copying {
        if let Ok(n) = r {
            lemma_to_match_inv(CreateV { copied: saturated(s.copied, n), ..s });
        }
    }
}

proof fn lemma_step_other(
    s: CreateV,
    b: bool,
    d: Result<(), Seq<char>>,
    x: Result<(bool, Option<int>), Seq<char>>,
    c1: Option<Seq<char>>,
    c2: Option<Seq<char>>,
)
    requires
        create_inv(s),
    ensures
        create_step_ok(s, create_next_v(s, EventV::Flag(b))),
        create_step_ok(s, create_next_v(s, EventV::Done(d))),
        create_step_ok(s, create_next_v(s, EventV::Exited(x))),
        create_step_ok(s, create_next_v(s, EventV::Canonical(c1, c2))),
{
    lemma_words_differ();
    reveal(create_step_ok);
    if s.phase == CreatePhase::MirrorCanon {
        let cwd = match c1 {
            Some(x) => x,
            None => match s.cwd {
                Some(c) => c,
                None => Seq::empty(),
            },
        };
        let src = match c2 {
            Some(x) => x,
            None => s.root,
        };
        if let Some(rel) = std_strip_prefix(cwd, src) {
            if rel.len() > 0 {
                assert(mirrored_under(s.dest, joined_path(s.dest, rel)));
            }
        }
    }
}

/// Every step keeps `create_inv`, and nothing is created, run or copied
/// before the action is resolved, the name is a clean non-empty name, the
/// destination is `<container>/<name>` and it was found to hold nothing (so
/// an unknown action, an empty name or a non-empty destination fails before
/// anything is created); and a cd goes into the destination or the mirrored
/// subdirectory under it.
pub proof fn lemma_create_step(s: CreateV, e: EventV)
    requires
        create_inv(s),
    ensures
        create_inv(create_next_v(s, e).0),
        acts_on_disk(create_next_v(s, e).1) ==> ready_to_act(create_next_v(s, e).0),
        cd_into_dest(create_next_v(s, e).0, create_next_v(s, e).1),
        names_base(create_next_v(s, e).0, create_next_v(s, e).1),
        same_request(s, create_next_v(s, e).0),
        base_kept(s, create_next_v(s, e).0),
{
    match e {
        EventV::Ran(run) => lemma_step_ran(s, run),
        EventV::Ack => lemma_step_ack(s),
        EventV::Matches(r) => lemma_step_matches(s, r),
        EventV::Copied(r) => lemma_step_copied(s, r),
        EventV::Flag(b) => lemma_step_other(s, b, Ok(()), Err(Seq::empty()), None, None),
        EventV::Done(d) => lemma_step_other(s, false, d, Err(Seq::empty()), None, None),
        EventV::Exited(x) => lemma_step_other(s, false, Ok(()), x, None, None),
        EventV::Canonical(c1, c2) => lemma_step_other(s, false, Ok(()), Err(Seq::empty()), c1, c2),
    }
    reveal(create_step_ok);
}

// ---------------------------------------------------------------------------
// Whole runs
// ---------------------------------------------------------------------------

/// The state a create run reaches from `s` after answering `es`.
pub open spec fn create_after(s: CreateV, es: Seq<EventV>) -> CreateV
    decreases es.len(),
{
    if es.len() == 0 {
        s
    } else {
        create_after(create_next_v(s, es[0]).0, es.drop_first())
    }
}

proof fn lemma_create_after_inv(s: CreateV, es: Seq<EventV>)
    requires
        create_inv(s),
    ensures
        create_inv(create_after(s, es)),
        same_request(s, create_after(s, es)),
        base_kept(s, create_after(s, es)),
    decreases es.len(),
{
    if es.len() > 0 {
        lemma_create_step(s, es[0]);
        lemma_create_after_inv(create_next_v(s, es[0]).0, es.drop_first());
    }
}

proof fn lemma_create_after_concat(s: CreateV, a: Seq<EventV>, b: Seq<EventV>)
    ensures
        create_after(s, a + b) == create_after(create_after(s, a), b),
    decreases a.len(),
{
    if a.len() == 0 {
        assert(a + b =~= b);
    } else {
        assert((a + b)[0] == a[0]);
        assert((a + b).drop_first() =~= a.drop_first() + b);
        lemma_create_after_concat(create_next_v(s, a[0]).0, a.drop_first(), b);
    }
}

/// The revision and path laws of a create run, however the outside
/// answers:
/// - with `-r <rev>`, every `git worktree add` adds the worktree on
///   `<rev>`, and the queries the name is derived from
///   (`git rev-parse --short`, `git log -1 --format=%s`) ask about `<rev>`;
/// - the jj query the name is derived from asks about `-r`, else `@-` (the
///   revision a new jj workspace sits on);
/// - every copy of a match lands at the match's path relative to the repo
///   root, under the new workspace `<container>/<name>`.
pub proof fn lemma_create_revision_run(request: CreateRequest, es: Seq<EventV>, e: EventV)
    ensures
        ({
            let s = create_after(start_v(fresh_v(request)).0, es);
            let t = create_next_v(s, e).0;
            let step = create_next_v(s, e).1;
            &&& request.revision matches Some(r) ==> {
                &&& step matches StepV::Run(c) ==> (is_worktree_add(c) ==> c.1.last() == r@)
                &&& step matches StepV::Capture(c) ==> (is_short_query(c) ==> c.1[2] == r@)
                &&& step matches StepV::Capture(c) ==> (is_subject_query(c) ==> c.1[3] == r@)
            }
            &&& step matches StepV::Capture(c) ==> (is_jj_log(c) ==> c.1[6] == match request.revision {
                Some(r) => r@,
                None => "@-"@,
            })
            &&& step matches StepV::CopyPath(a, b) ==> (std_strip_prefix(a, request.root@) matches Some(
                rel,
            ) && b == joined_path(t.dest, rel) && t.dest == joined_path(t.container, t.workspace))
        }),
{
    let s0 = start_v(fresh_v(request)).0;
    lemma_create_start(request);
    lemma_create_after_inv(s0, es);
    let s = create_after(s0, es);
    lemma_create_step(s, e);
}

/// The ref a `git rev-parse --short` or `git log -1 --format=%s` step asks
/// about.
pub open spec fn naming_query_ref(step: StepV) -> Option<Seq<char>> {
    match step {
        StepV::Capture(c) => if is_short_query(c) || is_subject_query(c) {
            Some(c.1.last())
        } else {
            None
        },
        _ => None,
    }
}

/// The ref a `git worktree add` step adds the worktree on.
pub open spec fn worktree_add_ref(step: StepV) -> Option<Seq<char>> {
    match step {
        StepV::Run(c) => if is_worktree_add(c) {
            Some(c.1.last())
        } else {
            None
        },
        _ => None,
    }
}

/// In any git create run, the ref the name is derived from is the ref the
/// worktree is added on: a `git rev-parse --short` or `git log -1
/// --format=%s` query at one point and a `git worktree add` at any later
/// point name the same ref.
pub proof fn lemma_create_same_base(
    request: CreateRequest,
    es1: Seq<EventV>,
    e1: EventV,
    es2: Seq<EventV>,
    e2: EventV,
)
    ensures
        ({
            let s1 = create_after(start_v(fresh_v(request)).0, es1);
            let q = create_next_v(s1, e1).1;
            let s2 = create_after(start_v(fresh_v(request)).0, es1 + seq![e1] + es2);
            let add = create_next_v(s2, e2).1;
            naming_query_ref(q) is Some && worktree_add_ref(add) is Some ==> naming_query_ref(q)
                == worktree_add_ref(add)
        }),
{
    let s0 = start_v(fresh_v(request)).0;
    lemma_create_start(request);
    lemma_create_after_inv(s0, es1);
    let s1 = create_after(s0, es1);
    lemma_create_step(s1, e1);
    let t1 = create_next_v(s1, e1).0;
    lemma_create_after_inv(t1, es2);
    assert(es1 + seq![e1] + es2 =~= es1 + (seq![e1] + es2));
    lemma_create_after_concat(s0, es1, seq![e1] + es2);
    assert((seq![e1] + es2)[0] == e1);
    assert((seq![e1] + es2).drop_first() =~= es2);
    let s2 = create_after(t1, es2);
    lemma_create_step(s2, e2);
    let q = create_next_v(s1, e1).1;
    if let StepV::Capture(c) = q {
        if is_short_query(c) {
            assert(c.1.last() == c.1[2]);
        }
        if is_subject_query(c) {
            assert(c.1.last() == c.1[3]);
        }
    }
}

/// Over a whole create run, however the outside answers: a step that
/// creates a directory, runs a command or a script, or copies a file comes
/// only once the action is resolved, the workspace name is a clean
/// non-empty name (the sanitized `-n` when one was given), the container is
/// the one the layout gives, the destination is `<container>/<name>`, and
/// that destination was found to hold nothing; and a cd goes into the
/// destination or the mirrored subdirectory under it.
pub proof fn lemma_create_run(request: CreateRequest, es: Seq<EventV>, e: EventV)
    ensures
        ({
            let s = create_after(start_v(fresh_v(request)).0, es);
            &&& acts_on_disk(create_next_v(s, e).1) ==> ready_to_act(create_next_v(s, e).0)
            &&& cd_into_dest(create_next_v(s, e).0, create_next_v(s, e).1)
        }),
{
    let s0 = start_v(fresh_v(request)).0;
    lemma_create_start(request);
    lemma_create_after_inv(s0, es);
    lemma_create_step(create_after(s0, es), e);
}

/// The steps a create run takes from `s` answering `es`.
pub open spec fn create_steps(s: CreateV, es: Seq<EventV>) -> Seq<StepV>
    decreases es.len(),
{
    if es.len() == 0 {
        Seq::empty()
    } else {
        seq![create_next_v(s, es[0]).1] + create_steps(create_next_v(s, es[0]).0, es.drop_first())
    }
}

proof fn lemma_create_cons(s: CreateV, e: EventV, rest: Seq<EventV>)
    ensures
        create_after(s, seq![e] + rest) == create_after(create_next_v(s, e).0, rest),
        create_steps(s, seq![e] + rest) == seq![create_next_v(s, e).1] + create_steps(
            create_next_v(s, e).0,
            rest,
        ),
{
    assert((seq![e] + rest).drop_first() =~= rest);
    assert((seq![e] + rest)[0] == e);
}

/// The matches of `ms` from `from` on that lie under `root`, in order.
pub open spec fn copyable(ms: Seq<Seq<char>>, root: Seq<char>, from: int) -> Seq<Seq<char>>
    decreases ms.len() - from,
{
    if from < 0 || from >= ms.len() {
        Seq::empty()
    } else if std_strip_prefix(ms[from], root) is Some {
        seq![ms[from]] + copyable(ms, root, from + 1)
    } else {
        copyable(ms, root, from + 1)
    }
}

/// The sources of the copies among `steps`, in order.
pub open spec fn copy_sources(steps: Seq<StepV>) -> Seq<Seq<char>>
    decreases steps.len(),
{
    if steps.len() == 0 {
        Seq::empty()
    } else {
        let rest = copy_sources(steps.drop_first());
        match steps[0] {
            StepV::CopyPath(a, _) => seq![a] + rest,
            _ => rest,
        }
    }
}

/// No step of `steps` stops the run with an error.
pub open spec fn no_failure(steps: Seq<StepV>) -> bool {
    forall|i: int| 0 <= i < steps.len() ==> !(#[trigger] steps[i] is Fail)
}

/// The answers to the copies of a pattern's matches: how each copy went,
/// and an acknowledgement of the warning after each failed one.
pub open spec fn copy_answers(cs: Seq<Result<int, Seq<char>>>) -> Seq<EventV>
    decreases cs.len(),
{
    if cs.len() == 0 {
        Seq::empty()
    } else {
        let head = match cs[0] {
            Ok(_) => seq![EventV::Copied(cs[0])],
            Err(_) => seq![EventV::Copied(cs[0]), EventV::Ack],
        };
        head + copy_answers(cs.drop_first())
    }
}

proof fn lemma_copy_sources_concat(a: Seq<StepV>, b: Seq<StepV>)
    ensures
        copy_sources(a + b) == copy_sources(a) + copy_sources(b),
    decreases a.len(),
{
    if a.len() == 0 {
        assert(a + b =~= b);
        assert(copy_sources(a) + copy_sources(b) =~= copy_sources(b));
    } else {
        lemma_copy_sources_concat(a.drop_first(), b);
        assert((a + b).drop_first() =~= a.drop_first() + b);
        assert((a + b)[0] == a[0]);
        match a[0] {
            StepV::CopyPath(x, _) => {
                assert(seq![x] + (copy_sources(a.drop_first()) + copy_sources(b)) =~= (seq![x]
                    + copy_sources(a.drop_first())) + copy_sources(b));
            },
            _ => {},
        }
    }
}

proof fn lemma_copyable_first(ms: Seq<Seq<char>>, root: Seq<char>, from: int)
    requires
        0 <= from <= ms.len(),
    ensures
        from <= first_copyable(ms, root, from) <= ms.len(),
        first_copyable(ms, root, from) == ms.len() ==> copyable(ms, root, from).len() == 0,
        first_copyable(ms, root, from) < ms.len() ==> {
            let k = first_copyable(ms, root, from);
            &&& std_strip_prefix(ms[k], root) is Some
            &&& copyable(ms, root, from) == seq![ms[k]] + copyable(ms, root, k + 1)
        },
    decreases ms.len() - from,
{
    if from < ms.len() && !(std_strip_prefix(ms[from], root) is Some) {
        lemma_copyable_first(ms, root, from + 1);
    }
}

/// Copying the matches of one pattern, from `u` on: each match under the
/// source is copied, in order, none skipped, whichever copies fail; a failed
/// copy only prints a warning; nothing stops the run; and the run then goes
/// on to the next pattern.
pub proof fn lemma_copy_matches(u: CreateV, cs: Seq<Result<int, Seq<char>>>)
    requires
        0 <= u.pattern < u.patterns.len(),
        0 <= u.next_match <= u.matches.len(),
        u.act is Some,
        cs.len() == copyable(u.matches, u.root, u.next_match).len(),
    ensures
        ({
            let steps = seq![to_match_v(u).1] + create_steps(to_match_v(u).0, copy_answers(cs));
            &&& copy_sources(steps) == copyable(u.matches, u.root, u.next_match)
            &&& no_failure(steps)
            &&& create_after(to_match_v(u).0, copy_answers(cs)).pattern == u.pattern + 1
        }),
    decreases cs.len(),
{
    lemma_copyable_first(u.matches, u.root, u.next_match);
    let k = first_copyable(u.matches, u.root, u.next_match);
    let steps = seq![to_match_v(u).1] + create_steps(to_match_v(u).0, copy_answers(cs));
    if k >= u.matches.len() {
        assert(copy_answers(cs) =~= Seq::<EventV>::empty());
        assert(create_steps(to_match_v(u).0, Seq::empty()) =~= Seq::<StepV>::empty());
        assert(steps =~= seq![to_match_v(u).1]);
        assert(copy_sources(steps.drop_first()) =~= Seq::<Seq<char>>::empty()) by {
            assert(steps.drop_first().len() == 0);
        }
        assert(copy_sources(steps) =~= Seq::<Seq<char>>::empty());
    } else {
        let u1 = to_match_v(u).0;
        let c0 = cs[0];
        let rest = cs.drop_first();
        assert(u1.phase == CreatePhase::Copying && u1.next_match == k + 1);
        let next = match c0 {
            Ok(n) => CreateV { copied: saturated(u1.copied, n), ..u1 },
            Err(_) => CreateV { phase: CreatePhase::CopyFailed, ..u1 },
        };
        lemma_copy_matches(next, rest);
        let tail = seq![to_match_v(next).1] + create_steps(to_match_v(next).0, copy_answers(rest));
        assert(create_next_v(u1, EventV::Copied(c0)) == on_copied_v(u1, c0));
        match c0 {
            Ok(n) => {
                assert(copy_answers(cs) =~= seq![EventV::Copied(c0)] + copy_answers(rest));
                lemma_create_cons(u1, EventV::Copied(c0), copy_answers(rest));
                assert(steps =~= seq![to_match_v(u).1] + tail);
            },
            Err(m) => {
                let u2 = create_next_v(u1, EventV::Copied(c0)).0;
                assert(u2 == next);
                assert(copy_answers(cs) =~= seq![EventV::Copied(c0)] + (seq![EventV::Ack]
                    + copy_answers(rest)));
                lemma_create_cons(u1, EventV::Copied(c0), seq![EventV::Ack] + copy_answers(rest));
                assert(create_next_v(u2, EventV::Ack) == to_match_v(u2));
                lemma_create_cons(u2, EventV::Ack, copy_answers(rest));
                assert(steps =~= seq![to_match_v(u).1, create_next_v(u1, EventV::Copied(c0)).1]
                    + tail);
            },
        }
        let first = to_match_v(u).1;
        assert(first is CopyPath && first->CopyPath_0 == u.matches[k]);
        assert(copy_sources(seq![first]) =~= seq![u.matches[k]]) by {
            assert(seq![first].drop_first() =~= Seq::<StepV>::empty());
            assert(copy_sources(Seq::<StepV>::empty()) =~= Seq::<Seq<char>>::empty());
        }
        match c0 {
            Ok(_) => {
                lemma_copy_sources_concat(seq![first], tail);
            },
            Err(_) => {
                let warn = create_next_v(u1, EventV::Copied(c0)).1;
                assert(warn is Say);
                let two = seq![first, warn];
                assert(copy_sources(two) =~= seq![u.matches[k]]) by {
                    assert(two.drop_first() =~= seq![warn]);
                    assert(seq![warn].drop_first() =~= Seq::<StepV>::empty());
                    assert(copy_sources(Seq::<StepV>::empty()) =~= Seq::<Seq<char>>::empty());
                    assert(copy_sources(seq![warn]) =~= Seq::<Seq<char>>::empty());
                }
                lemma_copy_sources_concat(two, tail);
            },
        }
        assert forall|i: int| 0 <= i < steps.len() implies !(#[trigger] steps[i] is Fail) by {
            if i > 0 {
                match c0 {
                    Ok(_) => assert(steps[i] == tail[i - 1]),
                    Err(_) => if i > 1 {
                        assert(steps[i] == tail[i - 2]);
                    },
                }
            }
        }
    }
}

/// Globbing one pattern: a pattern error only prints a warning, after which
/// the run goes on to the next pattern; the matches of a good pattern are
/// copied as `lemma_copy_matches` says. With no patterns at all, nothing is
/// globbed or copied.
pub proof fn lemma_glob_outcome(u: CreateV, r: Result<Seq<Seq<char>>, Seq<char>>)
    requires
        u.phase == CreatePhase::Globbing,
        0 <= u.pattern < u.patterns.len() <= usize::MAX,
    ensures
        r matches Err(e) ==> {
            let (w, step) = create_next_v(u, EventV::Matches(r));
            &&& step == StepV::Say(
                "wts: ignoring bad wts.copy pattern '"@ + u.patterns[u.pattern] + "': "@ + e,
            )
            &&& create_next_v(w, EventV::Ack) == to_glob_v(CreateV { pattern: u.pattern + 1, ..w })
        },
        r matches Ok(ms) ==> create_next_v(u, EventV::Matches(r)) == to_match_v(
            CreateV { matches: ms, next_match: 0, ..u },
        ),
{
}

/// With no copy patterns, nothing is globbed or copied: the run goes
/// straight to the action.
pub proof fn lemma_no_patterns(u: CreateV)
    requires
        u.patterns.len() == 0,
        u.copied == 0,
    ensures
        to_glob_v(u) == to_action_v(u),
{
}

/// The name a create run settles on: the sanitized `-n` when given, else,
/// once the base revision's id and description (jj) or short hash and
/// subject (git) are read, the sanitized `<id>-<description>`. Either way
/// the run goes on with `to_dest_v`.
pub proof fn lemma_naming_outcome(s: CreateV, run: RunResult)
    ensures
        s.name matches Some(n) ==> to_naming_v(s) == to_dest_v(
            CreateV { workspace: sanitized(n), ..s },
        ),
        s.phase == CreatePhase::JjLog ==> ({
            let parts = split_tab(ok_or_empty(captured("jj"@, run)));
            create_next_v(s, EventV::Ran(run)) == to_dest_v(
                CreateV { workspace: sanitized(joined_name(parts.0, parts.1)), ..s },
            )
        }),
        s.phase == CreatePhase::GitSubject ==> create_next_v(s, EventV::Ran(run)) == to_dest_v(
            CreateV {
                workspace: sanitized(joined_name(s.short, ok_or_empty(captured("git"@, run)))),
                ..s
            },
        ),
{
}

/// With the name settled: an empty name stops the run with "derived
/// workspace name is empty" (and, by `lemma_create_run`, nothing has been
/// created); otherwise the destination is `<container>/<name>`, and the run
/// checks that it holds nothing.
pub proof fn lemma_to_dest_outcome(s: CreateV)
    ensures
        s.workspace.len() == 0 ==> to_dest_v(s).1 == StepV::Fail(
            "derived workspace name is empty; pass --name NAME"@,
        ),
        s.workspace.len() > 0 ==> to_dest_v(s).0.dest == joined_path(s.container, s.workspace)
            && to_dest_v(s).1 == StepV::ProbeNonEmpty(joined_path(s.container, s.workspace)),
{
}

} // verus!
