use std::collections::{BTreeMap, BTreeSet};
use std::path::{Component, Path};
use wts::backend::{Backend, Command, RunResult};
use wts::create::{create_next, create_start, CreateRequest};
use wts::remove::{rm_next, rm_start, RmRequest};
use wts::steps::{Event, Exit, Step};

/// A pretend outside world for the machines: config values, folders, glob
/// results, and a log of what was asked of it.
#[derive(Default)]
struct World {
    config: BTreeMap<String, String>,
    copy: Vec<String>,
    short: String,
    subject: String,
    jj_log: String,
    jj_listing: String,
    git_porcelain: String,
    jj_current: String,
    dirs: BTreeSet<String>,
    nonempty: BTreeSet<String>,
    globs: BTreeMap<String, Vec<String>>,
    failing: Vec<String>,
    script_code: Option<i32>,
    said: Vec<String>,
    ran: Vec<String>,
    removed: Vec<String>,
    made: Vec<String>,
    copied: Vec<(String, String)>,
    cd: Vec<String>,
}

fn line(c: &Command) -> String {
    let mut s = c.program.clone();
    for a in &c.args {
        s.push(' ');
        s.push_str(a);
    }
    s
}

fn ok_run(out: &str) -> RunResult {
    RunResult::Exited { success: true, stdout: out.as_bytes().to_vec(), stderr: Vec::new() }
}

fn failed_run(err: &str) -> RunResult {
    RunResult::Exited { success: false, stdout: Vec::new(), stderr: err.as_bytes().to_vec() }
}

fn exit(success: bool) -> Event {
    Event::Exited(Ok(Exit { success, code: Some(if success { 0 } else { 1 }) }))
}

impl World {
    /// The path with `.` and `..` resolved, if it names a folder.
    fn canonical(&self, p: &str) -> Option<String> {
        let mut parts: Vec<String> = Vec::new();
        for c in Path::new(p).components() {
            match c {
                Component::ParentDir => {
                    parts.pop();
                }
                Component::Normal(n) => parts.push(n.to_str().unwrap().to_string()),
                _ => {}
            }
        }
        let q = format!("/{}", parts.join("/"));
        if self.dirs.contains(&q) {
            Some(q)
        } else {
            None
        }
    }

    fn capture(&self, c: &Command) -> RunResult {
        let a: Vec<&str> = c.args.iter().map(|s| s.as_str()).collect();
        match (c.program.as_str(), a.as_slice()) {
            ("git", ["config", "--get-all", "--null", "wts.copy"]) => {
                if self.copy.is_empty() {
                    failed_run("")
                } else {
                    ok_run(&self.copy.iter().map(|p| format!("{p}\0")).collect::<String>())
                }
            }
            ("git", ["config", "--get", key]) | ("git", ["config", "--type=bool", "--get", key]) => {
                match self.config.get(*key) {
                    Some(v) => ok_run(&format!("{v}\n")),
                    None => failed_run(""),
                }
            }
            ("jj", ["config", "get", key]) => match self.config.get(*key) {
                Some(v) => ok_run(&format!("{v}\n")),
                None => failed_run("Error: Value not found"),
            },
            ("jj", ["config", "list", "wts.copy"]) => ok_run(&self.copy.join("\n")),
            ("git", ["rev-parse", "--short", _]) => ok_run(&format!("{}\n", self.short)),
            ("git", ["log", "-1", "--format=%s", _]) => ok_run(&format!("{}\n", self.subject)),
            ("git", ["rev-parse", "--verify", "--quiet", _]) => failed_run(""),
            ("jj", ["log", ..]) => ok_run(&self.jj_log),
            ("jj", ["-R", _, "workspace", "list"]) => ok_run(&self.jj_listing),
            ("git", ["-C", _, "worktree", "list", "--porcelain"]) => ok_run(&self.git_porcelain),
            ("jj", ["workspace", "list", ..]) => ok_run(&self.jj_current),
            _ => panic!("unexpected capture: {}", line(c)),
        }
    }

    /// Answers one step; `Err(code)` once the run is over.
    fn answer(&mut self, step: &Step) -> Result<Event, Result<i32, String>> {
        match step {
            Step::Capture(c) => Ok(Event::Ran(self.capture(c))),
            Step::Run(c) | Step::RunQuiet(c) => {
                let l = line(c);
                let ok = !self.failing.iter().any(|f| l.contains(f.as_str()));
                self.ran.push(l);
                Ok(exit(ok))
            }
            Step::ProbeNonEmpty(p) => Ok(Event::Flag(self.nonempty.contains(p))),
            Step::ProbeExists(p) | Step::ProbeIsDir(p) => Ok(Event::Flag(self.dirs.contains(p))),
            Step::Canonicalize(a, b) => Ok(Event::Canonical(
                a.as_ref().and_then(|p| self.canonical(p)),
                self.canonical(b),
            )),
            Step::MakeDirs(p) => {
                self.made.push(p.clone());
                self.dirs.insert(p.clone());
                Ok(Event::Done(Ok(())))
            }
            Step::RemoveTree(p) => {
                self.removed.push(p.clone());
                self.dirs.remove(p);
                Ok(Event::Done(Ok(())))
            }
            Step::Glob(p) => Ok(Event::Matches(Ok(self.globs.get(p).cloned().unwrap_or_default()))),
            Step::CopyPath(a, b) => {
                self.copied.push((a.clone(), b.clone()));
                Ok(Event::Copied(Ok(1)))
            }
            Step::Say(s) => {
                self.said.push(s.clone());
                Ok(Event::Ack)
            }
            Step::Cd(p) => {
                self.cd.push(p.clone());
                Ok(Event::Ack)
            }
            Step::RunScript(sc, d) => {
                self.ran.push(format!("{sc} {d}"));
                let code = self.script_code.unwrap_or(0);
                Ok(Event::Exited(Ok(Exit { success: code == 0, code: Some(code) })))
            }
            Step::Finish(c) => Err(Ok(*c)),
            Step::Fail(m) => Err(Err(m.clone())),
        }
    }
}

fn create(w: &mut World, request: CreateRequest) -> Result<i32, String> {
    let (mut s, mut step) = create_start(request);
    for _ in 0..200 {
        match w.answer(&step) {
            Ok(e) => {
                let (t, next) = create_next(s, e);
                s = t;
                step = next;
            }
            Err(end) => return end,
        }
    }
    panic!("create run did not finish");
}

fn remove(w: &mut World, request: RmRequest) -> Result<i32, String> {
    let (mut s, mut step) = rm_start(request);
    for _ in 0..200 {
        match w.answer(&step) {
            Ok(e) => {
                let (t, next) = rm_next(s, e);
                s = t;
                step = next;
            }
            Err(end) => return end,
        }
    }
    panic!("remove run did not finish");
}

fn git_request(name: Option<&str>, action: Option<&str>) -> CreateRequest {
    CreateRequest {
        backend: Backend::Git,
        root: "/r/repo".to_string(),
        revision: None,
        name: name.map(str::to_string),
        action: action.map(str::to_string),
        home: Some("/home/me".to_string()),
        cwd: Some("/r/repo/src".to_string()),
    }
}

fn git_world() -> World {
    let mut w = World::default();
    w.config.insert("wts.action.default".into(), "cd".into());
    w.dirs.insert("/r/repo".into());
    w.dirs.insert("/r/repo/src".into());
    w.short = "abc1234".into();
    w.subject = "Fix the login bug".into();
    w
}

#[test]
fn git_create_named_workspace_copies_and_cds_into_the_mirrored_dir() {
    let mut w = git_world();
    w.copy = vec![".env".into(), "AGENTS.override.md".into(), ".env".into()];
    w.globs.insert("/r/repo/.env".into(), vec!["/r/repo/.env".into()]);
    w.dirs.insert("/r/repo-wts/hotfix/src".into());
    let end = create(&mut w, git_request(Some("Hotfix"), None));
    assert_eq!(end, Ok(0));
    assert_eq!(w.made, vec!["/r/repo-wts".to_string()]);
    assert!(w.said.contains(&"wts: creating workspace 'hotfix' at /r/repo-wts/hotfix".to_string()));
    assert!(w.ran.contains(&"git worktree add -b hotfix /r/repo-wts/hotfix HEAD".to_string()));
    // `.env` is listed twice but copied once
    assert_eq!(w.copied, vec![("/r/repo/.env".to_string(), "/r/repo-wts/hotfix/.env".to_string())]);
    assert!(w.said.contains(&"wts: copied 1 file(s) into the new workspace".to_string()));
    assert_eq!(w.cd, vec!["/r/repo-wts/hotfix/src".to_string()]);
}

#[test]
fn git_create_auto_name_from_short_hash_and_subject() {
    let mut w = git_world();
    w.config.insert("wts.branchPrefix".into(), "me/".into());
    let end = create(&mut w, git_request(None, None));
    assert_eq!(end, Ok(0));
    assert!(w
        .ran
        .contains(&"git worktree add -b me/abc1234-fix-the-login-bug /r/repo-wts/abc1234-fix-the-login-bug HEAD".to_string()));
    // the mirrored subdirectory is missing, so the cd lands on the root
    assert_eq!(w.cd, vec!["/r/repo-wts/abc1234-fix-the-login-bug".to_string()]);
}

#[test]
fn git_create_detached_and_custom_suffix() {
    let mut w = git_world();
    w.config.insert("wts.createBranch".into(), "false".into());
    w.config.insert("wts.containerSuffix".into(), ".trees".into());
    let end = create(&mut w, git_request(Some("x"), None));
    assert_eq!(end, Ok(0));
    assert!(w.ran.contains(&"git worktree add --detach /r/repo.trees/x HEAD".to_string()));
}

#[test]
fn create_without_default_action_fails_before_anything_is_made() {
    let mut w = git_world();
    w.config.clear();
    let end = create(&mut w, git_request(Some("x"), None));
    assert_eq!(
        end,
        Err("no default action configured; pass -a/--action NAME, or set one with e.g. `jj config set --user wts.action.default cd` or `git config wts.action.default cd`".to_string())
    );
    assert!(w.made.is_empty() && w.ran.is_empty());
}

#[test]
fn create_with_unknown_action_names_it() {
    let mut w = git_world();
    let end = create(&mut w, git_request(Some("x"), Some("nope")));
    assert_eq!(
        end,
        Err("no action 'nope' configured; set wts.action.nope, or use the built-in `cd`".to_string())
    );
    assert!(w.made.is_empty());
}

#[test]
fn create_refuses_a_nonempty_destination() {
    let mut w = git_world();
    w.nonempty.insert("/r/repo-wts/x".into());
    let end = create(&mut w, git_request(Some("x"), None));
    assert_eq!(end, Err("destination already exists and is not empty: /r/repo-wts/x".to_string()));
    assert!(w.made.is_empty());
}

#[test]
fn create_refuses_an_empty_derived_name() {
    let mut w = git_world();
    let end = create(&mut w, git_request(Some("!!!"), None));
    assert_eq!(end, Err("derived workspace name is empty; pass --name NAME".to_string()));
}

#[test]
fn git_create_on_unborn_head_explains() {
    let mut w = git_world();
    w.failing.push("worktree add".into());
    let end = create(&mut w, git_request(Some("x"), None));
    assert_eq!(
        end,
        Err("the repo has no commits yet — make an initial commit (e.g. `git commit --allow-empty -m init`) before creating a worktree".to_string())
    );
}

#[test]
fn create_runs_a_script_action_and_passes_its_exit_code() {
    let mut w = git_world();
    w.config.insert("wts.action.open".into(), "~/bin/open.fish".into());
    w.script_code = Some(3);
    let end = create(&mut w, git_request(Some("x"), Some("open")));
    assert_eq!(end, Ok(3));
    assert!(w.said.contains(&"wts: running action (/home/me/bin/open.fish)".to_string()));
    assert!(w.ran.contains(&"/home/me/bin/open.fish /r/repo-wts/x".to_string()));
    assert!(w.cd.is_empty());
}

#[test]
fn jj_create_names_after_change_id_and_passes_revision() {
    let mut w = World::default();
    w.config.insert("wts.action.default".into(), "cd".into());
    w.jj_log = "qlvrqrmx\tFix the login bug\n".into();
    let request = CreateRequest {
        backend: Backend::Jj,
        root: "/d/sail".to_string(),
        revision: Some("main".to_string()),
        name: None,
        action: None,
        home: None,
        cwd: None,
    };
    let end = create(&mut w, request);
    assert_eq!(end, Ok(0));
    assert!(w.ran.contains(
        &"jj workspace add --name qlvrqrmx-fix-the-login-bug --revision main /d/sail-wts/qlvrqrmx-fix-the-login-bug"
            .to_string()
    ));
    assert_eq!(w.cd, vec!["/d/sail-wts/qlvrqrmx-fix-the-login-bug".to_string()]);
}

fn rm_request(backend: Backend, root: &str, names: &[&str], cwd: &str) -> RmRequest {
    RmRequest {
        backend,
        root: root.to_string(),
        names: names.iter().map(|s| s.to_string()).collect(),
        cwd: Some(cwd.to_string()),
    }
}

#[test]
fn git_rm_by_name_removes_worktree_and_branch() {
    let mut w = World::default();
    w.git_porcelain = "worktree /r/repo\n\nworktree /r/repo-wts/feat\n".into();
    w.dirs.insert("/r/repo-wts/feat".into());
    let end = remove(&mut w, rm_request(Backend::Git, "/r/repo", &["feat"], "/r/repo"));
    assert_eq!(end, Ok(0));
    assert!(w.ran.contains(&"git -C /r/repo worktree remove --force /r/repo-wts/feat".to_string()));
    assert!(w.ran.contains(&"git -C /r/repo branch -D feat".to_string()));
    assert!(w.said.contains(&"wts: removed workspace 'feat' (/r/repo-wts/feat)".to_string()));
    assert!(w.cd.is_empty());
}

#[test]
fn git_rm_no_arg_inside_worktree_cds_back_to_main() {
    let mut w = World::default();
    w.git_porcelain = "worktree /r/repo\n\nworktree /r/repo-wts/feat\n".into();
    w.dirs.insert("/r/repo-wts/feat".into());
    let end = remove(&mut w, rm_request(Backend::Git, "/r/repo-wts/feat", &[], "/r/repo-wts/feat/src"));
    assert_eq!(end, Ok(0));
    assert!(w.said.contains(&"wts: removing current workspace 'feat'".to_string()));
    assert_eq!(w.cd, vec!["/r/repo".to_string()]);
}

#[test]
fn rm_no_arg_from_main_repo_fails() {
    let mut w = World::default();
    let end = remove(&mut w, rm_request(Backend::Git, "/r/repo", &[], "/r/repo"));
    assert_eq!(end, Err("no workspace name given and not inside a wts workspace".to_string()));
    assert!(w.ran.is_empty() && w.removed.is_empty());
}

#[test]
fn rm_unknown_name_is_an_error_and_removes_nothing() {
    let mut w = World::default();
    w.dirs.insert("/r/repo".into());
    let end = remove(&mut w, rm_request(Backend::Git, "/r/repo", &["ghost"], "/r/repo"));
    assert_eq!(end, Ok(1));
    assert!(w.said.contains(&"wts: no such workspace: 'ghost'".to_string()));
    assert!(w.ran.is_empty() && w.removed.is_empty());
}

#[test]
fn jj_rm_refuses_default_and_removes_the_rest() {
    let mut w = World::default();
    w.jj_listing = "default: aaa\nfeat: bbb\n".into();
    w.dirs.insert("/d/sail-wts/feat".into());
    let end = remove(&mut w, rm_request(Backend::Jj, "/d/sail", &["default", "feat"], "/d/sail"));
    assert_eq!(end, Ok(1));
    assert!(w.said.contains(&"wts: refusing to remove the 'default' (main) workspace".to_string()));
    assert!(w.ran.contains(&"jj -R /d/sail workspace forget feat".to_string()));
    assert!(!w.ran.iter().any(|l| l.contains("forget default")));
    assert_eq!(w.removed, vec!["/d/sail-wts/feat".to_string()]);
}

#[test]
fn jj_rm_forgets_a_registered_workspace_with_no_folder() {
    let mut w = World::default();
    w.jj_listing = "default: aaa\nfeat: bbb\n".into();
    let end = remove(&mut w, rm_request(Backend::Jj, "/d/sail", &["feat"], "/d/sail"));
    assert_eq!(end, Ok(0));
    assert!(w.said.contains(&"wts: forgot 'feat' (no folder at /d/sail-wts/feat)".to_string()));
    assert!(w.removed.is_empty());
}

#[test]
fn jj_rm_forget_failure_leaves_folder() {
    let mut w = World::default();
    w.jj_listing = "default: aaa\nfeat: bbb\n".into();
    w.dirs.insert("/d/sail-wts/feat".into());
    w.failing.push("forget".into());
    let end = remove(&mut w, rm_request(Backend::Jj, "/d/sail", &["feat"], "/d/sail"));
    assert_eq!(end, Ok(1));
    assert!(w.said.contains(&"wts: 'jj workspace forget feat' failed; leaving folder in place".to_string()));
    assert!(w.removed.is_empty());
}

#[test]
fn jj_rm_current_uses_jj_name() {
    let mut w = World::default();
    w.jj_listing = "default: aaa\nrenamed: bbb\n".into();
    w.jj_current = "renamed\n".into();
    w.dirs.insert("/d/sail-wts/folder".into());
    let end = remove(&mut w, rm_request(Backend::Jj, "/d/sail-wts/folder", &[], "/d/sail-wts/folder"));
    assert_eq!(end, Ok(0));
    assert!(w.ran.contains(&"jj -R /d/sail workspace forget renamed".to_string()));
    assert_eq!(w.removed, vec!["/d/sail-wts/folder".to_string()]);
    assert_eq!(w.cd, vec!["/d/sail".to_string()]);
}

#[test]
fn git_rm_dot_from_worktree_root_resolves_to_it() {
    let mut w = World::default();
    w.git_porcelain = "worktree /r/repo\n\nworktree /r/repo-wts/feat\n".into();
    w.dirs.insert("/r/repo-wts".into());
    w.dirs.insert("/r/repo-wts/feat".into());
    let end = remove(&mut w, rm_request(Backend::Git, "/r/repo-wts/feat", &["."], "/r/repo-wts/feat"));
    assert_eq!(end, Ok(0));
    assert!(w.ran.contains(&"git -C /r/repo worktree remove --force /r/repo-wts/feat".to_string()));
    assert_eq!(w.cd, vec!["/r/repo".to_string()]);
}

#[test]
fn git_rm_dotdot_refuses_container() {
    let mut w = World::default();
    w.dirs.insert("/r/repo-wts".into());
    w.dirs.insert("/r/repo-wts/feat".into());
    let end = remove(&mut w, rm_request(Backend::Git, "/r/repo-wts/feat", &[".."], "/r/repo-wts/feat"));
    assert_eq!(end, Ok(1));
    assert!(w.said.contains(&"wts: no such workspace: '..'".to_string()));
    assert!(w.ran.is_empty() && w.removed.is_empty());
}

#[test]
fn git_rm_failed_remove_prunes_and_deletes_leftover() {
    let mut w = World::default();
    w.git_porcelain = "worktree /r/repo\n\nworktree /r/repo-wts/feat\n".into();
    w.dirs.insert("/r/repo-wts/feat".into());
    w.failing.push("worktree remove".into());
    let end = remove(&mut w, rm_request(Backend::Git, "/r/repo", &["feat"], "/r/repo"));
    assert_eq!(end, Ok(0));
    assert!(w.ran.contains(&"git -C /r/repo worktree prune".to_string()));
    assert_eq!(w.removed, vec!["/r/repo-wts/feat".to_string()]);
}

#[test]
fn jj_rm_no_arg_from_main_repo_fails_and_touches_nothing() {
    let mut w = World::default();
    w.jj_listing = "default: aaa\nfeat: bbb\n".into();
    let end = remove(&mut w, rm_request(Backend::Jj, "/d/sail", &[], "/d/sail"));
    assert_eq!(end, Err("no workspace name given and not inside a wts workspace".to_string()));
    assert!(w.ran.is_empty() && w.removed.is_empty());
}
