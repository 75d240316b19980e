//! The two version-control backends, the commands wts runs against them, and
//! how their captured output is read: trimmed text, config strings and
//! booleans, the container suffix, and backend detection.
use vstd::prelude::*;
use crate::paths::{concat, path_join, joined_path};
use crate::text::{trim, trim_str};

verus! {

/// Which VCS backs the current repo; jj and git differ in how workspaces are
/// created, named, listed and configured.
#[derive(Clone, Copy, PartialEq, Eq, Structural, Debug)]
pub enum Backend {
    Jj,
    Git,
}

/// A program to run, with its arguments.
#[derive(Debug)]
pub struct Command {
    pub program: String,
    pub args: Vec<String>,
}

/// A command as text: the program and the arguments.
pub open spec fn command_view(c: Command) -> (Seq<char>, Seq<Seq<char>>) {
    (c.program@, c.args@.map_values(|a: String| a@))
}

/// How a run whose output was captured ended.
#[derive(Debug)]
pub enum RunResult {
    /// The program could not be started; the text of the error.
    SpawnFailed(String),
    /// The program ran to completion.
    Exited { success: bool, stdout: Vec<u8>, stderr: Vec<u8> },
}

/// What `String::from_utf8_lossy` gives for `bytes`.
pub uninterp spec fn utf8_lossy(bytes: Seq<u8>) -> Seq<char>;

/// Calls `String::from_utf8_lossy`. Claims the result is a function of the
/// bytes, and, as documented, that valid UTF-8 decodes to its characters.
#[verifier::external_body]
pub(crate) fn decode_lossy(bytes: &[u8]) -> (s: String)
    ensures
        s@ == utf8_lossy(bytes@),
        vstd::utf8::valid_utf8(bytes@) ==> s@ == vstd::utf8::decode_utf8(bytes@),
{
    String::from_utf8_lossy(bytes).into_owned()
}

/// A `Result` of strings, as text.
pub open spec fn result_view(r: Result<String, String>) -> Result<Seq<char>, Seq<char>> {
    match r {
        Ok(s) => Ok(s@),
        Err(e) => Err(e@),
    }
}

/// What capturing a run of `program` yields: the trimmed stdout on success,
/// the trimmed stderr on failure, or a note that it could not be started.
pub open spec fn captured(program: Seq<char>, run: RunResult) -> Result<Seq<char>, Seq<char>> {
    match run {
        RunResult::SpawnFailed(e) => Err("failed to run "@ + program + ": "@ + e@),
        RunResult::Exited { success, stdout, stderr } => if success {
            Ok(trim(utf8_lossy(stdout@)))
        } else {
            Err(trim(utf8_lossy(stderr@)))
        },
    }
}

/// The outcome of a captured run of `program`.
pub fn capture(program: &str, run: &RunResult) -> (r: Result<String, String>)
    ensures
        result_view(r) == captured(program@, *run),
{
    match run {
        RunResult::SpawnFailed(e) => {
            let a = concat("failed to run ", program);
            let b = concat(a.as_str(), ": ");
            Err(concat(b.as_str(), e.as_str()))
        },
        RunResult::Exited { success, stdout, stderr } => {
            if *success {
                let s = decode_lossy(stdout.as_slice());
                Ok(trim_str(s.as_str()))
            } else {
                let s = decode_lossy(stderr.as_slice());
                Err(trim_str(s.as_str()))
            }
        },
    }
}

/// The outcome of a captured `jj` run: trimmed stdout, or trimmed stderr as
/// the error.
pub fn jj_capture(run: &RunResult) -> (r: Result<String, String>)
    ensures
        result_view(r) == captured("jj"@, *run),
{
    capture("jj", run)
}

/// The outcome of a captured `git` run: trimmed stdout, or trimmed stderr as
/// the error. git exits 1 for an unset config key, so readers of optional
/// config treat any error as "unset".
pub fn git_capture(run: &RunResult) -> (r: Result<String, String>)
    ensures
        result_view(r) == captured("git"@, *run),
{
    capture("git", run)
}

/// A configured string, or `default` if unset or blank.
pub open spec fn config_str(answer: Result<Seq<char>, Seq<char>>, default: Seq<char>) -> Seq<char> {
    match answer {
        Ok(s) => if trim(s).len() > 0 {
            trim(s)
        } else {
            default
        },
        Err(_) => default,
    }
}

/// Reads a scalar git config string from the answer to
/// `git config --get <key>`, or `default` if unset or blank.
pub fn git_config_str(answer: &Result<String, String>, default: &str) -> (r: String)
    ensures
        r@ == config_str(result_view(*answer), default@),
{
    match answer {
        Ok(s) => {
            let t = trim_str(s.as_str());
            if t.as_str().is_empty() {
                default.to_owned()
            } else {
                t
            }
        },
        Err(_) => default.to_owned(),
    }
}

/// A configured boolean, or `default` if unset.
pub open spec fn config_bool(answer: Result<Seq<char>, Seq<char>>, default: bool) -> bool {
    match answer {
        Ok(s) => trim(s) == "true"@,
        Err(_) => default,
    }
}

/// Reads a boolean git config knob from the answer to
/// `git config --type=bool --get <key>` (which normalizes yes/on/1 to
/// `true`), or `default` if unset.
pub fn git_config_bool(answer: &Result<String, String>, default: bool) -> (r: bool)
    ensures
        r == config_bool(result_view(*answer), default),
{
    match answer {
        Ok(s) => {
            let t = trim_str(s.as_str());
            let want = "true".to_owned();
            t == want
        },
        Err(_) => default,
    }
}

/// The historical container suffix, and git's default for it.
pub open spec fn default_suffix() -> Seq<char> {
    "-wts"@
}

/// The container suffix: jj keeps `-wts`; git reads `wts.containerSuffix`.
pub open spec fn suffix_for(backend: Backend, answer: Result<Seq<char>, Seq<char>>) -> Seq<char> {
    match backend {
        Backend::Jj => default_suffix(),
        Backend::Git => config_str(answer, default_suffix()),
    }
}

/// The suffix of the sibling container dir (`<repo><suffix>`). For git,
/// `answer` is the outcome of reading `wts.containerSuffix`; jj ignores it.
pub fn container_suffix(backend: Backend, answer: &Result<String, String>) -> (r: String)
    ensures
        r@ == suffix_for(backend, result_view(*answer)),
{
    match backend {
        Backend::Jj => "-wts".to_owned(),
        Backend::Git => git_config_str(answer, "-wts"),
    }
}

/// `[a, b, ...]` as owned strings.
pub fn strings(items: &[&str]) -> (r: Vec<String>)
    ensures
        r@.map_values(|a: String| a@) == items@.map_values(|a: &str| a@),
{
    let mut out: Vec<String> = Vec::new();
    let mut k: usize = 0;
    while k < items.len()
        invariant
            k <= items.len(),
            out@.map_values(|a: String| a@) == items@.take(k as int).map_values(|a: &str| a@),
        decreases items.len() - k,
    {
        let ghost prev = out@;
        let s = items[k].to_owned();
        out.push(s);
        assert(out@.map_values(|a: String| a@) =~= prev.map_values(|a: String| a@).push(s@));
        assert(items@.take(k + 1) =~= items@.take(k as int).push(items@[k as int]));
        assert(out@.map_values(|a: String| a@) =~= items@.take(k + 1).map_values(|a: &str| a@));
        k = k + 1;
    }
    assert(items@.take(items.len() as int) =~= items@);
    out
}

/// A command for `program` with `args`.
pub fn command(program: &str, args: &[&str]) -> (c: Command)
    ensures
        command_view(c) == (program@, args@.map_values(|a: &str| a@)),
{
    Command { program: program.to_owned(), args: strings(args) }
}

/// `git config --get <key>`.
pub fn git_config_query(key: &str) -> (c: Command)
    ensures
        command_view(c) == ("git"@, seq!["config"@, "--get"@, key@]),
{
    let c = command("git", &["config", "--get", key]);
    assert(command_view(c).1 =~= seq!["config"@, "--get"@, key@]);
    c
}

/// `git config --type=bool --get <key>`.
pub fn git_config_bool_query(key: &str) -> (c: Command)
    ensures
        command_view(c) == ("git"@, seq!["config"@, "--type=bool"@, "--get"@, key@]),
{
    let c = command("git", &["config", "--type=bool", "--get", key]);
    assert(command_view(c).1 =~= seq!["config"@, "--type=bool"@, "--get"@, key@]);
    c
}

/// `jj config get <key>`.
pub fn jj_config_query(key: &str) -> (c: Command)
    ensures
        command_view(c) == ("jj"@, seq!["config"@, "get"@, key@]),
{
    let c = command("jj", &["config", "get", key]);
    assert(command_view(c).1 =~= seq!["config"@, "get"@, key@]);
    c
}

/// Reading the config entry `key` of the backend.
pub open spec fn config_query_view(backend: Backend, key: Seq<char>) -> (Seq<char>, Seq<Seq<char>>) {
    match backend {
        Backend::Jj => ("jj"@, seq!["config"@, "get"@, key]),
        Backend::Git => ("git"@, seq!["config"@, "--get"@, key]),
    }
}

/// The command that reads the config entry `key` of the backend.
pub fn config_query(backend: Backend, key: &str) -> (c: Command)
    ensures
        command_view(c) == config_query_view(backend, key@),
{
    match backend {
        Backend::Jj => jj_config_query(key),
        Backend::Git => git_config_query(key),
    }
}

/// `jj workspace root`: where detection starts.
pub fn jj_root_query() -> (c: Command)
    ensures
        command_view(c) == ("jj"@, seq!["workspace"@, "root"@]),
{
    let c = command("jj", &["workspace", "root"]);
    assert(command_view(c).1 =~= seq!["workspace"@, "root"@]);
    c
}

/// `git rev-parse --show-toplevel`: detection's fallback.
pub fn git_toplevel_query() -> (c: Command)
    ensures
        command_view(c) == ("git"@, seq!["rev-parse"@, "--show-toplevel"@]),
{
    let c = command("git", &["rev-parse", "--show-toplevel"]);
    assert(command_view(c).1 =~= seq!["rev-parse"@, "--show-toplevel"@]);
    c
}

/// Where a jj repo keeps its metadata, under the reported root.
pub fn jj_marker_path(root: &str) -> (p: String)
    ensures
        p@ == joined_path(root@, ".jj"@),
{
    path_join(root, ".jj")
}

/// Where backend detection stands.
#[derive(Debug)]
pub enum Detection {
    /// The backend and the repo root.
    Found(Backend, String),
    /// jj did not claim the directory; ask git (`git_toplevel_query`).
    AskGit,
    /// Neither jj nor git claims the directory.
    NotARepo,
}

/// The detection outcome, as text.
pub open spec fn detection_view(d: Detection) -> (int, Backend, Seq<char>) {
    match d {
        Detection::Found(b, r) => (0, b, r@),
        Detection::AskGit => (1, Backend::Jj, Seq::empty()),
        Detection::NotARepo => (2, Backend::Jj, Seq::empty()),
    }
}

/// Detection: jj wins when it reports a root holding a `.jj` dir (so a
/// colocated jj+git repo is jj); otherwise git's top-level, if any.
pub open spec fn detected(
    jj_root: Result<Seq<char>, Seq<char>>,
    jj_marker_is_dir: bool,
    git_top: Option<Result<Seq<char>, Seq<char>>>,
) -> (int, Backend, Seq<char>) {
    match jj_root {
        Ok(r) if jj_marker_is_dir => (0, Backend::Jj, r),
        _ => match git_top {
            None => (1, Backend::Jj, Seq::empty()),
            Some(Ok(t)) => (0, Backend::Git, t),
            Some(Err(_)) => (2, Backend::Jj, Seq::empty()),
        },
    }
}

/// Detects the VCS backend and the repo root from the answer to
/// `jj workspace root`, whether `<that root>/.jj` is a directory (`false` when
/// jj failed), and, once asked for, the answer to
/// `git rev-parse --show-toplevel`.
pub fn detect_backend(
    jj_root: &Result<String, String>,
    jj_marker_is_dir: bool,
    git_top: &Option<Result<String, String>>,
) -> (d: Detection)
    ensures
        detection_view(d) == detected(
            result_view(*jj_root),
            jj_marker_is_dir,
            match *git_top {
                Some(g) => Some(result_view(g)),
                None => None,
            },
        ),
{
    if let Ok(r) = jj_root {
        if jj_marker_is_dir {
            return Detection::Found(Backend::Jj, r.clone());
        }
    }
    match git_top {
        None => Detection::AskGit,
        Some(Ok(t)) => Detection::Found(Backend::Git, t.clone()),
        Some(Err(_)) => Detection::NotARepo,
    }
}

} // verus!
