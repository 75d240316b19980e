//! The protocol between the create/remove machines and the program that
//! drives them: each `Step` is one thing to do outside (run a command, look
//! at the filesystem, print), and the matching `Event` reports how it went.
use vstd::prelude::*;
use crate::backend::{command_view, Command, RunResult};
use crate::paths::concat;

verus! {

/// How a command that ran ended.
#[derive(Debug)]
pub struct Exit {
    pub success: bool,
    /// The exit code, when the process exited with one.
    pub code: Option<i32>,
}

/// What the outside reports back after a `Step`.
#[derive(Debug)]
pub enum Event {
    /// The captured run of a `Step::Capture`.
    Ran(RunResult),
    /// How a `Step::Run`, `Step::RunQuiet` or `Step::RunScript` ended, or the
    /// text of the error that kept it from starting.
    Exited(Result<Exit, String>),
    /// The answer to a `Step::ProbeNonEmpty`, `Step::ProbeExists` or `Step::ProbeIsDir`.
    Flag(bool),
    /// The canonical forms of the two paths of a `Step::Canonicalize`
    /// (`None` where canonicalizing failed or there was no path).
    Canonical(Option<String>, Option<String>),
    /// How a `Step::MakeDirs` or `Step::RemoveTree` went.
    Done(Result<(), String>),
    /// The paths a `Step::Glob` matched (unreadable entries left out), or
    /// the text of the pattern error.
    Matches(Result<Vec<String>, String>),
    /// The number of files a `Step::CopyPath` wrote, or the error text.
    Copied(Result<usize, String>),
    /// A `Step::Say` or `Step::Cd` was carried out.
    Ack,
}

/// One thing for the outside to do next.
#[derive(Debug)]
pub enum Step {
    /// Run the command with its output captured; answer `Event::Ran`.
    Capture(Command),
    /// Run the command attached to the terminal; answer `Event::Exited`.
    Run(Command),
    /// Run the command with its output captured and dropped; answer `Event::Exited`.
    RunQuiet(Command),
    /// Whether the path is a directory with at least one entry (false when
    /// missing or unreadable); answer `Event::Flag`.
    ProbeNonEmpty(String),
    /// Whether the path exists; answer `Event::Flag`.
    ProbeExists(String),
    /// Whether the path is a directory; answer `Event::Flag`.
    ProbeIsDir(String),
    /// Canonicalize both paths (the first may be absent); answer `Event::Canonical`.
    Canonicalize(Option<String>, String),
    /// Create the directory and its parents; answer `Event::Done`.
    MakeDirs(String),
    /// Delete the directory tree; answer `Event::Done`.
    RemoveTree(String),
    /// Expand the glob pattern; answer `Event::Matches`.
    Glob(String),
    /// Copy the file or directory tree at the first path to the second,
    /// creating parents; answer `Event::Copied`.
    CopyPath(String, String),
    /// Print the line to stderr; answer `Event::Ack`.
    Say(String),
    /// Have the shell cd into the path (via `WTS_CD_FILE`); answer `Event::Ack`.
    Cd(String),
    /// Run the script with the directory as its argument, working directory
    /// and `WTS_DIR`, attached to the terminal; answer `Event::Exited`.
    RunScript(String, String),
    /// Exit with the code.
    Finish(i32),
    /// Print `wts: error: <text>` and exit with code 1.
    Fail(String),
}

/// A step, as text.
pub enum StepV {
    Capture((Seq<char>, Seq<Seq<char>>)),
    Run((Seq<char>, Seq<Seq<char>>)),
    RunQuiet((Seq<char>, Seq<Seq<char>>)),
    ProbeNonEmpty(Seq<char>),
    ProbeExists(Seq<char>),
    ProbeIsDir(Seq<char>),
    Canonicalize(Option<Seq<char>>, Seq<char>),
    MakeDirs(Seq<char>),
    RemoveTree(Seq<char>),
    Glob(Seq<char>),
    CopyPath(Seq<char>, Seq<char>),
    Say(Seq<char>),
    Cd(Seq<char>),
    RunScript(Seq<char>, Seq<char>),
    Finish(int),
    Fail(Seq<char>),
}

/// An optional string, as text.
pub open spec fn opt_v(o: Option<String>) -> Option<Seq<char>> {
    match o {
        Some(s) => Some(s@),
        None => None,
    }
}

impl View for Step {
    type V = StepV;

    open spec fn view(&self) -> StepV {
        match self {
            Step::Capture(c) => StepV::Capture(command_view(*c)),
            Step::Run(c) => StepV::Run(command_view(*c)),
            Step::RunQuiet(c) => StepV::RunQuiet(command_view(*c)),
            Step::ProbeNonEmpty(p) => StepV::ProbeNonEmpty(p@),
            Step::ProbeExists(p) => StepV::ProbeExists(p@),
            Step::ProbeIsDir(p) => StepV::ProbeIsDir(p@),
            Step::Canonicalize(a, b) => StepV::Canonicalize(opt_v(*a), b@),
            Step::MakeDirs(p) => StepV::MakeDirs(p@),
            Step::RemoveTree(p) => StepV::RemoveTree(p@),
            Step::Glob(p) => StepV::Glob(p@),
            Step::CopyPath(a, b) => StepV::CopyPath(a@, b@),
            Step::Say(s) => StepV::Say(s@),
            Step::Cd(p) => StepV::Cd(p@),
            Step::RunScript(a, b) => StepV::RunScript(a@, b@),
            Step::Finish(c) => StepV::Finish(*c as int),
            Step::Fail(s) => StepV::Fail(s@),
        }
    }
}

/// The text of an answer that does not fit the step it answers.
pub open spec fn unexpected_text() -> Seq<char> {
    "internal error: unexpected answer from the outside"@
}

/// The step that ends a run whose driver answered out of turn.
pub fn unexpected() -> (s: Step)
    ensures
        s@ == StepV::Fail(unexpected_text()),
{
    Step::Fail("internal error: unexpected answer from the outside".to_owned())
}

/// The decimal digits of `n`.
pub open spec fn decimal(n: nat) -> Seq<char>
    decreases n,
{
    if n < 10 {
        seq![((n as int) + 48) as char]
    } else {
        decimal(n / 10) + seq![((n % 10) as int + 48) as char]
    }
}

/// `n` written in decimal.
pub fn decimal_string(n: usize) -> (s: String)
    ensures
        s@ == decimal(n as nat),
    decreases n,
{
    let d = ((n % 10) as u8 + 48) as char;
    let one = crate::text::string_of(&[d]);
    assert(one@ == seq![d]);
    if n < 10 {
        one
    } else {
        let head = decimal_string(n / 10);
        concat(head.as_str(), one.as_str())
    }
}

/// `a`, `b` and `c` in a row.
pub fn concat3(a: &str, b: &str, c: &str) -> (r: String)
    ensures
        r@ == a@ + b@ + c@,
{
    let ab = concat(a, b);
    concat(ab.as_str(), c)
}

} // verus!
