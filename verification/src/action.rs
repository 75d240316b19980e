//! What a new workspace does once created: the built-in `cd`, or a script
//! configured under `wts.action.<name>`.
use vstd::prelude::*;
use crate::backend::{config_query, config_query_view, command_view, result_view, Backend, Command};
use crate::paths::{concat, str_eq, strip_prefix, strip_prefix_spec};
use crate::text::{trim, trim_str};

verus! {

/// What running `wts` does in the new workspace once it is created.
#[derive(Debug)]
pub enum Action {
    /// Built-in: cd the shell into the workspace (mirroring the subdirectory).
    Cd,
    /// Run a user script (path already tilde-expanded).
    Script(String),
}

/// An action, as text.
pub enum ActionSpec {
    Cd,
    Script(Seq<char>),
}

impl View for Action {
    type V = ActionSpec;

    open spec fn view(&self) -> ActionSpec {
        match self {
            Action::Cd => ActionSpec::Cd,
            Action::Script(s) => ActionSpec::Script(s@),
        }
    }
}

/// The config key of action `name`: `wts.action.<name>`.
pub open spec fn action_key(name: Seq<char>) -> Seq<char> {
    "wts.action."@ + name
}

/// The command that reads `wts.action.<name>` from the backend's config.
pub fn action_query(backend: Backend, name: &str) -> (c: Command)
    ensures
        command_view(c) == config_query_view(backend, action_key(name@)),
{
    let key = concat("wts.action.", name);
    config_query(backend, key.as_str())
}

/// `s` with a leading `~/` replaced by `$HOME/` when `HOME` is known.
pub open spec fn tilde_expanded(s: Seq<char>, home: Option<Seq<char>>) -> Seq<char> {
    match strip_prefix_spec(s, "~/"@) {
        Some(rest) => match home {
            Some(h) => h + "/"@ + rest,
            None => s,
        },
        None => s,
    }
}

/// Expands a leading `~/` to `$HOME/` (`home` is the value of `HOME`, if set).
pub fn expand_tilde(s: &str, home: &Option<String>) -> (r: String)
    ensures
        r@ == tilde_expanded(
            s@,
            match *home {
                Some(h) => Some(h@),
                None => None,
            },
        ),
{
    match strip_prefix(s, "~/") {
        Some(rest) => match home {
            Some(h) => {
                let a = concat(h.as_str(), "/");
                concat(a.as_str(), rest.as_str())
            },
            None => s.to_owned(),
        },
        None => s.to_owned(),
    }
}

/// The action that `name` resolves to: a non-blank `wts.action.<name>`
/// entry wins, the literal `cd` meaning the built-in; without one, `cd` is
/// still the built-in and any other name is unknown.
pub open spec fn resolved_action(
    name: Seq<char>,
    configured: Result<Seq<char>, Seq<char>>,
    home: Option<Seq<char>>,
) -> Option<ActionSpec> {
    match configured {
        Ok(v) if trim(v).len() > 0 => if trim(v) == "cd"@ {
            Some(ActionSpec::Cd)
        } else {
            Some(ActionSpec::Script(tilde_expanded(trim(v), home)))
        },
        _ => if name == "cd"@ {
            Some(ActionSpec::Cd)
        } else {
            None
        },
    }
}

/// Resolves action `name` from the answer to reading `wts.action.<name>`
/// (see `action_query`) and the value of `HOME`. Unknown names yield `None`.
pub fn resolve_action(name: &str, configured: &Result<String, String>, home: &Option<String>) -> (r:
    Option<Action>)
    ensures
        match r {
            Some(a) => resolved_action(
                name@,
                result_view(*configured),
                match *home {
                    Some(h) => Some(h@),
                    None => None,
                },
            ) == Some(a@),
            None => resolved_action(
                name@,
                result_view(*configured),
                match *home {
                    Some(h) => Some(h@),
                    None => None,
                },
            ) is None,
        },
{
    if let Ok(v) = configured {
        let t = trim_str(v.as_str());
        if !t.as_str().is_empty() {
            if str_eq(t.as_str(), "cd") {
                return Some(Action::Cd);
            }
            return Some(Action::Script(expand_tilde(t.as_str(), home)));
        }
    }
    if str_eq(name, "cd") {
        Some(Action::Cd)
    } else {
        None
    }
}

} // verus!
