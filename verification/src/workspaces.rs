//! The workspaces a backend knows about, and what a `wts rm` argument names.
use vstd::prelude::*;
use crate::backend::{command, command_view, result_view, Backend, Command};
use crate::paths::{
    contains_char, file_name_of, has_root, is_plain_component, is_settled_dir, joined_path,
    lemma_join_plain, parent_of, path_eq, path_file_name, path_is_absolute, path_join, path_parent,
    std_path_eq, str_eq, strip_prefix, strip_prefix_spec,
};
use crate::text::{find_char_from, chars_of, first_or_len, lines, split_lines, string_of_range, trim, trim_str, views};

verus! {

/// The text of `l` before its first `:` (all of it when there is none).
pub open spec fn before_colon(l: Seq<char>) -> Seq<char> {
    l.take(first_or_len(l, ':'))
}

/// For each line of a `jj workspace list`, the trimmed text before the first `:`.
pub open spec fn jj_listing_names(ls: Seq<Seq<char>>) -> Seq<Seq<char>>
    decreases ls.len(),
{
    if ls.len() == 0 {
        Seq::empty()
    } else {
        jj_listing_names(ls.drop_last()).push(trim(before_colon(ls.last())))
    }
}

/// The paths on the `worktree <path>` lines of a porcelain listing, in order.
pub open spec fn worktree_paths(ls: Seq<Seq<char>>) -> Seq<Seq<char>>
    decreases ls.len(),
{
    if ls.len() == 0 {
        Seq::empty()
    } else {
        match strip_prefix_spec(ls.last(), "worktree "@) {
            Some(p) => worktree_paths(ls.drop_last()).push(p),
            None => worktree_paths(ls.drop_last()),
        }
    }
}

/// The file names of `ps`, for those that have one.
pub open spec fn file_names(ps: Seq<Seq<char>>) -> Seq<Seq<char>>
    decreases ps.len(),
{
    if ps.len() == 0 {
        Seq::empty()
    } else {
        match file_name_of(ps.last()) {
            Some(n) => file_names(ps.drop_last()).push(n),
            None => file_names(ps.drop_last()),
        }
    }
}

/// The folder names of the linked worktrees in `git worktree list
/// --porcelain` output: every `worktree` record but the first (the main one).
pub open spec fn linked_names(porcelain: Seq<char>) -> Seq<Seq<char>> {
    let ps = worktree_paths(lines(porcelain));
    if ps.len() == 0 {
        Seq::empty()
    } else {
        file_names(ps.drop_first())
    }
}

/// Parses `git worktree list --porcelain` into the basenames of the linked
/// worktrees, skipping the first record (always the main worktree).
pub fn linked_worktree_names(porcelain: &str) -> (r: Vec<String>)
    ensures
        views(r@) == linked_names(porcelain@),
{
    let ls = split_lines(porcelain);
    let ghost all = views(ls@);
    let mut names: Vec<String> = Vec::new();
    let mut first = true;
    let mut k: usize = 0;
    while k < ls.len()
        invariant
            k <= ls.len(),
            all == views(ls@),
            all == lines(porcelain@),
            first == (worktree_paths(all.take(k as int)).len() == 0),
            views(names@) == if first {
                Seq::empty()
            } else {
                file_names(worktree_paths(all.take(k as int)).drop_first())
            },
        decreases ls.len() - k,
    {
        let ghost pre = all.take(k as int);
        proof {
            assert(all[k as int] == ls@[k as int]@);
            assert(all.take(k + 1) =~= pre.push(ls@[k as int]@));
            assert(pre.push(ls@[k as int]@).drop_last() =~= pre);
        }
        if let Some(path) = strip_prefix(ls[k].as_str(), "worktree ") {
            let ghost ps = worktree_paths(pre);
            assert(worktree_paths(all.take(k + 1)) == ps.push(path@));
            if first {
                first = false;
                assert(ps.push(path@).drop_first() =~= Seq::<Seq<char>>::empty());
            } else {
                assert(ps.push(path@).drop_first() =~= ps.drop_first().push(path@));
                assert(ps.drop_first().push(path@).drop_last() =~= ps.drop_first());
                if let Some(base) = path_file_name(path.as_str()) {
                    let ghost prev = names@;
                    names.push(base);
                    assert(views(names@) =~= views(prev).push(base@));
                }
            }
        }
        k = k + 1;
    }
    assert(all.take(ls.len() as int) =~= all);
    names
}

/// The names a backend reports for its workspaces: for jj, the part before
/// `:` of each line of `jj workspace list`; for git, the linked worktrees'
/// folder names. A failed listing reports none.
pub open spec fn known_names(backend: Backend, listing: Result<Seq<char>, Seq<char>>) -> Seq<
    Seq<char>,
> {
    let text = match listing {
        Ok(s) => s,
        Err(_) => Seq::empty(),
    };
    match backend {
        Backend::Jj => jj_listing_names(lines(text)),
        Backend::Git => linked_names(text),
    }
}

/// The command that lists the workspaces of the main repo at `main`.
pub open spec fn known_query_view(backend: Backend, main: Seq<char>) -> (
    Seq<char>,
    Seq<Seq<char>>,
) {
    match backend {
        Backend::Jj => ("jj"@, seq!["-R"@, main, "workspace"@, "list"@]),
        Backend::Git => ("git"@, seq!["-C"@, main, "worktree"@, "list"@, "--porcelain"@]),
    }
}

/// `jj -R <main> workspace list`, or `git -C <main> worktree list --porcelain`.
pub fn known_workspaces_query(backend: Backend, main: &str) -> (c: Command)
    ensures
        command_view(c) == known_query_view(backend, main@),
{
    match backend {
        Backend::Jj => {
            let c = command("jj", &["-R", main, "workspace", "list"]);
            assert(command_view(c).1 =~= seq!["-R"@, main@, "workspace"@, "list"@]);
            c
        },
        Backend::Git => {
            let c = command("git", &["-C", main, "worktree", "list", "--porcelain"]);
            assert(command_view(c).1 =~= seq![
                "-C"@,
                main@,
                "worktree"@,
                "list"@,
                "--porcelain"@,
            ]);
            c
        },
    }
}

/// The trimmed text before the first `:` of `l`.
fn listing_name(l: &str) -> (r: String)
    ensures
        r@ == trim(before_colon(l@)),
{
    let v = chars_of(l);
    let e = find_char_from(&v, 0, ':');
    assert(v@.skip(0) =~= v@);
    let head = string_of_range(&v, 0, e);
    assert(v@.subrange(0, e as int) =~= v@.take(e as int));
    trim_str(head.as_str())
}

/// The names of the workspaces the backend knows about, from the answer to
/// `known_workspaces_query` (so a typo'd `rm <name>` is a real error rather
/// than a silent no-op). For git the main worktree is excluded.
pub fn known_workspaces(backend: Backend, listing: &Result<String, String>) -> (r: Vec<String>)
    ensures
        views(r@) == known_names(backend, result_view(*listing)),
{
    let text = match listing {
        Ok(s) => s.clone(),
        Err(_) => String::new(),
    };
    match backend {
        Backend::Jj => {
            let ls = split_lines(text.as_str());
            let mut out: Vec<String> = Vec::new();
            let mut k: usize = 0;
            while k < ls.len()
                invariant
                    k <= ls.len(),
                    views(ls@) == lines(text@),
                    views(out@) == jj_listing_names(views(ls@).take(k as int)),
                decreases ls.len() - k,
            {
                let n = listing_name(ls[k].as_str());
                proof {
                    let pre = views(ls@).take(k as int);
                    assert(views(ls@)[k as int] == ls@[k as int]@);
                    assert(views(ls@).take(k + 1) =~= pre.push(ls@[k as int]@));
                    assert(pre.push(ls@[k as int]@).drop_last() =~= pre);
                }
                let ghost prev = out@;
                out.push(n);
                assert(views(out@) =~= views(prev).push(n@));
                k = k + 1;
            }
            assert(views(ls@).take(ls.len() as int) =~= views(ls@));
            out
        },
        Backend::Git => linked_worktree_names(text.as_str()),
    }
}

/// `known` holds `name`.
pub fn contains_name(known: &Vec<String>, name: &str) -> (b: bool)
    ensures
        b == views(known@).contains(name@),
{
    let mut k: usize = 0;
    while k < known.len()
        invariant
            k <= known.len(),
            forall|j: int| 0 <= j < k ==> known@[j]@ != name@,
        decreases known.len() - k,
    {
        if str_eq(known[k].as_str(), name) {
            assert(views(known@)[k as int] == name@);
            return true;
        }
        k = k + 1;
    }
    assert forall|j: int| 0 <= j < views(known@).len() implies views(known@)[j] != name@ by {
        assert(views(known@)[j] == known@[j]@);
    }
    false
}

/// The paths to look at before resolving a `wts rm` argument: the folder the
/// argument names inside the container, and the argument taken as a path
/// (absolute, or relative to `cwd`; `None` when relative with no `cwd`).
pub struct RmPaths {
    pub name_dir: String,
    pub as_path: Option<String>,
}

/// What the filesystem says about the paths in `RmPaths`: whether the named
/// folder exists, and the canonical forms of the argument's path and of the
/// container (`None` where canonicalizing failed).
pub struct RmProbe {
    pub name_dir_exists: bool,
    pub canonical: Option<String>,
    pub container_canonical: Option<String>,
}

/// The argument as a path: itself when absolute, else under `cwd`.
pub open spec fn arg_path(cwd: Option<Seq<char>>, arg: Seq<char>) -> Option<Seq<char>> {
    if has_root(arg) {
        Some(arg)
    } else {
        match cwd {
            Some(c) => Some(joined_path(c, arg)),
            None => None,
        }
    }
}

/// An optional string, as text.
pub open spec fn opt_view(o: Option<String>) -> Option<Seq<char>> {
    match o {
        Some(s) => Some(s@),
        None => None,
    }
}

/// The paths to probe for a `wts rm` argument.
pub fn rm_paths(container: &str, cwd: &Option<String>, arg: &str) -> (r: RmPaths)
    ensures
        r.name_dir@ == joined_path(container@, arg@),
        opt_view(r.as_path) == arg_path(opt_view(*cwd), arg@),
{
    let name_dir = path_join(container, arg);
    let as_path = if path_is_absolute(arg) {
        Some(arg.to_owned())
    } else {
        match cwd {
            Some(c) => Some(path_join(c.as_str(), arg)),
            None => None,
        }
    };
    RmPaths { name_dir, as_path }
}

/// What a `wts rm` argument names: first a worktree *name* (a plain
/// component that the backend knows or that is a folder in the container),
/// then a *path* that canonicalizes to a folder sitting directly in the
/// canonical container. `None` otherwise, which is what keeps `.`, `..`, the
/// container or the main repo from being taken for a removable workspace.
pub open spec fn rm_target(
    container: Seq<char>,
    known: Seq<Seq<char>>,
    arg: Seq<char>,
    arg_path: Option<Seq<char>>,
    name_dir_exists: bool,
    canonical: Option<Seq<char>>,
    container_canonical: Option<Seq<char>>,
) -> Option<(Seq<char>, Seq<char>)> {
    if is_plain_component(arg) && (known.contains(arg) || name_dir_exists) {
        Some((arg, joined_path(container, arg)))
    } else if arg_path is None {
        None
    } else {
        match (canonical, container_canonical) {
            (Some(c), Some(cc)) => match parent_of(c) {
                Some(pc) => if std_path_eq(pc, cc) {
                    match file_name_of(c) {
                        Some(n) => Some((n, c)),
                        None => None,
                    }
                } else {
                    None
                },
                None => None,
            },
            _ => None,
        }
    }
}

/// A target, as text.
pub open spec fn target_view(t: Option<(String, String)>) -> Option<(Seq<char>, Seq<char>)> {
    match t {
        Some((a, b)) => Some((a@, b@)),
        None => None,
    }
}

/// `arg` is a plain name: not empty, not `.` or `..`, no separator.
pub fn is_plain_name(arg: &str) -> (b: bool)
    ensures
        b == is_plain_component(arg@),
{
    proof {
        reveal_strlit(".");
        reveal_strlit("..");
        assert(".."@ =~= seq!['.', '.']);
        assert("."@ =~= seq!['.']);
    }
    let v = chars_of(arg);
    let has_sep = contains_char(arg, '/');
    if has_sep {
        let ghost i = choose|i: int| 0 <= i < arg@.len() && arg@[i] == '/';
        assert(arg@[i] == '/');
    }
    !(v.len() == 0 || str_eq(arg, ".") || str_eq(arg, "..") || has_sep)
}

/// Resolves a `wts rm` argument to a `(name, folder)` target, given the
/// backend's known names, the paths of `rm_paths` and what probing them found.
pub fn resolve_rm_target(
    container: &str,
    known: &Vec<String>,
    cwd: &Option<String>,
    arg: &str,
    probe: &RmProbe,
) -> (r: Option<(String, String)>)
    ensures
        target_view(r) == rm_target(
            container@,
            views(known@),
            arg@,
            arg_path(opt_view(*cwd), arg@),
            probe.name_dir_exists,
            opt_view(probe.canonical),
            opt_view(probe.container_canonical),
        ),
{
    if is_plain_name(arg) && (contains_name(known, arg) || probe.name_dir_exists) {
        return Some((arg.to_owned(), path_join(container, arg)));
    }
    if !path_is_absolute(arg) && cwd.is_none() {
        return None;
    }
    match (&probe.canonical, &probe.container_canonical) {
        (Some(c), Some(cc)) => match path_parent(c.as_str()) {
            Some(pc) => {
                if path_eq(pc.as_str(), cc.as_str()) {
                    match path_file_name(c.as_str()) {
                        Some(n) => Some((n, c.clone())),
                        None => None,
                    }
                } else {
                    None
                }
            },
            None => None,
        },
        _ => None,
    }
}

/// Whatever `wts rm` resolves an argument to is a folder named by a plain
/// component (never `.` or `..`) sitting directly in the container: under
/// the container itself when taken as a name, or with a parent equal to the
/// canonical container when taken as a path.
pub proof fn lemma_rm_target_in_container(
    container: Seq<char>,
    known: Seq<Seq<char>>,
    arg: Seq<char>,
    arg_path: Option<Seq<char>>,
    name_dir_exists: bool,
    canonical: Option<Seq<char>>,
    container_canonical: Option<Seq<char>>,
)
    ensures
        rm_target(
            container,
            known,
            arg,
            arg_path,
            name_dir_exists,
            canonical,
            container_canonical,
        ) matches Some((n, d)) ==> {
            &&& is_plain_component(n)
            &&& file_name_of(d) == Some(n)
            &&& (is_settled_dir(container) && d == joined_path(container, n) ==> parent_of(d) == Some(
                container,
            ))
            &&& (d != joined_path(container, n) ==> (container_canonical is Some && parent_of(d) is Some
                && std_path_eq(parent_of(d)->0, container_canonical->0)))
        },
{
    if is_plain_component(arg) && (known.contains(arg) || name_dir_exists) {
        lemma_join_plain(container, arg);
    } else if let (Some(c), Some(cc)) = (canonical, container_canonical) {
        crate::paths::lemma_file_name_plain(c);
        if let Some(n) = file_name_of(c) {
            if c == joined_path(container, n) {
                lemma_join_plain(container, n);
            }
        }
    }
}

/// The path case of `rm` resolution holds: `c` is the argument's canonical
/// path, sitting directly in the canonical container `cc`, with a file name.
pub open spec fn lands_in(c: Seq<char>, cc: Seq<char>) -> bool {
    &&& parent_of(c) is Some
    &&& std_path_eq(parent_of(c)->0, cc)
    &&& file_name_of(c) is Some
}

/// An argument that is not a known or present plain name is taken as a
/// path: when it is absolute, or relative with the current directory known,
/// and its canonical form sits directly in the canonical container, it
/// resolves to its file name and its canonical path. Otherwise it resolves
/// to nothing.
pub proof fn lemma_rm_target_by_path(
    container: Seq<char>,
    known: Seq<Seq<char>>,
    arg: Seq<char>,
    cwd: Option<Seq<char>>,
    name_dir_exists: bool,
    canonical: Option<Seq<char>>,
    container_canonical: Option<Seq<char>>,
)
    requires
        !(is_plain_component(arg) && (known.contains(arg) || name_dir_exists)),
    ensures
        has_root(arg) ==> arg_path(cwd, arg) == Some(arg),
        !has_root(arg) && cwd is Some ==> arg_path(cwd, arg) == Some(joined_path(cwd->0, arg)),
        ({
            let r = rm_target(
                container,
                known,
                arg,
                arg_path(cwd, arg),
                name_dir_exists,
                canonical,
                container_canonical,
            );
            let resolves = (has_root(arg) || cwd is Some) && canonical is Some
                && container_canonical is Some && lands_in(canonical->0, container_canonical->0);
            &&& resolves ==> r == Some((file_name_of(canonical->0)->0, canonical->0))
            &&& !resolves ==> r is None
        }),
{
}

/// A plain name that the backend knows, or that is a folder in the
/// container, resolves to itself and `<container>/<name>`, whatever the
/// paths say.
pub proof fn lemma_rm_target_by_name(
    container: Seq<char>,
    known: Seq<Seq<char>>,
    arg: Seq<char>,
    arg_path: Option<Seq<char>>,
    name_dir_exists: bool,
    canonical: Option<Seq<char>>,
    container_canonical: Option<Seq<char>>,
)
    requires
        is_plain_component(arg),
        known.contains(arg) || name_dir_exists,
    ensures
        rm_target(container, known, arg, arg_path, name_dir_exists, canonical, container_canonical)
            == Some((arg, joined_path(container, arg))),
{
}

} // verus!
