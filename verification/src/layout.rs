//! Where workspaces live: the `<repo><suffix>` container beside the main repo,
//! and which workspace the current root is.
use vstd::prelude::*;
use crate::backend::{result_view, Backend};
use crate::paths::{
    body_comps, body_start, concat, file_name_of, is_plain_component, is_settled_dir, joined_path,
    lemma_file_name_comps, lemma_join_comps, lemma_join_plain, lemma_parent_comps, next_back,
    parent_of, path_file_name, path_join, path_parent, same_path, strip_suffix, strip_suffix_spec,
};
use crate::text::{lines, split_lines, trim, trim_str, views};

verus! {

/// The container and the main repo for `root`, or why they cannot be found:
/// when the parent of `root` is itself named `<repo><suffix>`, `root` is a
/// workspace in it and the main repo is its sibling `<repo>`; otherwise
/// `root` is the main repo and the container is `<parent>/<name><suffix>`.
pub open spec fn layout_of(root: Seq<char>, suffix: Seq<char>) -> Result<
    (Seq<char>, Seq<char>),
    Seq<char>,
> {
    match parent_of(root) {
        None => Err("repo root has no parent directory"@),
        Some(parent) => match file_name_of(root) {
            None => Err("cannot determine repo name from root path"@),
            Some(base) => match file_name_of(parent) {
                Some(pb) if strip_suffix_spec(pb, suffix) is Some => match parent_of(parent) {
                    Some(g) => Ok((parent, joined_path(g, strip_suffix_spec(pb, suffix)->0))),
                    None => Err("cannot resolve main repo path"@),
                },
                _ => Ok((joined_path(parent, base + suffix), root)),
            },
        },
    }
}

/// A pair of strings, as text.
pub open spec fn pair_view(r: Result<(String, String), String>) -> Result<
    (Seq<char>, Seq<char>),
    Seq<char>,
> {
    match r {
        Ok((a, b)) => Ok((a@, b@)),
        Err(e) => Err(e@),
    }
}

/// Resolves the `<repo><suffix>` container and the main repo path, whether
/// `root` is the main repo itself or one of its `<repo><suffix>/<name>`
/// workspaces. The error is the reason, when `root` has no parent or name.
pub fn resolve_layout(root: &str, suffix: &str) -> (r: Result<(String, String), String>)
    ensures
        pair_view(r) == layout_of(root@, suffix@),
{
    let parent = match path_parent(root) {
        Some(p) => p,
        None => return Err("repo root has no parent directory".to_owned()),
    };
    let base = match path_file_name(root) {
        Some(b) => b,
        None => return Err("cannot determine repo name from root path".to_owned()),
    };
    if let Some(pb) = path_file_name(parent.as_str()) {
        if let Some(repo_name) = strip_suffix(pb.as_str(), suffix) {
            return match path_parent(parent.as_str()) {
                Some(g) => {
                    let main_repo = path_join(g.as_str(), repo_name.as_str());
                    Ok((parent, main_repo))
                },
                None => Err("cannot resolve main repo path".to_owned()),
            };
        }
    }
    let name = concat(base.as_str(), suffix);
    Ok((path_join(parent.as_str(), name.as_str()), root.to_owned()))
}

/// `root` sits directly in a `<repo><suffix>` container.
pub open spec fn in_container(root: Seq<char>, suffix: Seq<char>) -> bool {
    match parent_of(root) {
        Some(parent) => match file_name_of(parent) {
            Some(pb) => strip_suffix_spec(pb, suffix) is Some,
            None => false,
        },
        None => false,
    }
}

/// Whether `root` sits directly in a `<repo><suffix>` container, which is
/// what keeps the main workspace off-limits to a no-name `rm`.
pub fn in_wts_container(root: &str, suffix: &str) -> (b: bool)
    ensures
        b == in_container(root@, suffix@),
{
    match path_parent(root) {
        Some(parent) => match path_file_name(parent.as_str()) {
            Some(pb) => strip_suffix(pb.as_str(), suffix).is_some(),
            None => false,
        },
        None => false,
    }
}

/// The lines of `ls` trimmed, blank ones left out.
pub open spec fn trimmed_nonblank(ls: Seq<Seq<char>>) -> Seq<Seq<char>>
    decreases ls.len(),
{
    if ls.len() == 0 {
        Seq::empty()
    } else if trim(ls.last()).len() > 0 {
        trimmed_nonblank(ls.drop_last()).push(trim(ls.last()))
    } else {
        trimmed_nonblank(ls.drop_last())
    }
}

/// The non-blank lines of `s`, trimmed.
pub open spec fn trimmed_nonblank_lines(s: Seq<char>) -> Seq<Seq<char>> {
    trimmed_nonblank(lines(s))
}

/// The workspace name jj reports as owning the current working copy, when
/// it reports exactly one.
pub open spec fn jj_current_name(listing: Result<Seq<char>, Seq<char>>) -> Option<Seq<char>> {
    match listing {
        Ok(out) => if trimmed_nonblank_lines(out).len() == 1 {
            Some(trimmed_nonblank_lines(out)[0])
        } else {
            None
        },
        Err(_) => None,
    }
}

/// The name of the workspace at `root`, if `root` is a `<repo><suffix>/<name>`
/// worktree rather than the main repo. git: the folder name. jj: the one
/// workspace jj reports as current (`listing` is the answer to
/// `jj_current_workspace_query`), else the folder name.
pub open spec fn current_name(
    backend: Backend,
    root: Seq<char>,
    suffix: Seq<char>,
    listing: Result<Seq<char>, Seq<char>>,
) -> Option<Seq<char>> {
    if !in_container(root, suffix) {
        None
    } else {
        match backend {
            Backend::Git => file_name_of(root),
            Backend::Jj => match jj_current_name(listing) {
                Some(n) => Some(n),
                None => file_name_of(root),
            },
        }
    }
}

/// The template that makes `jj workspace list` print only the name of the
/// workspace owning the current working copy.
pub fn jj_current_workspace_query() -> (c: crate::backend::Command)
    ensures
        crate::backend::command_view(c) == ("jj"@, seq![
            "workspace"@,
            "list"@,
            "--ignore-working-copy"@,
            "-T"@,
            "if(target.current_working_copy(), name ++ \"\\n\", \"\")"@,
        ]),
{
    let c = crate::backend::command(
        "jj",
        &[
            "workspace",
            "list",
            "--ignore-working-copy",
            "-T",
            "if(target.current_working_copy(), name ++ \"\\n\", \"\")",
        ],
    );
    assert(crate::backend::command_view(c).1 =~= seq![
        "workspace"@,
        "list"@,
        "--ignore-working-copy"@,
        "-T"@,
        "if(target.current_working_copy(), name ++ \"\\n\", \"\")"@,
    ]);
    c
}

/// The trimmed non-blank lines of `s`.
pub fn nonblank_trimmed_lines(s: &str) -> (r: Vec<String>)
    ensures
        views(r@) == trimmed_nonblank_lines(s@),
{
    let ls = split_lines(s);
    let mut out: Vec<String> = Vec::new();
    let mut k: usize = 0;
    while k < ls.len()
        invariant
            k <= ls.len(),
            views(ls@) == lines(s@),
            views(out@) == trimmed_nonblank(views(ls@).take(k as int)),
        decreases ls.len() - k,
    {
        let t = trim_str(ls[k].as_str());
        proof {
            let pre = views(ls@).take(k as int);
            assert(views(ls@)[k as int] == ls@[k as int]@);
            assert(views(ls@).take(k + 1) =~= pre.push(ls@[k as int]@));
            assert(pre.push(ls@[k as int]@).drop_last() =~= pre);
        }
        if !t.as_str().is_empty() {
            let ghost prev = out@;
            out.push(t);
            assert(views(out@) =~= views(prev).push(t@));
        }
        k = k + 1;
    }
    assert(views(ls@).take(ls.len() as int) =~= views(ls@));
    out
}

/// Names the workspace at `root` when it is a `<repo><suffix>/<name>`
/// worktree; `None` from the main repo, so a no-name `rm` there cannot
/// target it. For jj, `listing` is the answer to `jj_current_workspace_query`
/// (only consulted inside a container): jj, not the folder, is the source of
/// truth when it names exactly one current workspace.
pub fn current_workspace_name(
    backend: Backend,
    root: &str,
    suffix: &str,
    listing: &Result<String, String>,
) -> (r: Option<String>)
    ensures
        match r {
            Some(n) => current_name(backend, root@, suffix@, result_view(*listing)) == Some(n@),
            None => current_name(backend, root@, suffix@, result_view(*listing)) is None,
        },
{
    if !in_wts_container(root, suffix) {
        return None;
    }
    match backend {
        Backend::Git => path_file_name(root),
        Backend::Jj => {
            if let Ok(out) = listing {
                let mut names = nonblank_trimmed_lines(out.as_str());
                if names.len() == 1 {
                    return Some(names.remove(0));
                }
            }
            path_file_name(root)
        },
    }
}

/// The directory under `dest` that mirrors where `cwd` is within `source`:
/// `dest/<rel>` for a non-empty relative path, `None` at the source root or
/// outside it (the caller then falls back to `dest`, as it does when that
/// directory is missing in the new workspace).
pub open spec fn mirror_candidate(source: Seq<char>, dest: Seq<char>, cwd: Seq<char>) -> Option<
    Seq<char>,
> {
    match crate::paths::std_strip_prefix(cwd, source) {
        Some(rel) => if rel.len() > 0 {
            Some(joined_path(dest, rel))
        } else {
            None
        },
        None => None,
    }
}

/// Core of mirroring the subdirectory: with `source` and `cwd` already
/// canonicalized (or left as given where that failed), the directory under
/// `dest` to land in, if any.
pub fn mirror_subpath_from(source: &str, dest: &str, cwd: &str) -> (r: Option<String>)
    ensures
        match r {
            Some(t) => mirror_candidate(source@, dest@, cwd@) == Some(t@),
            None => mirror_candidate(source@, dest@, cwd@) is None,
        },
{
    match crate::paths::path_strip_prefix(cwd, source) {
        Some(rel) => {
            if rel.as_str().is_empty() {
                None
            } else {
                Some(path_join(dest, rel.as_str()))
            }
        },
        None => None,
    }
}

/// From the main repo `<p>/<b>` (whose parent is not itself a container),
/// the container is `<p>/<b><suffix>` and the main repo is the root itself.
pub proof fn lemma_layout_from_main(p: Seq<char>, b: Seq<char>, suffix: Seq<char>)
    requires
        is_settled_dir(p),
        is_plain_component(b),
        match file_name_of(p) {
            Some(pn) => strip_suffix_spec(pn, suffix) is None,
            None => true,
        },
    ensures
        layout_of(joined_path(p, b), suffix) == Ok::<_, Seq<char>>(
            (joined_path(p, b + suffix), joined_path(p, b)),
        ),
        !in_container(joined_path(p, b), suffix),
{
    lemma_join_plain(p, b);
}

/// Run from a workspace `<p>/<b><suffix>/<n>`, layout finds the same
/// container as from the main repo `<p>/<b>`, and that main repo.
pub proof fn lemma_layout_from_workspace(
    p: Seq<char>,
    b: Seq<char>,
    suffix: Seq<char>,
    n: Seq<char>,
)
    requires
        is_settled_dir(p),
        is_plain_component(b + suffix),
        is_plain_component(n),
    ensures
        layout_of(joined_path(joined_path(p, b + suffix), n), suffix) == Ok::<_, Seq<char>>(
            (joined_path(p, b + suffix), joined_path(p, b)),
        ),
        in_container(joined_path(joined_path(p, b + suffix), n), suffix),
        file_name_of(joined_path(joined_path(p, b + suffix), n)) == Some(n),
{
    let c = joined_path(p, b + suffix);
    lemma_join_plain(p, b + suffix);
    lemma_settled_plain_join(p, b + suffix);
    lemma_join_plain(c, n);
    let bs = b + suffix;
    assert(bs.subrange(bs.len() - suffix.len(), bs.len() as int) =~= suffix);
    assert(bs.subrange(0, bs.len() - suffix.len()) =~= b);
}

/// A plain component joined to a settled directory is itself settled.
pub proof fn lemma_settled_plain_join(p: Seq<char>, n: Seq<char>)
    requires
        is_plain_component(n),
    ensures
        is_settled_dir(joined_path(p, n)),
{
    let j = joined_path(p, n);
    assert(j.last() == n.last()) by {
        if p.len() > 0 && p.last() != '/' {
            assert(j =~= p + crate::paths::slash() + n);
        } else {
            assert(j =~= p + n);
        }
    }
    lemma_last_segment_plain(p, n);
}

/// The last segment of a path ending in a plain component is that component.
proof fn lemma_last_segment_plain(p: Seq<char>, n: Seq<char>)
    requires
        is_plain_component(n),
    ensures
        crate::paths::last_segment(joined_path(p, n)) == n,
{
    let j = joined_path(p, n);
    let pre = if p.len() > 0 && p.last() != '/' {
        p + crate::paths::slash()
    } else {
        p
    };
    assert(j =~= pre + n);
    assert(pre.len() == 0 || pre.last() == '/');
    lemma_last_segment_suffix(pre, n);
}

proof fn lemma_last_segment_suffix(pre: Seq<char>, n: Seq<char>)
    requires
        pre.len() == 0 || pre.last() == '/',
        forall|k: int| 0 <= k < n.len() ==> #[trigger] n[k] != '/',
    ensures
        crate::paths::last_segment(pre + n) == n,
    decreases n.len(),
{
    if n.len() == 0 {
        assert(pre + n =~= pre);
        if pre.len() > 0 {
            assert(crate::paths::last_segment(pre) == Seq::<char>::empty());
        }
        assert(crate::paths::last_segment(pre + n) =~= n);
    } else {
        assert((pre + n).drop_last() =~= pre + n.drop_last());
        lemma_last_segment_suffix(pre, n.drop_last());
        assert(n.drop_last().push(n.last()) =~= n);
    }
}

/// A suffix that keeps `<name><suffix>` a single plain component for any
/// plain name: non-empty, with no separator.
pub open spec fn plain_suffix(suffix: Seq<char>) -> bool {
    suffix.len() > 0 && forall|i: int| 0 <= i < suffix.len() ==> #[trigger] suffix[i] != '/'
}

proof fn lemma_plain_with_suffix(b: Seq<char>, suffix: Seq<char>)
    requires
        is_plain_component(b),
        plain_suffix(suffix),
    ensures
        is_plain_component(b + suffix),
        strip_suffix_spec(b + suffix, suffix) == Some(b),
{
    let bs = b + suffix;
    assert forall|i: int| 0 <= i < bs.len() implies #[trigger] bs[i] != '/' by {
        if i >= b.len() {
            assert(bs[i] == suffix[i - b.len()]);
        }
    }
    assert(bs.len() >= 2);
    if bs == seq!['.', '.'] {
        assert(b.len() == 1 && b[0] == '.');
        assert(b =~= seq!['.']);
    }
    assert(bs.subrange(bs.len() - suffix.len(), bs.len() as int) =~= suffix);
    assert(bs.subrange(0, bs.len() - suffix.len()) =~= b);
}

/// From the main repo `<p>/<b>`, for any parent `p` that is not itself named
/// `<repo><suffix>`: the container is `<p>/<b><suffix>` (up to how `Path`
/// compares paths, by components) and the main repo is the root itself.
pub proof fn lemma_layout_main_any_parent(p: Seq<char>, b: Seq<char>, suffix: Seq<char>)
    requires
        is_plain_component(b),
        plain_suffix(suffix),
        match file_name_of(p) {
            Some(pn) => strip_suffix_spec(pn, suffix) is None,
            None => true,
        },
    ensures
        layout_of(joined_path(p, b), suffix) matches Ok((c, m)) && same_path(
            c,
            joined_path(p, b + suffix),
        ) && m == joined_path(p, b),
        !in_container(joined_path(p, b), suffix),
{
    let root = joined_path(p, b);
    lemma_plain_with_suffix(b, suffix);
    lemma_join_comps(p, b);
    lemma_join_plain(p, b);
    lemma_parent_comps(root);
    let q = parent_of(root)->0;
    lemma_file_name_comps(q);
    lemma_file_name_comps(p);
    assert(file_name_of(q) == file_name_of(p));
    lemma_join_comps(q, b + suffix);
    lemma_join_comps(p, b + suffix);
}

/// Run from a workspace `<p>/<b><suffix>/<n>`, for any parent `p`: layout
/// finds the container `<p>/<b><suffix>` and the main repo `<p>/<b>`, the
/// same as from the main repo (up to how `Path` compares paths, by
/// components), and the root counts as inside the container.
pub proof fn lemma_layout_workspace_any_parent(
    p: Seq<char>,
    b: Seq<char>,
    suffix: Seq<char>,
    n: Seq<char>,
)
    requires
        is_plain_component(b),
        plain_suffix(suffix),
        is_plain_component(n),
    ensures
        layout_of(joined_path(joined_path(p, b + suffix), n), suffix) matches Ok((c, m)) && same_path(
            c,
            joined_path(p, b + suffix),
        ) && same_path(m, joined_path(p, b)),
        in_container(joined_path(joined_path(p, b + suffix), n), suffix),
{
    let bsx = b + suffix;
    lemma_plain_with_suffix(b, suffix);
    let c = joined_path(p, bsx);
    let w = joined_path(c, n);
    lemma_join_comps(p, bsx);
    lemma_join_comps(c, n);
    lemma_join_plain(c, n);
    lemma_parent_comps(w);
    let q = parent_of(w)->0;
    // the parent's last component is `<b><suffix>`
    lemma_file_name_comps(q);
    let qb = q.skip(body_start(q));
    assert(body_comps(qb) == body_comps(c.skip(body_start(c))));
    assert(body_comps(qb) == body_comps(p.skip(body_start(p))).push(bsx));
    assert(file_name_of(q) == Some(bsx));
    // and its parent is `p`, component by component
    assert(body_comps(qb).len() > 0);
    assert(next_back(qb) is Some) by {
        if next_back(qb) is None {
            assert(body_comps(qb) =~= Seq::<Seq<char>>::empty());
        }
    }
    lemma_parent_comps(q);
    let g = parent_of(q)->0;
    if let Some((r2, c2)) = next_back(qb) {
        assert(crate::paths::before_comp(qb) == r2);
        assert(body_comps(qb) == body_comps(r2).push(c2));
        assert(body_comps(r2) =~= body_comps(qb).drop_last());
        assert(body_comps(p.skip(body_start(p))) =~= body_comps(qb).drop_last());
    }
    lemma_join_comps(g, b);
    lemma_join_comps(p, b);
}

} // verus!
