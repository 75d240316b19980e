//! Paths, held as UTF-8 strings. The component-level operations are those of
//! `std::path::Path` (Unix), reached through the wrappers below; joining and
//! the suffix/prefix helpers are stated exactly.
use std::path::Path;
use vstd::prelude::*;
use crate::text::{chars_of, string_of, string_of_range};

verus! {

/// Seq of a single character.
pub open spec fn slash() -> Seq<char> {
    seq!['/']
}

/// `rel` adjoined to `base` the way `Path::join` does on Unix: an absolute
/// `rel` replaces `base`; otherwise a separator goes between them unless
/// `base` is empty or already ends in one.
pub open spec fn joined_path(base: Seq<char>, rel: Seq<char>) -> Seq<char> {
    if rel.len() > 0 && rel[0] == '/' {
        rel
    } else if base.len() > 0 && base.last() != '/' {
        base + slash() + rel
    } else {
        base + rel
    }
}

/// A single plain path component: non-empty, no separator, neither `.` nor `..`.
pub open spec fn is_plain_component(s: Seq<char>) -> bool {
    &&& s.len() > 0
    &&& forall|i: int| 0 <= i < s.len() ==> #[trigger] s[i] != '/'
    &&& s != seq!['.']
    &&& s != seq!['.', '.']
}

/// The text after the last separator of `p` (all of `p` when it has none).
pub open spec fn last_segment(p: Seq<char>) -> Seq<char>
    decreases p.len(),
{
    if p.len() == 0 {
        p
    } else if p.last() == '/' {
        Seq::empty()
    } else {
        last_segment(p.drop_last()).push(p.last())
    }
}

/// A directory path that `parent_of` gives back unchanged once a plain
/// component has been joined to it: the root, or a path that ends neither in
/// a separator nor in a `.` component.
pub open spec fn is_settled_dir(p: Seq<char>) -> bool {
    ||| p == slash()
    ||| (p.len() == 0 || p.last() != '/') && last_segment(p) != seq!['.']
}

/// `p` starts at the root.
pub open spec fn has_root(p: Seq<char>) -> bool {
    p.len() > 0 && p[0] == '/'
}

/// `p` is relative and starts with a `.` component (`.` or `./...`), which
/// `Path` keeps as a leading current-dir component.
pub open spec fn has_cur_dir(p: Seq<char>) -> bool {
    !has_root(p) && p.len() > 0 && p[0] == '.' && (p.len() == 1 || p[1] == '/')
}

/// Where the components after the root or leading `.` begin.
pub open spec fn body_start(p: Seq<char>) -> int {
    if has_root(p) || has_cur_dir(p) {
        1
    } else {
        0
    }
}

/// Index of the last separator in `b`, or -1.
pub open spec fn last_sep(b: Seq<char>) -> int
    decreases b.len(),
{
    if b.len() == 0 {
        -1
    } else if b.last() == '/' {
        b.len() - 1
    } else {
        last_sep(b.drop_last())
    }
}

pub proof fn lemma_last_sep(b: Seq<char>)
    ensures
        -1 <= last_sep(b) < b.len(),
        last_sep(b) >= 0 ==> b[last_sep(b)] == '/',
        forall|k: int| last_sep(b) < k < b.len() ==> b[k] != '/',
    decreases b.len(),
{
    if b.len() > 0 && b.last() != '/' {
        lemma_last_sep(b.drop_last());
        assert forall|k: int| last_sep(b) < k < b.len() implies b[k] != '/' by {
            if k < b.len() - 1 {
                assert(b[k] == b.drop_last()[k]);
            }
        }
    }
}

/// The text before the last separator of `b` (empty when there is none).
pub open spec fn before_last_sep(b: Seq<char>) -> Seq<char> {
    if last_sep(b) >= 0 {
        b.take(last_sep(b))
    } else {
        Seq::empty()
    }
}

/// The text after the last separator of `b`.
pub open spec fn after_last_sep(b: Seq<char>) -> Seq<char> {
    b.skip(last_sep(b) + 1)
}

/// A piece between separators that names no component: empty or `.`.
pub open spec fn is_skipped_piece(c: Seq<char>) -> bool {
    c.len() == 0 || c == seq!['.']
}

/// The last component of the body `b`, with the text before it: pieces
/// that are empty or `.` are passed over, as `Components::next_back` does.
pub open spec fn next_back(b: Seq<char>) -> Option<(Seq<char>, Seq<char>)>
    decreases b.len(),
{
    if b.len() == 0 {
        None
    } else {
        let rest = before_last_sep(b);
        proof {
            lemma_last_sep(b);
        }
        if is_skipped_piece(after_last_sep(b)) {
            next_back(rest)
        } else {
            Some((rest, after_last_sep(b)))
        }
    }
}

/// The body `b` without trailing empty or `.` pieces.
pub open spec fn trim_back(b: Seq<char>) -> Seq<char>
    decreases b.len(),
{
    if b.len() == 0 {
        b
    } else {
        let rest = before_last_sep(b);
        proof {
            lemma_last_sep(b);
        }
        if is_skipped_piece(after_last_sep(b)) {
            trim_back(rest)
        } else {
            b
        }
    }
}

/// The final component of `p` if it is a normal one (`Path::file_name`).
pub open spec fn file_name_of(p: Seq<char>) -> Option<Seq<char>> {
    match next_back(p.skip(body_start(p))) {
        Some((_, c)) => if c == seq!['.', '.'] {
            None
        } else {
            Some(c)
        },
        None => None,
    }
}

/// `p` without its final component (`Path::parent`): `None` for the root
/// and the empty path.
pub open spec fn parent_of(p: Seq<char>) -> Option<Seq<char>> {
    match next_back(p.skip(body_start(p))) {
        Some((rest, _)) => Some(p.take(body_start(p)) + trim_back(rest)),
        None => if has_cur_dir(p) {
            Some(Seq::empty())
        } else {
            None
        },
    }
}

/// The component `next_back` finds is never empty, `.`, nor holds a separator.
pub proof fn lemma_next_back_piece(b: Seq<char>)
    ensures
        next_back(b) matches Some((rest, c)) ==> !is_skipped_piece(c) && (forall|k: int|
            0 <= k < c.len() ==> #[trigger] c[k] != '/') && rest.len() < b.len(),
    decreases b.len(),
{
    if b.len() > 0 {
        lemma_last_sep(b);
        let rest = before_last_sep(b);
        let c = after_last_sep(b);
        if is_skipped_piece(c) {
            lemma_next_back_piece(rest);
        } else {
            assert forall|k: int| 0 <= k < c.len() implies #[trigger] c[k] != '/' by {
                assert(c[k] == b[last_sep(b) + 1 + k]);
            }
        }
    }
}

/// A file name is a plain component.
pub proof fn lemma_file_name_plain(p: Seq<char>)
    ensures
        file_name_of(p) matches Some(n) ==> is_plain_component(n),
{
    lemma_next_back_piece(p.skip(body_start(p)));
}

/// The last separator of `b + "/" + n`, for `n` without separators.
proof fn lemma_last_sep_join(b: Seq<char>, n: Seq<char>)
    requires
        forall|k: int| 0 <= k < n.len() ==> #[trigger] n[k] != '/',
    ensures
        last_sep(b + slash() + n) == b.len(),
    decreases n.len(),
{
    let j = b + slash() + n;
    if n.len() == 0 {
        assert(j.last() == '/');
    } else {
        assert(j.last() == n.last());
        assert(j.drop_last() =~= b + slash() + n.drop_last());
        lemma_last_sep_join(b, n.drop_last());
    }
}

/// The last separator of `n` alone, for `n` without separators.
proof fn lemma_last_sep_none(n: Seq<char>)
    requires
        forall|k: int| 0 <= k < n.len() ==> #[trigger] n[k] != '/',
    ensures
        last_sep(n) == -1,
    decreases n.len(),
{
    if n.len() > 0 {
        assert(n.drop_last().len() < n.len());
        lemma_last_sep_none(n.drop_last());
    }
}

/// The text after the last separator is the last segment.
proof fn lemma_last_segment(p: Seq<char>)
    ensures
        last_segment(p) == after_last_sep(p),
    decreases p.len(),
{
    if p.len() > 0 {
        lemma_last_sep(p);
        if p.last() != '/' {
            lemma_last_segment(p.drop_last());
            lemma_last_sep(p.drop_last());
            assert(after_last_sep(p) =~= after_last_sep(p.drop_last()).push(p.last()));
        } else {
            assert(after_last_sep(p) =~= Seq::<char>::empty());
        }
    }
}

/// `file_name_of` and `parent_of` through a body and the text before it.
proof fn lemma_via_body(j: Seq<char>, body: Seq<char>, n: Seq<char>)
    requires
        j.skip(body_start(j)) == body,
        next_back(body) == Some((before_last_sep(body), n)),
        !(n == seq!['.', '.']),
    ensures
        file_name_of(j) == Some(n),
        parent_of(j) == Some(j.take(body_start(j)) + trim_back(before_last_sep(body))),
{
}

/// A plain component has no separator, so it is its own last piece.
proof fn lemma_plain_alone(n: Seq<char>)
    requires
        is_plain_component(n),
    ensures
        last_sep(n) == -1,
        next_back(n) == Some((Seq::<char>::empty(), n)),
        !has_cur_dir(n),
        !has_root(n),
{
    lemma_last_sep_none(n);
    assert(after_last_sep(n) =~= n);
    if n.len() == 1 && n[0] == '.' {
        assert(n =~= seq!['.']);
    }
    if n.len() > 1 {
        assert(n[1] != '/');
    }
}

/// A plain component after a separator is the last piece.
proof fn lemma_plain_after(b: Seq<char>, n: Seq<char>)
    requires
        is_plain_component(n),
    ensures
        next_back(b + slash() + n) == Some((b, n)),
{
    lemma_last_sep_join(b, n);
    let j = b + slash() + n;
    assert(after_last_sep(j) =~= n);
    assert(before_last_sep(j) =~= b);
    if n.len() == 1 && n[0] == '.' {
        assert(n =~= seq!['.']);
    }
}

/// Joining to the empty path or the root.
proof fn lemma_join_plain_short(base: Seq<char>, n: Seq<char>)
    requires
        is_plain_component(n),
        base.len() == 0 || base == slash(),
    ensures
        file_name_of(joined_path(base, n)) == Some(n),
        parent_of(joined_path(base, n)) == Some(base),
{
    let j = joined_path(base, n);
    lemma_plain_alone(n);
    if base.len() == 0 {
        assert(j =~= n);
        assert(j.skip(0) =~= n);
        assert(j.take(0) =~= base);
    } else {
        assert(j =~= slash() + n);
        assert(j.skip(1) =~= n);
        assert(j.take(1) =~= base);
    }
    assert(before_last_sep(n) =~= Seq::<char>::empty());
    lemma_via_body(j, n, n);
    assert(trim_back(Seq::<char>::empty()) =~= Seq::<char>::empty());
}

/// Joining to a path that already ends in a separator.
proof fn lemma_join_plain_trailing(base: Seq<char>, n: Seq<char>)
    requires
        is_plain_component(n),
        base.len() > 0,
        base != slash(),
        base.last() == '/',
    ensures
        file_name_of(joined_path(base, n)) == Some(n),
{
    let j = joined_path(base, n);
    let b2 = base.drop_last();
    if base.len() == 1 {
        assert(base =~= slash());
    }
    assert(j =~= b2 + slash() + n);
    let bs = body_start(j);
    assert(j.skip(bs) =~= b2.skip(bs) + slash() + n);
    lemma_plain_after(b2.skip(bs), n);
    assert(before_last_sep(j.skip(bs)) =~= b2.skip(bs)) by {
        lemma_last_sep_join(b2.skip(bs), n);
    }
    lemma_via_body(j, j.skip(bs), n);
}

/// Joining to a path that does not end in a separator.
proof fn lemma_join_plain_general(base: Seq<char>, n: Seq<char>)
    requires
        is_plain_component(n),
        base.len() > 0,
        base.last() != '/',
    ensures
        file_name_of(joined_path(base, n)) == Some(n),
        is_settled_dir(base) ==> parent_of(joined_path(base, n)) == Some(base),
{
    let j = joined_path(base, n);
    assert(j =~= base + slash() + n);
    let bs = body_start(j);
    assert(bs == body_start(base)) by {
        assert(j[0] == base[0]);
        if base.len() > 1 {
            assert(j[1] == base[1]);
        } else {
            assert(j[1] == '/');
        }
    }
    let bb = base.skip(bs);
    assert(j.skip(bs) =~= bb + slash() + n);
    lemma_plain_after(bb, n);
    assert(before_last_sep(j.skip(bs)) =~= bb) by {
        lemma_last_sep_join(bb, n);
    }
    lemma_via_body(j, j.skip(bs), n);
    assert(j.take(bs) =~= base.take(bs));
    if is_settled_dir(base) {
        lemma_settled_body(base);
        assert(base.take(bs) + bb =~= base);
    }
}

/// The body of a settled, non-empty path that does not end in a separator
/// has nothing to trim.
proof fn lemma_settled_body(base: Seq<char>)
    requires
        is_settled_dir(base),
        base.len() > 0,
        base.last() != '/',
    ensures
        trim_back(base.skip(body_start(base))) == base.skip(body_start(base)),
{
    let bs = body_start(base);
    let bb = base.skip(bs);
    lemma_last_segment(base);
    lemma_last_sep(base);
    lemma_last_sep(bb);
    lemma_last_sep_shift(base, bs);
    if bb.len() > 0 {
        if last_sep(base) >= bs {
            assert(after_last_sep(bb) =~= after_last_sep(base));
        } else {
            assert(after_last_sep(bb) =~= bb);
            assert(after_last_sep(base) =~= base.skip(last_sep(base) + 1));
            if bs == 1 {
                if has_root(base) {
                    assert(last_sep(base) == 0);
                    assert(after_last_sep(base) =~= bb);
                } else {
                    // a leading `.` with no separator after it is `.` itself,
                    // which is not settled
                    assert(base.len() == 1);
                    assert(base =~= seq!['.']);
                    assert(after_last_sep(base) =~= base);
                    assert(false);
                }
            } else {
                assert(bb =~= base);
            }
        }
        assert(!is_skipped_piece(after_last_sep(bb))) by {
            if after_last_sep(bb).len() == 0 {
                assert(bb.last() == '/');
            }
        }
    } else {
        assert(trim_back(bb) =~= bb);
    }
}

/// Joining a plain component gives it back as the file name, and, to a
/// settled directory, gives the directory back as the parent.
pub proof fn lemma_join_plain(base: Seq<char>, n: Seq<char>)
    requires
        is_plain_component(n),
    ensures
        file_name_of(joined_path(base, n)) == Some(n),
        is_settled_dir(base) ==> parent_of(joined_path(base, n)) == Some(base),
{
    if base.len() == 0 || base == slash() {
        lemma_join_plain_short(base, n);
    } else if base.last() == '/' {
        lemma_join_plain_trailing(base, n);
        assert(!is_settled_dir(base)) by {
            assert(last_segment(base).len() == 0);
        }
    } else {
        lemma_join_plain_general(base, n);
    }
}

/// The last separator of `p.skip(s)` is that of `p`, shifted, when `p[..s]`
/// is the root or a leading `.`.
proof fn lemma_last_sep_shift(p: Seq<char>, s: int)
    requires
        0 <= s <= p.len(),
    ensures
        last_sep(p) >= s ==> last_sep(p.skip(s)) == last_sep(p) - s,
        last_sep(p) < s ==> last_sep(p.skip(s)) == -1,
    decreases p.len(),
{
    lemma_last_sep(p);
    lemma_last_sep(p.skip(s));
    if p.len() > s {
        if p.last() == '/' {
            assert(p.skip(s).last() == '/');
        } else {
            assert(p.skip(s).drop_last() =~= p.drop_last().skip(s));
            lemma_last_sep_shift(p.drop_last(), s);
        }
    } else {
        assert(p.skip(s).len() == 0);
    }
}

/// What `Path::strip_prefix` gives for `p` and `base` (as text), `None` when
/// `base` is not a prefix of `p`.
pub uninterp spec fn std_strip_prefix(p: Seq<char>, base: Seq<char>) -> Option<Seq<char>>;

/// What `Path::starts_with` gives for `p` and `base`.
pub uninterp spec fn std_starts_with(p: Seq<char>, base: Seq<char>) -> bool;

/// Calls `Path::strip_prefix`. Claims only that the result is a function of
/// its arguments.
#[verifier::external_body]
pub(crate) fn path_strip_prefix(p: &str, base: &str) -> (r: Option<String>)
    ensures
        r matches Some(q) ==> std_strip_prefix(p@, base@) == Some(q@),
        r is None ==> std_strip_prefix(p@, base@) is None,
{
    Path::new(p).strip_prefix(base).ok().map(|q| q.to_string_lossy().into_owned())
}

/// Calls `Path::starts_with`. Claims only that the result is a function of
/// its arguments.
#[verifier::external_body]
pub(crate) fn path_starts_with(p: &str, base: &str) -> (r: bool)
    ensures
        r == std_starts_with(p@, base@),
{
    Path::new(p).starts_with(base)
}

/// `last_sep` is the last separator, when there is one.
proof fn lemma_last_sep_is(b: Seq<char>, i: int)
    requires
        -1 <= i < b.len(),
        i >= 0 ==> b[i] == '/',
        forall|k: int| i < k < b.len() ==> b[k] != '/',
    ensures
        last_sep(b) == i,
    decreases b.len(),
{
    if b.len() > 0 && b.last() != '/' {
        assert forall|k: int| i < k < b.len() - 1 implies b.drop_last()[k] != '/' by {
            assert(b.drop_last()[k] == b[k]);
        }
        lemma_last_sep_is(b.drop_last(), i);
    }
}

/// The last separator in `v[start..e]`, if any (as an index into `v`).
fn last_sep_in(v: &Vec<char>, start: usize, e: usize) -> (r: Option<usize>)
    requires
        start <= e <= v.len(),
    ensures
        match r {
            Some(k) => start <= k < e && last_sep(v@.subrange(start as int, e as int)) == k - start,
            None => last_sep(v@.subrange(start as int, e as int)) == -1,
        },
{
    let mut k = e;
    while k > start && v[k - 1] != '/'
        invariant
            start <= k <= e <= v.len(),
            forall|j: int| k <= j < e ==> v@[j] != '/',
        decreases k,
    {
        k = k - 1;
    }
    let ghost b = v@.subrange(start as int, e as int);
    if k > start {
        proof {
            assert forall|j: int| k - 1 - start < j < b.len() implies b[j] != '/' by {
                assert(b[j] == v@[start + j]);
            }
            lemma_last_sep_is(b, k - 1 - start);
        }
        Some(k - 1)
    } else {
        proof {
            assert forall|j: int| -1 < j < b.len() implies b[j] != '/' by {
                assert(b[j] == v@[start + j]);
            }
            lemma_last_sep_is(b, -1);
        }
        None
    }
}

/// One step back over `v[start..e]`: where the text before the last
/// separator ends and where the piece after it starts.
fn step_back(v: &Vec<char>, start: usize, e: usize) -> (r: (usize, usize))
    requires
        start < e <= v.len(),
    ensures
        start <= r.0 < e,
        r.0 <= r.1 <= e,
        v@.subrange(start as int, r.0 as int) == before_last_sep(v@.subrange(start as int, e as int)),
        v@.subrange(r.1 as int, e as int) == after_last_sep(v@.subrange(start as int, e as int)),
{
    let ghost b = v@.subrange(start as int, e as int);
    proof {
        lemma_last_sep(b);
    }
    match last_sep_in(v, start, e) {
        Some(k) => {
            assert(v@.subrange(start as int, k as int) =~= b.take(k - start));
            assert(v@.subrange(k + 1, e as int) =~= b.skip(k - start + 1));
            (k, k + 1)
        },
        None => {
            assert(v@.subrange(start as int, start as int) =~= Seq::<char>::empty());
            assert(v@.subrange(start as int, e as int) =~= b.skip(0));
            (start, start)
        },
    }
}

/// `v[a..b]` is an empty or `.` piece.
fn is_skipped_at(v: &Vec<char>, a: usize, b: usize) -> (r: bool)
    requires
        a <= b <= v.len(),
    ensures
        r == is_skipped_piece(v@.subrange(a as int, b as int)),
{
    let ghost c = v@.subrange(a as int, b as int);
    if a == b {
        true
    } else if b == a + 1 && v[a] == '.' {
        assert(c =~= seq!['.']);
        true
    } else {
        if b == a + 1 {
            assert(c[0] != '.');
        }
        assert(c.len() != 1 || c[0] != '.');
        false
    }
}

/// `next_back` over the body `v[start..end]`: the end of the text before the
/// component, and the component's bounds.
fn next_back_in(v: &Vec<char>, start: usize, end: usize) -> (r: Option<(usize, usize, usize)>)
    requires
        start <= end <= v.len(),
    ensures
        match r {
            Some((re, ps, pe)) => start <= re <= ps <= pe <= end && next_back(
                v@.subrange(start as int, end as int),
            ) == Some((v@.subrange(start as int, re as int), v@.subrange(ps as int, pe as int))),
            None => next_back(v@.subrange(start as int, end as int)) is None,
        },
{
    let mut e = end;
    while e > start
        invariant
            start <= e <= end <= v.len(),
            next_back(v@.subrange(start as int, end as int)) == next_back(
                v@.subrange(start as int, e as int),
            ),
        decreases e,
    {
        let (re, ps) = step_back(v, start, e);
        if !is_skipped_at(v, ps, e) {
            return Some((re, ps, e));
        }
        e = re;
    }
    None
}

/// `trim_back` over the body `v[start..end]`: where the trimmed body ends.
fn trim_back_in(v: &Vec<char>, start: usize, end: usize) -> (r: usize)
    requires
        start <= end <= v.len(),
    ensures
        start <= r <= end,
        trim_back(v@.subrange(start as int, end as int)) == v@.subrange(start as int, r as int),
{
    let mut e = end;
    while e > start
        invariant
            start <= e <= end <= v.len(),
            trim_back(v@.subrange(start as int, end as int)) == trim_back(
                v@.subrange(start as int, e as int),
            ),
        decreases e,
    {
        let (re, ps) = step_back(v, start, e);
        if !is_skipped_at(v, ps, e) {
            return e;
        }
        e = re;
    }
    e
}

/// Where the body of `v` starts (after the root or a leading `.`).
fn body_start_of(v: &Vec<char>) -> (r: usize)
    ensures
        r == body_start(v@),
        r <= v.len(),
{
    if v.len() > 0 && v[0] == '/' {
        1
    } else if v.len() > 0 && v[0] == '.' && (v.len() == 1 || v[1] == '/') {
        1
    } else {
        0
    }
}

/// The final component of `p` if it is a normal one (as `Path::file_name`).
pub fn path_file_name(p: &str) -> (r: Option<String>)
    ensures
        match r {
            Some(n) => file_name_of(p@) == Some(n@) && is_plain_component(n@),
            None => file_name_of(p@) is None,
        },
{
    let v = chars_of(p);
    let bs = body_start_of(&v);
    assert(v@.subrange(bs as int, v.len() as int) =~= v@.skip(bs as int));
    proof {
        lemma_file_name_plain(p@);
    }
    match next_back_in(&v, bs, v.len()) {
        Some((_, ps, pe)) => {
            if pe - ps == 2 && v[ps] == '.' && v[ps + 1] == '.' {
                assert(v@.subrange(ps as int, pe as int) =~= seq!['.', '.']);
                None
            } else {
                assert(v@.subrange(ps as int, pe as int) != seq!['.', '.']) by {
                    if pe - ps == 2 {
                        assert(v@.subrange(ps as int, pe as int)[0] == v@[ps as int]);
                        assert(v@.subrange(ps as int, pe as int)[1] == v@[ps + 1]);
                    }
                }
                Some(string_of_range(&v, ps, pe))
            }
        },
        None => None,
    }
}

/// `p` without its final component (as `Path::parent`).
pub fn path_parent(p: &str) -> (r: Option<String>)
    ensures
        match r {
            Some(q) => parent_of(p@) == Some(q@),
            None => parent_of(p@) is None,
        },
{
    let v = chars_of(p);
    let bs = body_start_of(&v);
    assert(v@.subrange(bs as int, v.len() as int) =~= v@.skip(bs as int));
    match next_back_in(&v, bs, v.len()) {
        Some((re, _, _)) => {
            let te = trim_back_in(&v, bs, re);
            assert(v@.take(bs as int) + v@.subrange(bs as int, te as int) =~= v@.subrange(
                0,
                te as int,
            ));
            Some(string_of_range(&v, 0, te))
        },
        None => {
            if v.len() > 0 && v[0] == '.' && (v.len() == 1 || v[1] == '/') {
                Some(String::new())
            } else {
                None
            }
        },
    }
}

/// `rel` adjoined to `base` (as `Path::join` on Unix).
pub fn path_join(base: &str, rel: &str) -> (r: String)
    ensures
        r@ == joined_path(base@, rel@),
{
    let b = chars_of(base);
    let r = chars_of(rel);
    if r.len() > 0 && r[0] == '/' {
        rel.to_owned()
    } else if b.len() > 0 && b[b.len() - 1] != '/' {
        let a = concat(base, "/");
        proof {
            reveal_strlit("/");
            assert("/"@ =~= slash());
        }
        concat(a.as_str(), rel)
    } else {
        concat(base, rel)
    }
}

/// What `Path == Path` gives for `a` and `b` (component-wise equality).
pub uninterp spec fn std_path_eq(a: Seq<char>, b: Seq<char>) -> bool;

/// Compares two paths with `Path`'s `==`. Claims only that the result is a
/// function of the two paths.
#[verifier::external_body]
pub(crate) fn path_eq(a: &str, b: &str) -> (r: bool)
    ensures
        r == std_path_eq(a@, b@),
{
    Path::new(a) == Path::new(b)
}

/// `p` is absolute: it starts with the root (`Path::is_absolute` on Unix).
pub fn path_is_absolute(p: &str) -> (b: bool)
    ensures
        b == (p@.len() > 0 && p@[0] == '/'),
{
    let v = chars_of(p);
    v.len() > 0 && v[0] == '/'
}

/// `s` with `suffix` removed from its end, if it ends with it.
pub open spec fn strip_suffix_spec(s: Seq<char>, suffix: Seq<char>) -> Option<Seq<char>> {
    if suffix.len() <= s.len() && s.subrange(s.len() - suffix.len(), s.len() as int) == suffix {
        Some(s.subrange(0, s.len() - suffix.len()))
    } else {
        None
    }
}

/// `s` with `prefix` removed from its start, if it starts with it.
pub open spec fn strip_prefix_spec(s: Seq<char>, prefix: Seq<char>) -> Option<Seq<char>> {
    if prefix.len() <= s.len() && s.subrange(0, prefix.len() as int) == prefix {
        Some(s.subrange(prefix.len() as int, s.len() as int))
    } else {
        None
    }
}

/// `v[at..at + w.len()] == w`.
pub fn chars_match_at(v: &Vec<char>, at: usize, w: &Vec<char>) -> (b: bool)
    requires
        at + w.len() <= v.len(),
    ensures
        b == (v@.subrange(at as int, at + w.len()) == w@),
{
    let mut k: usize = 0;
    while k < w.len()
        invariant
            at + w.len() <= v.len(),
            k <= w.len(),
            v@.subrange(at as int, at + k) == w@.take(k as int),
        decreases w.len() - k,
    {
        if v[at + k] != w[k] {
            assert(v@.subrange(at as int, at + w.len())[k as int] != w@[k as int]);
            return false;
        }
        assert(v@.subrange(at as int, at + k + 1) =~= v@.subrange(at as int, at + k).push(
            v@[at + k],
        ));
        assert(w@.take(k + 1) =~= w@.take(k as int).push(w@[k as int]));
        k = k + 1;
    }
    assert(w@.take(w.len() as int) =~= w@);
    true
}

/// `str::strip_suffix` with a string pattern.
pub fn strip_suffix(s: &str, suffix: &str) -> (r: Option<String>)
    ensures
        r matches Some(x) ==> strip_suffix_spec(s@, suffix@) == Some(x@),
        r is None ==> strip_suffix_spec(s@, suffix@) is None,
{
    let v = chars_of(s);
    let w = chars_of(suffix);
    if w.len() <= v.len() && chars_match_at(&v, v.len() - w.len(), &w) {
        Some(string_of_range(&v, 0, v.len() - w.len()))
    } else {
        None
    }
}

/// `str::strip_prefix` with a string pattern.
pub fn strip_prefix(s: &str, prefix: &str) -> (r: Option<String>)
    ensures
        r matches Some(x) ==> strip_prefix_spec(s@, prefix@) == Some(x@),
        r is None ==> strip_prefix_spec(s@, prefix@) is None,
{
    let v = chars_of(s);
    let w = chars_of(prefix);
    if w.len() <= v.len() && chars_match_at(&v, 0, &w) {
        Some(string_of_range(&v, w.len(), v.len()))
    } else {
        None
    }
}

/// `a` followed by `b`.
pub fn concat(a: &str, b: &str) -> (r: String)
    ensures
        r@ == a@ + b@,
{
    let mut v = chars_of(a);
    let w = chars_of(b);
    let ghost base = v@;
    let mut k: usize = 0;
    while k < w.len()
        invariant
            k <= w.len(),
            v@ == base + w@.take(k as int),
        decreases w.len() - k,
    {
        v.push(w[k]);
        assert(w@.take(k + 1) =~= w@.take(k as int).push(w@[k as int]));
        k = k + 1;
    }
    assert(w@.take(w.len() as int) =~= w@);
    string_of(v.as_slice())
}

/// `s` contains the character `c`.
pub fn contains_char(s: &str, c: char) -> (b: bool)
    ensures
        b == s@.contains(c),
{
    let v = chars_of(s);
    let mut k: usize = 0;
    while k < v.len()
        invariant
            k <= v.len(),
            v@ == s@,
            forall|j: int| 0 <= j < k ==> v@[j] != c,
        decreases v.len() - k,
    {
        if v[k] == c {
            return true;
        }
        k = k + 1;
    }
    false
}

/// The two texts are equal.
pub fn str_eq(a: &str, b: &str) -> (r: bool)
    ensures
        r == (a@ == b@),
{
    let v = chars_of(a);
    let w = chars_of(b);
    if v.len() != w.len() {
        return false;
    }
    let r = chars_match_at(&v, 0, &w);
    assert(v@.subrange(0, w.len() as int) =~= v@);
    r
}

// ---------------------------------------------------------------------------
// Paths compared by components
// ---------------------------------------------------------------------------

/// The components of a body (what follows the root or a leading `.`), in
/// order, with empty and `.` pieces passed over, as `Components` walks them.
pub open spec fn body_comps(b: Seq<char>) -> Seq<Seq<char>>
    decreases b.len(),
{
    match next_back(b) {
        Some((rest, c)) => {
            proof {
                lemma_next_back_piece(b);
            }
            body_comps(rest).push(c)
        },
        None => Seq::empty(),
    }
}

/// `a` and `b` name the same path component by component (as `Path`'s
/// `==` compares them): the same root or leading `.`, and the same
/// components after it.
pub open spec fn same_path(a: Seq<char>, b: Seq<char>) -> bool {
    &&& a.take(body_start(a)) == b.take(body_start(b))
    &&& body_comps(a.skip(body_start(a))) == body_comps(b.skip(body_start(b)))
}

/// What `next_back` leaves before the component is a prefix of the body.
proof fn lemma_next_back_prefix(x: Seq<char>)
    ensures
        next_back(x) matches Some((r, c)) ==> r.len() < x.len() && x.take(r.len() as int) == r,
    decreases x.len(),
{
    if x.len() > 0 {
        lemma_last_sep(x);
        let rest = before_last_sep(x);
        if is_skipped_piece(after_last_sep(x)) {
            lemma_next_back_prefix(rest);
            if let Some((r, c)) = next_back(rest) {
                assert(x.take(r.len() as int) =~= rest.take(r.len() as int));
            }
        }
    }
}

/// Trimming trailing empty and `.` pieces keeps a prefix with the same last
/// component, and leaves no such piece at the end.
proof fn lemma_trim_back(x: Seq<char>)
    ensures
        trim_back(x).len() <= x.len(),
        x.take(trim_back(x).len() as int) == trim_back(x),
        next_back(trim_back(x)) == next_back(x),
        body_comps(trim_back(x)) == body_comps(x),
        trim_back(x).len() == 0 || !is_skipped_piece(after_last_sep(trim_back(x))),
    decreases x.len(),
{
    if x.len() > 0 {
        lemma_last_sep(x);
        let rest = before_last_sep(x);
        if is_skipped_piece(after_last_sep(x)) {
            lemma_trim_back(rest);
            assert(x.take(trim_back(rest).len() as int) =~= rest.take(trim_back(rest).len() as int));
        } else {
            assert(x.take(x.len() as int) =~= x);
        }
    } else {
        assert(x.take(0) =~= x);
    }
}

/// A trailing separator adds no component.
proof fn lemma_next_back_slash(x: Seq<char>)
    ensures
        next_back(x + slash()) == next_back(x),
{
    let y = x + slash();
    assert(y.last() == '/');
    assert(before_last_sep(y) =~= x);
    assert(after_last_sep(y) =~= Seq::<char>::empty());
}

/// The file name is the last component, unless that is `..`.
pub proof fn lemma_file_name_comps(p: Seq<char>)
    ensures
        file_name_of(p) == {
            let cs = body_comps(p.skip(body_start(p)));
            if cs.len() > 0 && cs.last() != seq!['.', '.'] {
                Some(cs.last())
            } else {
                None::<Seq<char>>
            }
        },
{
}

/// Joining a plain component keeps the root or leading `.` and adds that
/// component after the others.
pub proof fn lemma_join_comps(p: Seq<char>, n: Seq<char>)
    requires
        is_plain_component(n),
    ensures
        ({
            let j = joined_path(p, n);
            &&& j.take(body_start(j)) == p.take(body_start(p))
            &&& next_back(j.skip(body_start(j))) matches Some((r, c)) && c == n && body_comps(r)
                == body_comps(p.skip(body_start(p)))
            &&& body_comps(j.skip(body_start(j))) == body_comps(p.skip(body_start(p))).push(n)
        }),
{
    let j = joined_path(p, n);
    lemma_plain_alone(n);
    if p.len() == 0 {
        assert(j =~= n);
        assert(j.skip(0) =~= n);
        assert(j.take(0) =~= p.take(0));
        assert(body_comps(Seq::<char>::empty()) =~= Seq::<Seq<char>>::empty());
    } else if p == slash() {
        assert(j =~= slash() + n);
        assert(j.skip(1) =~= n);
        assert(p.skip(1) =~= Seq::<char>::empty());
        assert(body_comps(Seq::<char>::empty()) =~= Seq::<Seq<char>>::empty());
    } else if p.last() == '/' {
        let b2 = p.drop_last();
        assert(p =~= b2 + slash());
        assert(j =~= p + n);
        assert(p.len() >= 2);
        let bs = body_start(p);
        assert(body_start(j) == bs) by {
            assert(j[0] == p[0] && j[1] == p[1]);
        }
        assert(j.skip(bs) =~= b2.skip(bs) + slash() + n);
        lemma_plain_after(b2.skip(bs), n);
        assert(p.skip(bs) =~= b2.skip(bs) + slash());
        lemma_next_back_slash(b2.skip(bs));
        assert(j.take(bs) =~= p.take(bs));
    } else {
        assert(j =~= p + slash() + n);
        let bs = body_start(p);
        assert(body_start(j) == bs) by {
            assert(j[0] == p[0]);
            if p.len() > 1 {
                assert(j[1] == p[1]);
            } else {
                assert(j[1] == '/');
            }
        }
        assert(j.skip(bs) =~= p.skip(bs) + slash() + n);
        lemma_plain_after(p.skip(bs), n);
        assert(j.take(bs) =~= p.take(bs));
    }
}

/// What `next_back` leaves before the last component of `b`.
pub open spec fn before_comp(b: Seq<char>) -> Seq<char> {
    match next_back(b) {
        Some((r, _)) => r,
        None => Seq::empty(),
    }
}

/// The parent keeps the root or leading `.` and every component but the
/// last.
pub proof fn lemma_parent_comps(p: Seq<char>)
    requires
        next_back(p.skip(body_start(p))) is Some,
    ensures
        ({
            let rest = before_comp(p.skip(body_start(p)));
            let q = parent_of(p)->0;
            &&& parent_of(p) is Some
            &&& q.take(body_start(q)) == p.take(body_start(p))
            &&& q.skip(body_start(q)) == trim_back(rest)
            &&& body_comps(q.skip(body_start(q))) == body_comps(rest)
        }),
{
    let bs = body_start(p);
    let body = p.skip(bs);
    let rest = before_comp(body);
    lemma_next_back_prefix(body);
    lemma_trim_back(rest);
    let t = trim_back(rest);
    let q = p.take(bs) + t;
    assert(parent_of(p) == Some(q));
    // `t` is a prefix of the body
    assert(body.take(t.len() as int) =~= t) by {
        assert(rest.take(t.len() as int) =~= body.take(t.len() as int));
    }
    if bs == 1 {
        assert(q[0] == p[0]);
        if has_root(p) {
            assert(has_root(q));
        } else {
            assert(has_cur_dir(p));
            assert(!has_root(q));
            if q.len() > 1 {
                assert(q[1] == t[0]);
                assert(t[0] == body[0]);
                assert(body[0] == p[1]);
            }
            assert(has_cur_dir(q));
        }
        assert(q.take(1) =~= p.take(1));
        assert(q.skip(1) =~= t);
    } else {
        assert(q =~= t);
        if q.len() > 0 {
            assert(q[0] == p[0]);
            assert(!has_root(q));
            if q[0] == '.' {
                if q.len() == 1 {
                    assert(q =~= seq!['.']);
                    lemma_last_sep_none(q);
                    assert(after_last_sep(q) =~= q);
                } else {
                    assert(q[1] == p[1]);
                }
            }
        }
        assert(body_start(q) == 0);
        assert(q.take(0) =~= p.take(0));
        assert(q.skip(0) =~= q);
    }
}

} // verus!
