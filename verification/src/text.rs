//! Character-level text helpers: whitespace, trimming, line splitting and
//! small string builders, each proved against a spec over `Seq<char>`.
use vstd::prelude::*;

verus! {

/// The Unicode `White_Space` property (what `char::is_whitespace` tests).
pub open spec fn is_white_space(c: char) -> bool {
    let u = c as u32;
    ||| 0x09 <= u <= 0x0d
    ||| u == 0x20
    ||| u == 0x85
    ||| u == 0xa0
    ||| u == 0x1680
    ||| 0x2000 <= u <= 0x200a
    ||| u == 0x2028
    ||| u == 0x2029
    ||| u == 0x202f
    ||| u == 0x205f
    ||| u == 0x3000
}

/// Tests `c` for the Unicode `White_Space` property.
pub fn is_white_space_char(c: char) -> (b: bool)
    ensures
        b == is_white_space(c),
{
    let u = c as u32;
    (0x09 <= u && u <= 0x0d) || u == 0x20 || u == 0x85 || u == 0xa0 || u == 0x1680 || (0x2000 <= u
        && u <= 0x200a) || u == 0x2028 || u == 0x2029 || u == 0x202f || u == 0x205f || u == 0x3000
}

/// Every character of `s` is white space.
pub open spec fn all_white_space(s: Seq<char>) -> bool {
    forall|i: int| 0 <= i < s.len() ==> is_white_space(#[trigger] s[i])
}

/// `s` without leading white space.
pub open spec fn trim_start(s: Seq<char>) -> Seq<char>
    decreases s.len(),
{
    if s.len() > 0 && is_white_space(s[0]) {
        trim_start(s.drop_first())
    } else {
        s
    }
}

/// `s` without trailing white space.
pub open spec fn trim_end(s: Seq<char>) -> Seq<char>
    decreases s.len(),
{
    if s.len() > 0 && is_white_space(s.last()) {
        trim_end(s.drop_last())
    } else {
        s
    }
}

/// `s` without leading and trailing white space (what `str::trim` gives).
pub open spec fn trim(s: Seq<char>) -> Seq<char> {
    trim_end(trim_start(s))
}

/// Skipping an all-white-space prefix does not change `trim_start`.
pub proof fn lemma_trim_start_skip(s: Seq<char>, i: int)
    requires
        0 <= i <= s.len(),
        all_white_space(s.subrange(0, i)),
    ensures
        trim_start(s) == trim_start(s.subrange(i, s.len() as int)),
    decreases i,
{
    if i > 0 {
        assert(is_white_space(s.subrange(0, i)[0]));
        let t = s.drop_first();
        assert(all_white_space(t.subrange(0, i - 1))) by {
            assert forall|k: int| 0 <= k < i - 1 implies is_white_space(
                #[trigger] t.subrange(0, i - 1)[k],
            ) by {
                assert(t.subrange(0, i - 1)[k] == s.subrange(0, i)[k + 1]);
            }
        }
        lemma_trim_start_skip(t, i - 1);
        assert(t.subrange(i - 1, t.len() as int) =~= s.subrange(i, s.len() as int));
    } else {
        assert(s.subrange(0, s.len() as int) =~= s);
    }
}

/// Dropping an all-white-space suffix does not change `trim_end`.
pub proof fn lemma_trim_end_skip(s: Seq<char>, j: int)
    requires
        0 <= j <= s.len(),
        all_white_space(s.subrange(j, s.len() as int)),
    ensures
        trim_end(s) == trim_end(s.subrange(0, j)),
    decreases s.len() - j,
{
    if j < s.len() {
        assert(is_white_space(s.subrange(j, s.len() as int)[s.len() - 1 - j]));
        let t = s.drop_last();
        assert(all_white_space(t.subrange(j, t.len() as int))) by {
            assert forall|k: int| 0 <= k < t.len() - j implies is_white_space(
                #[trigger] t.subrange(j, t.len() as int)[k],
            ) by {
                assert(t.subrange(j, t.len() as int)[k] == s.subrange(j, s.len() as int)[k]);
            }
        }
        lemma_trim_end_skip(t, j);
        assert(t.subrange(0, j) =~= s.subrange(0, j));
    } else {
        assert(s.subrange(0, j) =~= s);
    }
}

/// Characters of `s`, in order.
pub fn chars_of(s: &str) -> (v: Vec<char>)
    ensures
        v@ == s@,
{
    let mut v: Vec<char> = Vec::new();
    for c in it: s.chars()
        invariant
            v@ == it.seq().take(it.index() as int),
    {
        v.push(c);
    }
    v
}

/// The string whose characters are `v`.
#[verifier::external_body]
pub(crate) fn string_of(v: &[char]) -> (s: String)
    ensures
        s@ == v@,
{
    v.iter().collect()
}

/// `v[lo..hi]` as a string.
pub fn string_of_range(v: &Vec<char>, lo: usize, hi: usize) -> (s: String)
    requires
        lo <= hi <= v.len(),
    ensures
        s@ == v@.subrange(lo as int, hi as int),
{
    string_of(slice_range(v, lo, hi))
}

/// `v[lo..hi]`.
pub fn slice_range(v: &Vec<char>, lo: usize, hi: usize) -> (r: &[char])
    requires
        lo <= hi <= v.len(),
    ensures
        r@ == v@.subrange(lo as int, hi as int),
{
    vstd::slice::slice_subrange(v.as_slice(), lo, hi)
}

/// The characters of `s` with surrounding white space removed (as `str::trim`).
pub fn trim_chars(s: &Vec<char>) -> (r: (usize, usize))
    ensures
        r.0 <= r.1 <= s.len(),
        s@.subrange(r.0 as int, r.1 as int) == trim(s@),
{
    let n = s.len();
    let mut i: usize = 0;
    while i < n && is_white_space_char(s[i])
        invariant
            i <= n == s.len(),
            all_white_space(s@.subrange(0, i as int)),
        decreases n - i,
    {
        assert(s@.subrange(0, i + 1) =~= s@.subrange(0, i as int).push(s@[i as int]));
        i = i + 1;
    }
    proof {
        lemma_trim_start_skip(s@, i as int);
    }
    let mut j: usize = n;
    while j > i && is_white_space_char(s[j - 1])
        invariant
            i <= j <= n == s.len(),
            all_white_space(s@.subrange(j as int, n as int)),
        decreases j,
    {
        assert(s@.subrange(j - 1, n as int) =~= seq![s@[j - 1]] + s@.subrange(j as int, n as int));
        j = j - 1;
    }
    proof {
        let t = s@.subrange(i as int, n as int);
        assert(t.subrange(j - i, t.len() as int) =~= s@.subrange(j as int, n as int));
        lemma_trim_end_skip(t, j - i);
        assert(t.subrange(0, j - i) =~= s@.subrange(i as int, j as int));
        if i == j {
        } else {
            assert(!is_white_space(t[0]));
            assert(trim_start(t) == t);
        }
        if i < n {
            assert(!is_white_space(s@[i as int]));
        } else {
            assert(t.len() == 0);
        }
        assert(trim_start(t) == t);
    }
    (i, j)
}

/// `s` with surrounding white space removed (as `str::trim`).
pub fn trim_str(s: &str) -> (r: String)
    ensures
        r@ == trim(s@),
{
    let v = chars_of(s);
    let (i, j) = trim_chars(&v);
    string_of_range(&v, i, j)
}

} // verus!

verus! {

/// Index of the first `c` in `s`, or `s.len()` when there is none.
pub open spec fn first_or_len(s: Seq<char>, c: char) -> int
    decreases s.len(),
{
    if s.len() == 0 {
        0
    } else if s[0] == c {
        0
    } else {
        1 + first_or_len(s.drop_first(), c)
    }
}

/// `first_or_len` lies within `0..=s.len()`.
pub proof fn lemma_first_or_len_bounds(s: Seq<char>, c: char)
    ensures
        0 <= first_or_len(s, c) <= s.len(),
    decreases s.len(),
{
    if s.len() > 0 && s[0] != c {
        lemma_first_or_len_bounds(s.drop_first(), c);
    }
}

/// `first_or_len` is the index of the first `c`.
pub proof fn lemma_first_or_len(s: Seq<char>, c: char, e: int)
    requires
        0 <= e <= s.len(),
        forall|k: int| 0 <= k < e ==> s[k] != c,
        e < s.len() ==> s[e] == c,
    ensures
        first_or_len(s, c) == e,
    decreases e,
{
    if e > 0 {
        let t = s.drop_first();
        assert forall|k: int| 0 <= k < e - 1 implies t[k] != c by {
            assert(t[k] == s[k + 1]);
        }
        if e < s.len() {
            assert(t[e - 1] == s[e]);
        }
        lemma_first_or_len(t, c, e - 1);
    }
}

/// `s` without one trailing carriage return.
pub open spec fn strip_cr(s: Seq<char>) -> Seq<char> {
    if s.len() > 0 && s.last() == '\r' {
        s.drop_last()
    } else {
        s
    }
}

/// The lines of `s` as `str::lines` gives them: split at `\n`, a `\r` just
/// before a `\n` dropped, and no empty line after a final `\n`.
pub open spec fn lines(s: Seq<char>) -> Seq<Seq<char>>
    decreases s.len(),
{
    if s.len() == 0 {
        Seq::empty()
    } else {
        let e = first_or_len(s, '\n');
        if e >= s.len() {
            seq![s]
        } else {
            proof {
                lemma_first_or_len_bounds(s, '\n');
            }
            seq![strip_cr(s.take(e))] + lines(s.skip(e + 1))
        }
    }
}

/// The text views of a vector of strings.
pub open spec fn views(v: Seq<String>) -> Seq<Seq<char>> {
    v.map_values(|x: String| x@)
}

/// Index of the first `c` in `v[from..]` (as an index into `v`), or `v.len()`.
pub fn find_char_from(v: &Vec<char>, from: usize, c: char) -> (e: usize)
    requires
        from <= v.len(),
    ensures
        from <= e <= v.len(),
        e - from == first_or_len(v@.skip(from as int), c),
{
    let mut e = from;
    while e < v.len() && v[e] != c
        invariant
            from <= e <= v.len(),
            forall|k: int| from <= k < e ==> v@[k] != c,
        decreases v.len() - e,
    {
        e = e + 1;
    }
    proof {
        let t = v@.skip(from as int);
        assert forall|k: int| 0 <= k < e - from implies t[k] != c by {
            assert(t[k] == v@[from + k]);
        }
        if e < v.len() {
            assert(t[e - from] == v@[e as int]);
        }
        lemma_first_or_len(t, c, e - from);
    }
    e
}

/// The lines of `s` (as `str::lines`).
pub fn split_lines(s: &str) -> (r: Vec<String>)
    ensures
        views(r@) == lines(s@),
{
    let v = chars_of(s);
    let n = v.len();
    let mut out: Vec<String> = Vec::new();
    let mut pos: usize = 0;
    assert(v@.skip(0) =~= v@);
    while pos < n
        invariant
            n == v.len(),
            v@ == s@,
            pos <= n,
            lines(s@) == views(out@) + lines(v@.skip(pos as int)),
        decreases n - pos,
    {
        let ghost rest = v@.skip(pos as int);
        let e = find_char_from(&v, pos, '\n');
        let mut hi = e;
        if e > pos && v[e - 1] == '\r' && e < n {
            hi = e - 1;
        }
        let line = string_of_range(&v, pos, hi);
        proof {
            assert(rest.take(e - pos) =~= v@.subrange(pos as int, e as int));
            if e < n {
                assert(strip_cr(rest.take(e - pos)) =~= v@.subrange(pos as int, hi as int));
                assert(rest.skip(e - pos + 1) =~= v@.skip(e + 1));
            } else {
                assert(rest =~= v@.subrange(pos as int, hi as int));
            }
        }
        let ghost prev = out@;
        out.push(line);
        proof {
            assert(views(out@) =~= views(prev).push(line@));
        }
        if e < n {
            pos = e + 1;
        } else {
            pos = n;
            assert(v@.skip(n as int) =~= Seq::<char>::empty());
        }
    }
    proof {
        assert(v@.skip(pos as int) =~= Seq::<char>::empty());
        assert(lines(Seq::<char>::empty()) =~= Seq::<Seq<char>>::empty());
        assert(views(out@) + Seq::<Seq<char>>::empty() =~= views(out@));
    }
    out
}

} // verus!
