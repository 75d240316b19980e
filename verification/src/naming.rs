//! Workspace names: the sanitizer and the `<id>-<description>` composition.
use vstd::prelude::*;
use crate::text::{all_white_space, is_white_space, chars_of, is_white_space_char, string_of, string_of_range};

verus! {

/// The longest workspace name `sanitize` produces.
pub const NAME_CAP: usize = 32;

/// ASCII upper-case letter.
pub open spec fn is_ascii_upper(c: char) -> bool {
    'A' <= c <= 'Z'
}

/// ASCII letter or digit.
pub open spec fn is_ascii_alnum(c: char) -> bool {
    ||| 'a' <= c <= 'z'
    ||| 'A' <= c <= 'Z'
    ||| '0' <= c <= '9'
}

/// `c` with an ASCII upper-case letter mapped to lower case (as `char::to_ascii_lowercase`).
pub open spec fn ascii_lower(c: char) -> char {
    if is_ascii_upper(c) {
        ((c as u32) + 32) as char
    } else {
        c
    }
}

/// A character that may appear in a sanitized name.
pub open spec fn is_name_char(c: char) -> bool {
    ||| 'a' <= c <= 'z'
    ||| '0' <= c <= '9'
    ||| c == '-'
}

/// The first stage of sanitizing: each alphanumeric lower-cased, each run of
/// other characters after the first alphanumeric turned into one dash.
pub open spec fn dashed(s: Seq<char>) -> Seq<char>
    decreases s.len(),
{
    if s.len() == 0 {
        Seq::empty()
    } else {
        let prev = dashed(s.drop_last());
        let c = s.last();
        if is_ascii_alnum(c) {
            prev.push(ascii_lower(c))
        } else if prev.len() > 0 && prev.last() != '-' {
            prev.push('-')
        } else {
            prev
        }
    }
}

/// `s` with every leading and trailing dash removed (as `trim_matches('-')`).
pub open spec fn strip_dashes(s: Seq<char>) -> Seq<char>
    decreases s.len(),
{
    if s.len() > 0 && s[0] == '-' {
        strip_dashes(s.drop_first())
    } else if s.len() > 0 && s.last() == '-' {
        strip_dashes(s.drop_last())
    } else {
        s
    }
}

/// The first `n` characters of `s`, or all of them when it is shorter.
pub open spec fn cap(s: Seq<char>, n: nat) -> Seq<char> {
    if s.len() <= n {
        s
    } else {
        s.take(n as int)
    }
}

/// What `sanitize` makes of `s`: lower-cased, non-alphanumerics collapsed to
/// single dashes, capped at 32 characters, no leading or trailing dash.
pub open spec fn sanitized(s: Seq<char>) -> Seq<char> {
    strip_dashes(cap(dashed(s), NAME_CAP as nat))
}

/// A well-formed workspace name: at most 32 characters, each a lower-case
/// ASCII letter, a digit or a dash, with no dash at either end and no two
/// dashes in a row.
pub open spec fn is_clean_name(s: Seq<char>) -> bool {
    &&& s.len() <= NAME_CAP
    &&& forall|i: int| 0 <= i < s.len() ==> is_name_char(#[trigger] s[i])
    &&& s.len() > 0 ==> s[0] != '-' && s.last() != '-'
    &&& forall|i: int| 0 <= i < s.len() - 1 ==> !(#[trigger] s[i] == '-' && s[i + 1] == '-')
}

/// The shape that `dashed` keeps: name characters only, no leading dash, no
/// two dashes in a row.
pub open spec fn dash_shaped(s: Seq<char>) -> bool {
    &&& forall|i: int| 0 <= i < s.len() ==> is_name_char(#[trigger] s[i])
    &&& s.len() > 0 ==> s[0] != '-'
    &&& forall|i: int| 0 <= i < s.len() - 1 ==> !(#[trigger] s[i] == '-' && s[i + 1] == '-')
}

proof fn lemma_ascii_lower_alnum(c: char)
    requires
        is_ascii_alnum(c),
    ensures
        is_name_char(ascii_lower(c)),
        ascii_lower(c) != '-',
{
}

proof fn lemma_dashed_shape(s: Seq<char>)
    ensures
        dash_shaped(dashed(s)),
    decreases s.len(),
{
    if s.len() > 0 {
        lemma_dashed_shape(s.drop_last());
        let prev = dashed(s.drop_last());
        let c = s.last();
        if is_ascii_alnum(c) {
            lemma_ascii_lower_alnum(c);
        }
        let d = dashed(s);
        assert forall|i: int| 0 <= i < d.len() - 1 implies !(#[trigger] d[i] == '-' && d[i + 1]
            == '-') by {
            if i + 1 < prev.len() {
                assert(d[i] == prev[i] && d[i + 1] == prev[i + 1]);
            }
        }
        assert forall|i: int| 0 <= i < d.len() implies is_name_char(#[trigger] d[i]) by {
            if i < prev.len() {
                assert(d[i] == prev[i]);
            }
        }
    }
}

proof fn lemma_cap_shape(s: Seq<char>, n: nat)
    requires
        dash_shaped(s),
    ensures
        dash_shaped(cap(s, n)),
        cap(s, n).len() <= n,
{
    let t = cap(s, n);
    assert forall|i: int| 0 <= i < t.len() implies is_name_char(#[trigger] t[i]) by {
        assert(t[i] == s[i]);
    }
    assert forall|i: int| 0 <= i < t.len() - 1 implies !(#[trigger] t[i] == '-' && t[i + 1]
        == '-') by {
        assert(t[i] == s[i] && t[i + 1] == s[i + 1]);
    }
    if t.len() > 0 {
        assert(t[0] == s[0]);
    }
}

/// A dash-shaped sequence with no trailing dash is a clean name once short enough.
proof fn lemma_strip_shape(s: Seq<char>)
    requires
        dash_shaped(s),
    ensures
        strip_dashes(s).len() <= s.len(),
        dash_shaped(strip_dashes(s)),
        strip_dashes(s).len() > 0 ==> strip_dashes(s).last() != '-',
        strip_dashes(s) == s || strip_dashes(s) == s.drop_last(),
    decreases s.len(),
{
    if s.len() > 0 && s[0] == '-' {
    } else if s.len() > 0 && s.last() == '-' {
        let t = s.drop_last();
        assert forall|i: int| 0 <= i < t.len() implies is_name_char(#[trigger] t[i]) by {
            assert(t[i] == s[i]);
        }
        assert forall|i: int| 0 <= i < t.len() - 1 implies !(#[trigger] t[i] == '-' && t[i + 1]
            == '-') by {
            assert(t[i] == s[i] && t[i + 1] == s[i + 1]);
        }
        if t.len() > 0 {
            assert(t[0] == s[0]);
            assert(t.last() == s[s.len() - 2]);
            assert(!(s[s.len() - 2] == '-' && s[s.len() - 1] == '-'));
        }
        assert(strip_dashes(t) == t);
    }
}

/// Every sanitized name is clean.
pub proof fn lemma_sanitized_is_clean(s: Seq<char>)
    ensures
        is_clean_name(sanitized(s)),
{
    lemma_dashed_shape(s);
    lemma_cap_shape(dashed(s), NAME_CAP as nat);
    lemma_strip_shape(cap(dashed(s), NAME_CAP as nat));
}

/// A clean name passes through the first stage of sanitizing unchanged.
proof fn lemma_dashed_clean(s: Seq<char>)
    requires
        dash_shaped(s),
    ensures
        dashed(s) == s,
    decreases s.len(),
{
    if s.len() > 0 {
        let t = s.drop_last();
        assert forall|i: int| 0 <= i < t.len() implies is_name_char(#[trigger] t[i]) by {
            assert(t[i] == s[i]);
        }
        assert forall|i: int| 0 <= i < t.len() - 1 implies !(#[trigger] t[i] == '-' && t[i + 1]
            == '-') by {
            assert(t[i] == s[i] && t[i + 1] == s[i + 1]);
        }
        if t.len() > 0 {
            assert(t[0] == s[0]);
        }
        lemma_dashed_clean(t);
        let c = s.last();
        assert(is_name_char(s[s.len() - 1]));
        if c == '-' {
            assert(s.len() > 1);
            assert(t.last() == s[s.len() - 2]);
            assert(!(s[s.len() - 2] == '-' && s[s.len() - 1] == '-'));
        }
        assert(dashed(s) =~= s);
    }
}

/// Sanitizing is idempotent: a sanitized name sanitizes to itself.
pub proof fn lemma_sanitize_idempotent(s: Seq<char>)
    ensures
        sanitized(sanitized(s)) == sanitized(s),
{
    let t = sanitized(s);
    lemma_sanitized_is_clean(s);
    lemma_clean_name_fixed(t);
}

/// A clean name is left unchanged by sanitizing.
pub proof fn lemma_clean_name_fixed(t: Seq<char>)
    requires
        is_clean_name(t),
    ensures
        sanitized(t) == t,
{
    lemma_dashed_clean(t);
    assert(cap(t, NAME_CAP as nat) == t);
    if t.len() > 0 {
        assert(t[0] != '-' && t.last() != '-');
    }
}

/// The ASCII letters and digits of `s`, lower-cased, in order.
pub open spec fn lower_alnums(s: Seq<char>) -> Seq<char>
    decreases s.len(),
{
    if s.len() == 0 {
        Seq::empty()
    } else {
        let prev = lower_alnums(s.drop_last());
        if is_ascii_alnum(s.last()) {
            prev.push(ascii_lower(s.last()))
        } else {
            prev
        }
    }
}

proof fn lemma_lower_alnums_concat(a: Seq<char>, b: Seq<char>)
    ensures
        lower_alnums(a + b) == lower_alnums(a) + lower_alnums(b),
    decreases b.len(),
{
    if b.len() == 0 {
        assert(a + b =~= a);
        assert(lower_alnums(a) + lower_alnums(b) =~= lower_alnums(a));
    } else {
        lemma_lower_alnums_concat(a, b.drop_last());
        assert((a + b).drop_last() =~= a + b.drop_last());
        assert((a + b).last() == b.last());
        if is_ascii_alnum(b.last()) {
            assert(lower_alnums(a + b) =~= lower_alnums(a) + lower_alnums(b));
        } else {
            assert(lower_alnums(a + b) =~= lower_alnums(a) + lower_alnums(b));
        }
    }
}

proof fn lemma_lower_alnums_dashed(s: Seq<char>)
    ensures
        lower_alnums(dashed(s)) == lower_alnums(s),
    decreases s.len(),
{
    if s.len() > 0 {
        lemma_lower_alnums_dashed(s.drop_last());
        let prev = dashed(s.drop_last());
        let c = s.last();
        if is_ascii_alnum(c) {
            assert(prev.push(ascii_lower(c)).drop_last() =~= prev);
            assert(is_ascii_alnum(ascii_lower(c)));
            assert(ascii_lower(ascii_lower(c)) == ascii_lower(c));
        } else if prev.len() > 0 && prev.last() != '-' {
            assert(prev.push('-').drop_last() =~= prev);
        }
    }
}

proof fn lemma_lower_alnums_take(s: Seq<char>, n: int)
    requires
        0 <= n <= s.len(),
    ensures
        lower_alnums(s.take(n)).is_prefix_of(lower_alnums(s)),
    decreases s.len(),
{
    if n == s.len() {
        assert(s.take(n) =~= s);
        assert(lower_alnums(s).subrange(0, lower_alnums(s).len() as int) =~= lower_alnums(s));
    } else {
        lemma_lower_alnums_take(s.drop_last(), n);
        assert(s.drop_last().take(n) =~= s.take(n));
        let p = lower_alnums(s.take(n));
        let q = lower_alnums(s.drop_last());
        assert(q.is_prefix_of(lower_alnums(s))) by {
            if is_ascii_alnum(s.last()) {
                assert(q =~= lower_alnums(s).subrange(0, q.len() as int));
            } else {
                assert(q =~= lower_alnums(s).subrange(0, q.len() as int));
            }
        }
        assert(p =~= lower_alnums(s).subrange(0, p.len() as int));
    }
}

/// The letters and digits of a sanitized name are, in order, a prefix of
/// the input's ASCII letters and digits, lower-cased: sanitizing only
/// lower-cases, turns the rest into dashes, and cuts at the cap.
pub proof fn lemma_sanitized_keeps_alnums(s: Seq<char>)
    ensures
        lower_alnums(sanitized(s)).is_prefix_of(lower_alnums(s)),
{
    let d = dashed(s);
    let c = cap(d, NAME_CAP as nat);
    lemma_lower_alnums_dashed(s);
    lemma_dashed_shape(s);
    lemma_cap_shape(d, NAME_CAP as nat);
    lemma_strip_shape(c);
    if d.len() <= NAME_CAP {
        lemma_lower_alnums_take(d, d.len() as int);
        assert(d.take(d.len() as int) =~= d);
    } else {
        lemma_lower_alnums_take(d, NAME_CAP as int);
    }
    if strip_dashes(c) != c {
        assert(c.len() > 0 && c.last() == '-') by {
            if !(c.len() > 0 && c.last() == '-') {
                assert(c.len() == 0 || c[0] != '-');
            }
        }
        assert(c =~= c.drop_last() + seq!['-']);
        lemma_lower_alnums_concat(c.drop_last(), seq!['-']);
        assert(lower_alnums(seq!['-']) =~= Seq::<char>::empty()) by {
            assert(seq!['-'].drop_last() =~= Seq::<char>::empty());
        }
        assert(lower_alnums(c.drop_last()) + Seq::<char>::empty() =~= lower_alnums(c.drop_last()));
    }
}

/// `c` lower-cased if it is an ASCII upper-case letter.
pub fn ascii_lower_char(c: char) -> (r: char)
    ensures
        r == ascii_lower(c),
{
    if 'A' <= c && c <= 'Z' {
        let b = c as u8;
        (b + 32) as char
    } else {
        c
    }
}

/// `c` is an ASCII letter or digit.
pub fn is_ascii_alnum_char(c: char) -> (b: bool)
    ensures
        b == is_ascii_alnum(c),
{
    ('a' <= c && c <= 'z') || ('A' <= c && c <= 'Z') || ('0' <= c && c <= '9')
}

/// Lower-cases `s`, collapses each run of non-alphanumerics into one dash,
/// caps the result at 32 characters and drops leading and trailing dashes.
pub fn sanitize(s: &str) -> (r: String)
    ensures
        r@ == sanitized(s@),
        is_clean_name(r@),
{
    let v = chars_of(s);
    let mut out: Vec<char> = Vec::new();
    let mut prev_dash = false;
    let n = v.len();
    let mut i: usize = 0;
    while i < n
        invariant
            n == v.len(),
            i <= n,
            v@ == s@,
            out@ == dashed(v@.take(i as int)),
            prev_dash == (out@.len() > 0 && out@.last() == '-'),
        decreases n - i,
    {
        let c = v[i];
        proof {
            assert(v@.take(i + 1).drop_last() =~= v@.take(i as int));
            assert(v@.take(i + 1).last() == c);
        }
        if is_ascii_alnum_char(c) {
            let lc = ascii_lower_char(c);
            out.push(lc);
            prev_dash = false;
            proof {
                lemma_ascii_lower_alnum(c);
            }
        } else if !prev_dash && out.len() > 0 {
            out.push('-');
            prev_dash = true;
        }
        i = i + 1;
    }
    proof {
        assert(v@.take(n as int) =~= s@);
    }
    let ghost d = out@;
    let mut hi = out.len();
    if hi > NAME_CAP {
        hi = NAME_CAP;
    }
    assert(out@.subrange(0, hi as int) =~= cap(d, NAME_CAP as nat));
    let (lo, hi) = strip_dash_bounds(&out, hi);
    proof {
        lemma_sanitized_is_clean(s@);
    }
    string_of_range(&out, lo, hi)
}

/// Bounds of `v[..hi]` with leading and trailing dashes removed.
fn strip_dash_bounds(v: &Vec<char>, hi: usize) -> (r: (usize, usize))
    requires
        hi <= v.len(),
    ensures
        r.0 <= r.1 <= hi,
        v@.subrange(r.0 as int, r.1 as int) == strip_dashes(v@.subrange(0, hi as int)),
{
    let mut lo: usize = 0;
    let mut h = hi;
    while lo < h && (v[lo] == '-' || v[h - 1] == '-')
        invariant
            lo <= h <= hi <= v.len(),
            strip_dashes(v@.subrange(lo as int, h as int)) == strip_dashes(
                v@.subrange(0, hi as int),
            ),
        decreases h - lo,
    {
        let ghost t = v@.subrange(lo as int, h as int);
        if v[lo] == '-' {
            assert(t[0] == '-');
            assert(t.drop_first() =~= v@.subrange(lo + 1, h as int));
            lo = lo + 1;
        } else {
            assert(t.last() == '-');
            assert(t.drop_last() =~= v@.subrange(lo as int, h - 1));
            h = h - 1;
        }
    }
    (lo, h)
}

/// The spec of `name_from`: `<id>-<desc>`, or just `<id>` when the
/// description is blank.
pub open spec fn joined_name(short: Seq<char>, desc: Seq<char>) -> Seq<char> {
    if all_white_space(desc) {
        short
    } else {
        short + seq!['-'] + desc
    }
}

/// Composes a workspace name from a short revision id and a description:
/// `<id>-<desc>`, or just `<id>` when the description is blank.
pub fn name_from(short: &str, desc: &str) -> (r: String)
    ensures
        r@ == joined_name(short@, desc@),
{
    let d = chars_of(desc);
    let mut blank = true;
    let mut i: usize = 0;
    while i < d.len()
        invariant
            d@ == desc@,
            i <= d.len(),
            blank == all_white_space(d@.take(i as int)),
        decreases d.len() - i,
    {
        assert(d@.take(i + 1) =~= d@.take(i as int).push(d@[i as int]));
        let ghost t = d@.take(i + 1);
        if !is_white_space_char(d[i]) {
            blank = false;
            assert(t[i as int] == d@[i as int]);
        } else if blank {
            assert forall|k: int| 0 <= k < t.len() implies is_white_space(#[trigger] t[k]) by {
                if k < i {
                    assert(t[k] == d@.take(i as int)[k]);
                }
            }
        } else {
            proof {
                let k = choose|k: int|
                    0 <= k < i && !is_white_space(#[trigger] d@.take(i as int)[k]);
                assert(t[k] == d@.take(i as int)[k]);
            }
        }
        i = i + 1;
    }
    assert(d@.take(d.len() as int) =~= desc@);
    if blank {
        string_of(chars_of(short).as_slice())
    } else {
        let mut out = chars_of(short);
        out.push('-');
        let mut k: usize = 0;
        let ghost base = out@;
        while k < d.len()
            invariant
                k <= d.len(),
                d@ == desc@,
                out@ == base + d@.take(k as int),
            decreases d.len() - k,
        {
            out.push(d[k]);
            assert(d@.take(k + 1) =~= d@.take(k as int).push(d@[k as int]));
            k = k + 1;
        }
        assert(d@.take(d.len() as int) =~= d@);
        string_of(out.as_slice())
    }
}

} // verus!
