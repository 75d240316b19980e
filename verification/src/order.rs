//! The order of `str` (lexicographic by character), and sorting a list of
//! strings into a duplicate-free ascending list.
use vstd::prelude::*;
use crate::text::{chars_of, views};

verus! {

/// `a` sorts strictly before `b` (as `str`'s `<`: lexicographic by
/// character, which is byte order for UTF-8).
pub open spec fn lex_lt(a: Seq<char>, b: Seq<char>) -> bool
    decreases a.len(),
{
    if b.len() == 0 {
        false
    } else if a.len() == 0 {
        true
    } else if (a[0] as u32) < (b[0] as u32) {
        true
    } else if (a[0] as u32) > (b[0] as u32) {
        false
    } else {
        lex_lt(a.drop_first(), b.drop_first())
    }
}

proof fn lemma_char_eq(a: char, b: char)
    requires
        (a as u32) == (b as u32),
    ensures
        a == b,
{
}

/// Exactly one of `a < b`, `a == b`, `b < a`.
pub proof fn lemma_lex_trichotomy(a: Seq<char>, b: Seq<char>)
    ensures
        lex_lt(a, b) || a == b || lex_lt(b, a),
        !(lex_lt(a, b) && lex_lt(b, a)),
        !lex_lt(a, a),
    decreases a.len(),
{
    if a.len() > 0 && b.len() > 0 {
        if (a[0] as u32) == (b[0] as u32) {
            lemma_lex_trichotomy(a.drop_first(), b.drop_first());
            lemma_char_eq(a[0], b[0]);
            if a.drop_first() == b.drop_first() {
                assert(a =~= seq![a[0]] + a.drop_first());
                assert(b =~= seq![b[0]] + b.drop_first());
            }
        }
    }
    if a.len() > 0 {
        lemma_lex_trichotomy(a.drop_first(), a.drop_first());
    }
    if a.len() == 0 && b.len() == 0 {
        assert(a =~= b);
    }
}

/// `<` is transitive.
pub proof fn lemma_lex_transitive(a: Seq<char>, b: Seq<char>, c: Seq<char>)
    requires
        lex_lt(a, b),
        lex_lt(b, c),
    ensures
        lex_lt(a, c),
    decreases a.len(),
{
    if a.len() > 0 && (a[0] as u32) == (b[0] as u32) && (b[0] as u32) == (c[0] as u32) {
        lemma_lex_transitive(a.drop_first(), b.drop_first(), c.drop_first());
    }
}

/// `a < b`, computed.
pub fn lex_less(a: &Vec<char>, b: &Vec<char>) -> (r: bool)
    ensures
        r == lex_lt(a@, b@),
{
    let mut k: usize = 0;
    assert(a@.skip(0) =~= a@);
    assert(b@.skip(0) =~= b@);
    while k < a.len() && k < b.len() && a[k] == b[k]
        invariant
            k <= a.len(),
            k <= b.len(),
            lex_lt(a@, b@) == lex_lt(a@.skip(k as int), b@.skip(k as int)),
        decreases a.len() - k,
    {
        proof {
            let sa = a@.skip(k as int);
            let sb = b@.skip(k as int);
            assert(sa[0] == a@[k as int] && sb[0] == b@[k as int]);
            assert(sa.drop_first() =~= a@.skip(k + 1));
            assert(sb.drop_first() =~= b@.skip(k + 1));
        }
        k = k + 1;
    }
    let ghost sa = a@.skip(k as int);
    let ghost sb = b@.skip(k as int);
    if k == b.len() {
        assert(sb.len() == 0);
        false
    } else if k == a.len() {
        assert(sa.len() == 0);
        true
    } else {
        assert(sa[0] == a@[k as int] && sb[0] == b@[k as int]);
        assert(a@[k as int] != b@[k as int]);
        if (a[k] as u32) == (b[k] as u32) {
            proof {
                lemma_char_eq(a@[k as int], b@[k as int]);
            }
        }
        (a[k] as u32) < (b[k] as u32)
    }
}

/// Pushing `x` adds it to the set of elements.
pub proof fn lemma_push_to_set<A>(s: Seq<A>, x: A)
    ensures
        s.push(x).to_set() == s.to_set().insert(x),
{
    let t = s.push(x);
    assert forall|a: A| t.to_set().contains(a) implies s.to_set().insert(x).contains(a) by {
        let j = choose|j: int| 0 <= j < t.len() && t[j] == a;
        if j < s.len() {
            assert(s[j] == a);
        }
    }
    assert forall|a: A| s.to_set().insert(x).contains(a) implies t.to_set().contains(a) by {
        if a == x {
            assert(t[s.len() as int] == a);
        } else {
            let j = choose|j: int| 0 <= j < s.len() && s[j] == a;
            assert(t[j] == a);
        }
    }
    assert(t.to_set() =~= s.to_set().insert(x));
}

/// `s` is in strictly ascending order.
pub open spec fn strictly_sorted(s: Seq<Seq<char>>) -> bool {
    forall|i: int, j: int| 0 <= i < j < s.len() ==> lex_lt(s[i], s[j])
}

/// The strictly ascending sequence holding exactly the strings of `st`.
pub open spec fn sorted_set(st: Set<Seq<char>>) -> Seq<Seq<char>> {
    choose|s: Seq<Seq<char>>| strictly_sorted(s) && s.to_set() == st
}

/// Two strictly ascending sequences with the same strings are equal.
pub proof fn lemma_sorted_unique(s: Seq<Seq<char>>, t: Seq<Seq<char>>)
    requires
        strictly_sorted(s),
        strictly_sorted(t),
        s.to_set() == t.to_set(),
    ensures
        s == t,
    decreases s.len(),
{
    if s.len() == 0 {
        if t.len() > 0 {
            assert(t.to_set().contains(t[0]));
        }
        assert(s =~= t);
    } else if t.len() == 0 {
        assert(s.to_set().contains(s[0]));
    } else {
        assert(s.to_set().contains(s[0]));
        let j = choose|j: int| 0 <= j < t.len() && t[j] == s[0];
        assert(t.to_set().contains(t[0]));
        let k = choose|k: int| 0 <= k < s.len() && s[k] == t[0];
        if j > 0 {
            assert(lex_lt(t[0], t[j]));
            if k > 0 {
                assert(lex_lt(s[0], s[k]));
                lemma_lex_trichotomy(s[0], t[0]);
            } else {
                lemma_lex_trichotomy(s[0], s[0]);
            }
        }
        assert(s[0] == t[0]);
        let s1 = s.drop_first();
        let t1 = t.drop_first();
        assert forall|x: Seq<char>| s1.to_set().contains(x) implies t1.to_set().contains(x) by {
            let a = choose|a: int| 0 <= a < s1.len() && s1[a] == x;
            assert(s.to_set().contains(x));
            let b = choose|b: int| 0 <= b < t.len() && t[b] == x;
            if b == 0 {
                assert(lex_lt(s[0], s[a + 1]));
                lemma_lex_trichotomy(x, x);
            }
            assert(t1[b - 1] == x);
        }
        assert forall|x: Seq<char>| t1.to_set().contains(x) implies s1.to_set().contains(x) by {
            let a = choose|a: int| 0 <= a < t1.len() && t1[a] == x;
            assert(t.to_set().contains(x));
            let b = choose|b: int| 0 <= b < s.len() && s[b] == x;
            if b == 0 {
                assert(lex_lt(t[0], t[a + 1]));
                lemma_lex_trichotomy(x, x);
            }
            assert(s1[b - 1] == x);
        }
        assert(s1.to_set() =~= t1.to_set());
        lemma_sorted_unique(s1, t1);
        assert(s =~= seq![s[0]] + s1);
        assert(t =~= seq![t[0]] + t1);
    }
}

/// A strictly ascending sequence is the sorted form of its strings.
pub proof fn lemma_sorted_set(s: Seq<Seq<char>>)
    requires
        strictly_sorted(s),
    ensures
        sorted_set(s.to_set()) == s,
{
    let t = sorted_set(s.to_set());
    assert(strictly_sorted(t) && t.to_set() == s.to_set());
    lemma_sorted_unique(s, t);
}

/// The strings of `items`, sorted ascending with duplicates removed (as
/// `sort` followed by `dedup`): strictly ascending, holding exactly the
/// strings of `items`.
pub fn sorted_unique(items: Vec<String>) -> (r: Vec<String>)
    ensures
        strictly_sorted(views(r@)),
        views(r@).to_set() == views(items@).to_set(),
        views(r@) == sorted_set(views(items@).to_set()),
{
    let mut out: Vec<String> = Vec::new();
    let mut keys: Vec<Vec<char>> = Vec::new();
    let mut k: usize = 0;
    while k < items.len()
        invariant
            k <= items.len(),
            out@.len() == keys@.len(),
            forall|i: int| 0 <= i < keys@.len() ==> #[trigger] keys@[i]@ == out@[i]@,
            strictly_sorted(views(out@)),
            views(out@).to_set() == views(items@).take(k as int).to_set(),
        decreases items.len() - k,
    {
        let x = items[k].clone();
        let xk = chars_of(x.as_str());
        let mut i: usize = 0;
        while i < keys.len() && lex_less(&keys[i], &xk)
            invariant
                i <= keys@.len(),
                out@.len() == keys@.len(),
                forall|j: int| 0 <= j < keys@.len() ==> #[trigger] keys@[j]@ == out@[j]@,
                forall|j: int| 0 <= j < i ==> lex_lt(#[trigger] out@[j]@, x@),
                xk@ == x@,
            decreases keys@.len() - i,
        {
            i = i + 1;
        }
        let ghost before = views(out@);
        let ghost step = views(items@).take(k + 1);
        proof {
            assert(step =~= views(items@).take(k as int).push(x@));
            assert(views(items@)[k as int] == items@[k as int]@);
        }
        if i < keys.len() && crate::paths::str_eq(out[i].as_str(), x.as_str()) {
            proof {
                assert(before[i as int] == x@);
                lemma_push_to_set(views(items@).take(k as int), x@);
                assert(before.to_set().contains(x@));
                assert(before.to_set().insert(x@) =~= before.to_set());
            }
        } else {
            proof {
                if i < keys@.len() {
                    lemma_lex_trichotomy(out@[i as int]@, x@);
                    assert(lex_lt(x@, out@[i as int]@));
                }
            }
            out.insert(i, x);
            keys.insert(i, xk);
            proof {
                let after = views(out@);
                assert(after =~= before.insert(i as int, x@));
                assert forall|a: int, b: int| 0 <= a < b < after.len() implies lex_lt(
                    after[a],
                    after[b],
                ) by {
                    if b < i {
                        assert(after[a] == before[a] && after[b] == before[b]);
                    } else if b == i {
                        assert(after[a] == before[a]);
                    } else if a == i {
                        assert(after[b] == before[b - 1]);
                        if b - 1 > i {
                            assert(lex_lt(before[i as int], before[b - 1]));
                            lemma_lex_transitive(x@, before[i as int], before[b - 1]);
                        }
                    } else if a < i {
                        assert(after[a] == before[a] && after[b] == before[b - 1]);
                    } else {
                        assert(after[a] == before[a - 1] && after[b] == before[b - 1]);
                    }
                }
                assert(after.to_set() =~= before.to_set().insert(x@)) by {
                    assert forall|s: Seq<char>| after.to_set().contains(s) implies before.to_set().insert(
                        x@,
                    ).contains(s) by {
                        let j = choose|j: int| 0 <= j < after.len() && after[j] == s;
                        if j < i {
                            assert(before[j] == s);
                        } else if j > i {
                            assert(before[j - 1] == s);
                        }
                    }
                    assert forall|s: Seq<char>| before.to_set().insert(x@).contains(s) implies after.to_set().contains(
                        s,
                    ) by {
                        if s == x@ {
                            assert(after[i as int] == s);
                        } else {
                            let j = choose|j: int| 0 <= j < before.len() && before[j] == s;
                            if j < i {
                                assert(after[j] == s);
                            } else {
                                assert(after[j + 1] == s);
                            }
                        }
                    }
                }
                lemma_push_to_set(views(items@).take(k as int), x@);
                assert forall|j: int| 0 <= j < keys@.len() implies #[trigger] keys@[j]@ == out@[j]@ by {
                }
            }
        }
        k = k + 1;
    }
    assert(views(items@).take(items.len() as int) =~= views(items@));
    proof {
        lemma_sorted_set(views(out@));
    }
    out
}

} // verus!
