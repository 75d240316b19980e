//! The untracked files a new workspace gets copied in: the `wts.copy` glob
//! patterns, read from jj's TOML config or git's multi-valued key, and where
//! each match lands.
use vstd::prelude::*;
use crate::backend::{command, command_view, decode_lossy, jj_capture, result_view, utf8_lossy, Backend, Command, RunResult};
use crate::order::{lex_lt, sorted_set, sorted_unique, strictly_sorted};
use crate::paths::{concat, joined_path, path_join, path_strip_prefix, std_strip_prefix};
use crate::text::{chars_of, find_char_from, first_or_len, string_of_range, views};

verus! {

#[verifier::external_type_specification]
#[verifier::external_body]
#[verifier::reject_recursive_types(K)]
#[verifier::reject_recursive_types(V)]
pub struct ExTomlMap<K, V>(toml::map::Map<K, V>);

#[verifier::external_type_specification]
#[verifier::external_body]
pub struct ExTomlValue(toml::Value);

/// A TOML value as the copy rules read it: a string, a table, or anything else.
pub enum TomlItem {
    Text(Seq<char>),
    Table(Map<Seq<char>, TomlItem>),
    Other,
}

/// A TOML value handed out of a table: its string, its table, or neither.
pub enum TomlRef<'a> {
    Text(String),
    Table(&'a toml::Table),
    Other,
}

/// What a `toml::Table` holds, key by key.
pub uninterp spec fn toml_table_items(t: toml::Table) -> Map<Seq<char>, TomlItem>;

/// What parsing `text` as a TOML table gives: its contents, or the error's text.
pub uninterp spec fn toml_parsed(text: Seq<char>) -> Result<Map<Seq<char>, TomlItem>, Seq<char>>;

impl<'a> TomlRef<'a> {
    /// The value, as the copy rules read it.
    pub open spec fn item(self) -> TomlItem {
        match self {
            TomlRef::Text(s) => TomlItem::Text(s@),
            TomlRef::Table(t) => TomlItem::Table(toml_table_items(*t)),
            TomlRef::Other => TomlItem::Other,
        }
    }
}

/// Parses `text` with `<toml::Table as FromStr>::from_str`. Claims that the
/// outcome (the table's contents, or the error's text) is a function of
/// `text`.
#[verifier::external_body]
pub(crate) fn toml_parse(text: &str) -> (r: Result<toml::Table, String>)
    ensures
        match r {
            Ok(t) => toml_parsed(text@) == Ok::<_, Seq<char>>(toml_table_items(t)),
            Err(e) => toml_parsed(text@) == Err::<Map<Seq<char>, TomlItem>, _>(e@),
        },
{
    text.parse::<toml::Table>().map_err(|e| e.to_string())
}

/// Looks `key` up with `toml::map::Map::get`. Claims it finds exactly the
/// entry the table holds for `key`, handed out as a string, a table, or
/// neither.
#[verifier::external_body]
pub(crate) fn toml_get<'a>(t: &'a toml::Table, key: &str) -> (r: Option<TomlRef<'a>>)
    ensures
        match r {
            Some(x) => toml_table_items(*t).contains_key(key@) && toml_table_items(*t)[key@]
                == x.item(),
            None => !toml_table_items(*t).contains_key(key@),
        },
{
    t.get(key).map(|v| match v {
        toml::Value::String(s) => TomlRef::Text(s.clone()),
        toml::Value::Table(x) => TomlRef::Table(x),
        _ => TomlRef::Other,
    })
}

/// Walks the table with `toml::map::Map::iter`. Claims each entry is handed
/// out once, with its key, as a string, a table, or neither, in ascending key
/// order (the map is a `BTreeMap<String, Value>` without the crate's
/// `preserve_order` feature, and `String`'s order is that of `lex_lt`).
#[verifier::external_body]
pub(crate) fn toml_entries<'a>(t: &'a toml::Table) -> (r: Vec<(String, TomlRef<'a>)>)
    ensures
        forall|i: int|
            0 <= i < r@.len() ==> toml_table_items(*t).contains_key(#[trigger] r@[i].0@)
                && toml_table_items(*t)[r@[i].0@] == r@[i].1.item(),
        forall|k: Seq<char>|
            toml_table_items(*t).contains_key(k) ==> exists|i: int|
                0 <= i < r@.len() && #[trigger] r@[i].0@ == k,
        forall|i: int, j: int| 0 <= i < j < r@.len() ==> lex_lt(r@[i].0@, r@[j].0@),
{
    t.iter().map(|(k, v)| (k.clone(), match v {
        toml::Value::String(s) => TomlRef::Text(s.clone()),
        toml::Value::Table(x) => TomlRef::Table(x),
        _ => TomlRef::Other,
    })).collect()
}

/// The string values of `c` at `keys`, in that order (entries holding
/// anything else are skipped).
pub open spec fn texts_along(c: Map<Seq<char>, TomlItem>, keys: Seq<Seq<char>>) -> Seq<Seq<char>>
    decreases keys.len(),
{
    if keys.len() == 0 {
        Seq::empty()
    } else {
        let prev = texts_along(c, keys.drop_last());
        match c[keys.last()] {
            TomlItem::Text(s) => prev.push(s),
            _ => prev,
        }
    }
}

/// The string values of the table `c`, in ascending key order (the order a
/// `toml::Table` walks its entries in).
pub open spec fn texts_of(c: Map<Seq<char>, TomlItem>) -> Seq<Seq<char>> {
    texts_along(c, sorted_set(c.dom()))
}

/// The string values of the `wts.copy` table of a parsed config, in the
/// table's order.
pub open spec fn wts_copy_texts(top: Map<Seq<char>, TomlItem>) -> Seq<Seq<char>> {
    if top.contains_key("wts"@) {
        match top["wts"@] {
            TomlItem::Table(w) => if w.contains_key("copy"@) {
                match w["copy"@] {
                    TomlItem::Table(c) => texts_of(c),
                    _ => Seq::empty(),
                }
            } else {
                Seq::empty()
            },
            _ => Seq::empty(),
        }
    } else {
        Seq::empty()
    }
}

/// The copy patterns in jj's `wts.copy` table, from the answer to
/// `jj config list wts.copy` (printed as TOML). An unset table, a failed
/// listing, or unparseable TOML gives none. The values come in the table's
/// order, repeats kept.
pub open spec fn jj_copy_texts(listing: Result<Seq<char>, Seq<char>>) -> Seq<Seq<char>> {
    let text = match listing {
        Ok(s) => s,
        Err(_) => Seq::empty(),
    };
    if text.len() == 0 {
        Seq::empty()
    } else {
        match toml_parsed(text) {
            Ok(top) => wts_copy_texts(top),
            Err(_) => Seq::empty(),
        }
    }
}

/// The warning for an unparseable `wts.copy` listing.
pub open spec fn jj_copy_warning(listing: Result<Seq<char>, Seq<char>>) -> Option<Seq<char>> {
    let text = match listing {
        Ok(s) => s,
        Err(_) => Seq::empty(),
    };
    if text.len() == 0 {
        None
    } else {
        match toml_parsed(text) {
            Ok(_) => None,
            Err(e) => Some("wts: ignoring unparseable wts.copy config: "@ + e),
        }
    }
}

/// The string values of a TOML table's entries, in the table's order.
fn table_texts(c: &toml::Table) -> (r: Vec<String>)
    ensures
        views(r@) == texts_of(toml_table_items(*c)),
{
    let entries = toml_entries(c);
    let ghost items = toml_table_items(*c);
    let ghost keys = entries@.map_values(|e: (String, TomlRef)| e.0@);
    proof {
        assert(strictly_sorted(keys));
        assert(keys.to_set() =~= items.dom()) by {
            assert forall|x: Seq<char>| items.dom().contains(x) implies keys.to_set().contains(x) by {
                let i = choose|i: int| 0 <= i < entries@.len() && #[trigger] entries@[i].0@ == x;
                assert(keys[i] == x);
            }
        }
        crate::order::lemma_sorted_set(keys);
    }
    let mut out: Vec<String> = Vec::new();
    let mut k: usize = 0;
    while k < entries.len()
        invariant
            k <= entries.len(),
            keys == entries@.map_values(|e: (String, TomlRef)| e.0@),
            items == toml_table_items(*c),
            forall|i: int|
                0 <= i < entries@.len() ==> items.contains_key(#[trigger] entries@[i].0@)
                    && items[entries@[i].0@] == entries@[i].1.item(),
            views(out@) == texts_along(items, keys.take(k as int)),
        decreases entries.len() - k,
    {
        let ghost prev = out@;
        proof {
            assert(keys.take(k + 1).drop_last() =~= keys.take(k as int));
            assert(keys.take(k + 1).last() == entries@[k as int].0@);
        }
        match &entries[k].1 {
            TomlRef::Text(s) => {
                out.push(s.clone());
                assert(views(out@) =~= views(prev).push(s@));
            },
            _ => {},
        }
        k = k + 1;
    }
    assert(keys.take(entries.len() as int) =~= keys);
    out
}

/// The copy patterns in jj's `wts.copy` TOML table, in the table's order
/// (not yet sorted or deduplicated), and the warning to print when the
/// listing does not parse.
pub fn copy_patterns_jj(listing: &Result<String, String>) -> (r: (Vec<String>, Option<String>))
    ensures
        views(r.0@) == jj_copy_texts(result_view(*listing)),
        match r.1 {
            Some(w) => jj_copy_warning(result_view(*listing)) == Some(w@),
            None => jj_copy_warning(result_view(*listing)) is None,
        },
{
    let text = match listing {
        Ok(s) => s.clone(),
        Err(_) => String::new(),
    };
    let none: Vec<String> = Vec::new();
    assert(views(none@) =~= Seq::<Seq<char>>::empty());
    if text.as_str().is_empty() {
        return (none, None);
    }
    let table = match toml_parse(text.as_str()) {
        Ok(t) => t,
        Err(e) => {
            let w = concat("wts: ignoring unparseable wts.copy config: ", e.as_str());
            return (none, Some(w));
        },
    };
    match toml_get(&table, "wts") {
        Some(TomlRef::Table(w)) => match toml_get(w, "copy") {
            Some(TomlRef::Table(c)) => (table_texts(c), None),
            _ => (none, None),
        },
        _ => (none, None),
    }
}

/// The non-empty fields of `s` separated by `c` (as `split(c)` with empty
/// pieces filtered out).
pub open spec fn nonempty_fields(s: Seq<char>, c: char) -> Seq<Seq<char>>
    decreases s.len(),
{
    if s.len() == 0 {
        Seq::empty()
    } else {
        let e = first_or_len(s, c);
        let rest = if e < s.len() {
            proof {
                crate::text::lemma_first_or_len_bounds(s, c);
            }
            nonempty_fields(s.skip(e + 1), c)
        } else {
            Seq::empty()
        };
        if e > 0 {
            seq![s.take(e)] + rest
        } else {
            rest
        }
    }
}

/// The copy patterns in git's multi-valued `wts.copy`, from the run of
/// `git config --get-all --null wts.copy`: the NUL-separated values of its
/// output when it succeeded; none otherwise (an unset key exits non-zero).
pub open spec fn git_copy_fields(run: RunResult) -> Seq<Seq<char>> {
    match run {
        RunResult::Exited { success: true, stdout, .. } => nonempty_fields(
            utf8_lossy(stdout@),
            '\0',
        ),
        _ => Seq::empty(),
    }
}

/// The copy patterns from git's `wts.copy` (unsorted).
pub fn copy_patterns_git(run: &RunResult) -> (r: Vec<String>)
    ensures
        views(r@) == git_copy_fields(*run),
{
    let text = match run {
        RunResult::Exited { success, stdout, .. } => {
            if !*success {
                return Vec::new();
            }
            decode_lossy(stdout.as_slice())
        },
        _ => return Vec::new(),
    };
    let v = chars_of(text.as_str());
    let n = v.len();
    let mut out: Vec<String> = Vec::new();
    let mut pos: usize = 0;
    assert(v@.skip(0) =~= v@);
    while pos < n
        invariant
            n == v.len(),
            pos <= n,
            nonempty_fields(v@, '\0') == views(out@) + nonempty_fields(v@.skip(pos as int), '\0'),
        decreases n - pos,
    {
        let ghost rest = v@.skip(pos as int);
        let e = find_char_from(&v, pos, '\0');
        proof {
            assert(rest.take(e - pos) =~= v@.subrange(pos as int, e as int));
            if e < n {
                assert(rest.skip(e - pos + 1) =~= v@.skip(e + 1));
            }
        }
        if e > pos {
            let f = string_of_range(&v, pos, e);
            let ghost prev = out@;
            out.push(f);
            assert(views(out@) =~= views(prev).push(f@));
        }
        if e < n {
            pos = e + 1;
        } else {
            pos = n;
        }
        proof {
            if e >= n {
                assert(v@.skip(n as int) =~= Seq::<char>::empty());
            }
        }
    }
    assert(v@.skip(pos as int) =~= Seq::<char>::empty());
    assert(views(out@) + Seq::<Seq<char>>::empty() =~= views(out@));
    out
}

/// `jj config list wts.copy`.
pub fn jj_copy_query() -> (c: Command)
    ensures
        command_view(c) == ("jj"@, seq!["config"@, "list"@, "wts.copy"@]),
{
    let c = command("jj", &["config", "list", "wts.copy"]);
    assert(command_view(c).1 =~= seq!["config"@, "list"@, "wts.copy"@]);
    c
}

/// `git config --get-all --null wts.copy`.
pub fn git_copy_query() -> (c: Command)
    ensures
        command_view(c) == ("git"@, seq!["config"@, "--get-all"@, "--null"@, "wts.copy"@]),
{
    let c = command("git", &["config", "--get-all", "--null", "wts.copy"]);
    assert(command_view(c).1 =~= seq!["config"@, "--get-all"@, "--null"@, "wts.copy"@]);
    c
}

/// The command that reads the backend's `wts.copy` patterns.
pub fn copy_query(backend: Backend) -> (c: Command)
    ensures
        command_view(c) == match backend {
            Backend::Jj => ("jj"@, seq!["config"@, "list"@, "wts.copy"@]),
            Backend::Git => ("git"@, seq!["config"@, "--get-all"@, "--null"@, "wts.copy"@]),
        },
{
    match backend {
        Backend::Jj => jj_copy_query(),
        Backend::Git => git_copy_query(),
    }
}

/// The patterns a backend's `wts.copy` config names.
pub open spec fn configured_patterns(backend: Backend, run: RunResult) -> Set<Seq<char>> {
    match backend {
        Backend::Jj => jj_copy_texts(crate::backend::captured("jj"@, run)).to_set(),
        Backend::Git => git_copy_fields(run).to_set(),
    }
}

/// The warning, if any, about a backend's `wts.copy` config.
pub open spec fn patterns_warning(backend: Backend, run: RunResult) -> Option<Seq<char>> {
    match backend {
        Backend::Jj => jj_copy_warning(crate::backend::captured("jj"@, run)),
        Backend::Git => None,
    }
}

/// The glob patterns to copy, from the run of `copy_query(backend)`: sorted
/// and free of duplicates, for a deterministic copy order whatever the
/// config layers, together with a warning to print, if any. A per-repo entry
/// extends the user-level set (jj merges tables, git merges multi-values).
pub fn copy_patterns(backend: Backend, run: &RunResult) -> (r: (Vec<String>, Option<String>))
    ensures
        views(r.0@) == sorted_set(configured_patterns(backend, *run)),
        strictly_sorted(views(r.0@)),
        views(r.0@).to_set() == configured_patterns(backend, *run),
        match r.1 {
            Some(w) => patterns_warning(backend, *run) == Some(w@),
            None => patterns_warning(backend, *run) is None,
        },
{
    match backend {
        Backend::Jj => {
            let listing = jj_capture(run);
            let (pats, warn) = copy_patterns_jj(&listing);
            (sorted_unique(pats), warn)
        },
        Backend::Git => (sorted_unique(copy_patterns_git(run)), None),
    }
}

/// `s` with each glob metacharacter (`?`, `*`, `[`, `]`) wrapped in brackets.
pub open spec fn glob_escaped(s: Seq<char>) -> Seq<char>
    decreases s.len(),
{
    if s.len() == 0 {
        Seq::empty()
    } else {
        let c = s.last();
        let e = if c == '?' || c == '*' || c == '[' || c == ']' {
            seq!['[', c, ']']
        } else {
            seq![c]
        };
        glob_escaped(s.drop_last()) + e
    }
}

/// Calls `glob::Pattern::escape`. Claims what its source does: each of
/// `?`, `*`, `[`, `]` becomes `[c]`, every other character is kept.
#[verifier::external_body]
pub(crate) fn glob_escape(s: &str) -> (r: String)
    ensures
        r@ == glob_escaped(s@),
{
    glob::Pattern::escape(s)
}

/// The glob for pattern `pat` under the source workspace: the source root
/// with its metacharacters escaped, a separator, then the pattern.
pub fn copy_glob(source: &str, pat: &str) -> (r: String)
    ensures
        r@ == glob_escaped(source@) + "/"@ + pat@,
{
    let base = glob_escape(source);
    let a = concat(base.as_str(), "/");
    concat(a.as_str(), pat)
}

/// Where a glob match `path` under the source lands in the new workspace:
/// its path relative to `source`, and that path under `dest`; `None` when
/// `path` is not under `source`.
pub fn copy_target(source: &str, dest: &str, path: &str) -> (r: Option<(String, String)>)
    ensures
        match r {
            Some((rel, to)) => std_strip_prefix(path@, source@) == Some(rel@) && to@
                == joined_path(dest@, rel@),
            None => std_strip_prefix(path@, source@) is None,
        },
{
    match path_strip_prefix(path, source) {
        Some(rel) => {
            let to = path_join(dest, rel.as_str());
            Some((rel, to))
        },
        None => None,
    }
}

} // verus!
