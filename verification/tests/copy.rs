use wts::backend::{Backend, RunResult};
use wts::copy::{copy_glob, copy_patterns, copy_patterns_git, copy_patterns_jj, copy_target};

fn ok_run(out: &[u8]) -> RunResult {
    RunResult::Exited { success: true, stdout: out.to_vec(), stderr: Vec::new() }
}

#[test]
fn git_patterns_split_on_nul_sorted_and_deduped() {
    let run = ok_run(b"b *.md\0.env*\0b *.md\0\0");
    assert_eq!(copy_patterns_git(&run), vec!["b *.md".to_string(), ".env*".to_string(), "b *.md".to_string()]);
    let (pats, warn) = copy_patterns(Backend::Git, &run);
    assert_eq!(pats, vec![".env*".to_string(), "b *.md".to_string()]);
    assert!(warn.is_none());
}

#[test]
fn git_unset_key_gives_no_patterns() {
    let run = RunResult::Exited { success: false, stdout: b"junk".to_vec(), stderr: Vec::new() };
    assert!(copy_patterns(Backend::Git, &run).0.is_empty());
    assert!(copy_patterns(Backend::Git, &RunResult::SpawnFailed("x".into())).0.is_empty());
}

#[test]
fn jj_patterns_from_the_wts_copy_table() {
    let listing = "wts.copy.env = \".env*\"\nwts.copy.agents = \"AGENTS.override.md\"\nwts.copy.dup = \".env*\"\nwts.copy.n = 3\n";
    let (pats, warn) = copy_patterns(Backend::Jj, &ok_run(listing.as_bytes()));
    assert_eq!(pats, vec![".env*".to_string(), "AGENTS.override.md".to_string()]);
    assert!(warn.is_none());
}

#[test]
fn jj_patterns_empty_or_not_a_table() {
    assert!(copy_patterns_jj(&Ok(String::new())).0.is_empty());
    assert!(copy_patterns_jj(&Err("unset".into())).0.is_empty());
    let (pats, warn) = copy_patterns_jj(&Ok("wts.copy = [\"a\"]\n".into()));
    assert!(pats.is_empty() && warn.is_none());
}

#[test]
fn jj_unparseable_listing_warns() {
    let (pats, warn) = copy_patterns_jj(&Ok("wts.copy.x = \n".into()));
    assert!(pats.is_empty());
    let w = warn.expect("a warning");
    assert!(w.starts_with("wts: ignoring unparseable wts.copy config: "), "{w}");
}

#[test]
fn copy_glob_escapes_the_source_root() {
    assert_eq!(copy_glob("/home/me/re[po]*", ".env*"), "/home/me/re[[]po[]][*]/.env*");
    assert_eq!(copy_glob("/plain", "a?"), "/plain/a?");
}

#[test]
fn copy_target_relative_to_source() {
    assert_eq!(
        copy_target("/r/repo", "/r/repo-wts/x", "/r/repo/sub/.env"),
        Some(("sub/.env".to_string(), "/r/repo-wts/x/sub/.env".to_string()))
    );
    assert_eq!(copy_target("/r/repo", "/r/repo-wts/x", "/elsewhere/.env"), None);
}

#[test]
fn jj_patterns_come_in_table_order_with_repeats() {
    let listing = "wts.copy.b = \"x\"\nwts.copy.a = \"y\"\nwts.copy.c = \"x\"\nwts.copy.d = 1\n";
    let (pats, warn) = copy_patterns_jj(&Ok(listing.to_string()));
    assert_eq!(pats, vec!["y".to_string(), "x".to_string(), "x".to_string()]);
    assert!(warn.is_none());
}
