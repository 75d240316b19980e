use wts::naming::{name_from, sanitize};

#[test]
fn sanitize_lowercases_and_dashes() {
    assert_eq!(sanitize("Hello World!"), "hello-world");
    assert_eq!(sanitize("  --Foo__Bar--  "), "foo-bar");
    assert_eq!(sanitize("a/b/c"), "a-b-c");
}

#[test]
fn sanitize_caps_at_32_chars() {
    let s = sanitize(&"x".repeat(40));
    assert_eq!(s.len(), 32);
}

#[test]
fn name_from_joins_or_drops_empty_desc() {
    assert_eq!(name_from("abc123", "fix the bug"), "abc123-fix the bug");
    assert_eq!(name_from("abc123", "   "), "abc123");
    assert_eq!(name_from("abc123", ""), "abc123");
}

#[test]
fn sanitize_is_idempotent() {
    for s in ["Hello World!", "  --Foo__Bar--  ", "qlvrqrmx-Fix the login bug", "ÄÖÜ über", ""] {
        let once = sanitize(s);
        assert_eq!(sanitize(&once), once);
    }
}

#[test]
fn sanitize_drops_non_ascii_and_trailing_dash_after_cap() {
    assert_eq!(sanitize("Café Ünïcode"), "caf-n-code");
    assert_eq!(sanitize("!!!"), "");
    // the cap can land right after a dash, which is then trimmed
    let s = sanitize(&format!("{} b", "a".repeat(31)));
    assert_eq!(s, "a".repeat(31));
}

#[test]
fn name_from_keeps_short_id_when_desc_is_whitespace() {
    assert_eq!(name_from("qlvrqrmx", "\t\n"), "qlvrqrmx");
    assert_eq!(sanitize(&name_from("qlvrqrmx", "Fix the login bug")), "qlvrqrmx-fix-the-login-bug");
}

fn lower_alnums(s: &str) -> String {
    s.chars().filter(|c| c.is_ascii_alphanumeric()).map(|c| c.to_ascii_lowercase()).collect()
}

#[test]
fn sanitize_keeps_alnums_in_order_as_a_prefix() {
    for s in ["Hello World!", "Ab-C d", "x.y/Z_9", &"Long Words Here ".repeat(5), "ÄÖÜ über"] {
        let got = lower_alnums(&sanitize(s));
        assert!(lower_alnums(s).starts_with(&got), "{s:?}");
    }
    assert_eq!(lower_alnums(&sanitize("Ab-C d")), "abcd");
}
