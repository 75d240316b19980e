use wts::action::{expand_tilde, resolve_action, Action};
use wts::backend::{
    capture, container_suffix, detect_backend, git_capture, git_config_bool, git_config_str, jj_capture,
    Backend, Detection, RunResult,
};

fn exited(success: bool, stdout: &[u8], stderr: &[u8]) -> RunResult {
    RunResult::Exited { success, stdout: stdout.to_vec(), stderr: stderr.to_vec() }
}

#[test]
fn capture_trims_stdout_on_success() {
    let r = capture("git", &exited(true, b"  /home/me/repo\n", b"warn"));
    assert_eq!(r, Ok("/home/me/repo".to_string()));
}

#[test]
fn capture_trims_stderr_on_failure() {
    let r = jj_capture(&exited(false, b"out", b"Error: no such key\n"));
    assert_eq!(r, Err("Error: no such key".to_string()));
}

#[test]
fn capture_reports_a_spawn_failure() {
    let r = git_capture(&RunResult::SpawnFailed("No such file or directory (os error 2)".to_string()));
    assert_eq!(r, Err("failed to run git: No such file or directory (os error 2)".to_string()));
}

#[test]
fn capture_decodes_invalid_utf8_lossily() {
    let r = capture("git", &exited(true, b"a\xffb", b""));
    assert_eq!(r, Ok("a\u{fffd}b".to_string()));
    let s = capture("git", &exited(true, "naïve".as_bytes(), b""));
    assert_eq!(s, Ok("naïve".to_string()));
}

#[test]
fn config_str_falls_back_when_unset_or_blank() {
    assert_eq!(git_config_str(&Ok("  main \n".to_string()), "HEAD"), "main");
    assert_eq!(git_config_str(&Ok("   ".to_string()), "HEAD"), "HEAD");
    assert_eq!(git_config_str(&Err(String::new()), "HEAD"), "HEAD");
}

#[test]
fn config_bool_reads_normalized_true() {
    assert!(git_config_bool(&Ok("true".to_string()), false));
    assert!(!git_config_bool(&Ok("false".to_string()), true));
    assert!(!git_config_bool(&Ok("yes".to_string()), true));
    assert!(git_config_bool(&Err("unset".to_string()), true));
    assert!(!git_config_bool(&Err("unset".to_string()), false));
}

#[test]
fn container_suffix_per_backend() {
    assert_eq!(container_suffix(Backend::Jj, &Ok(".trees".to_string())), "-wts");
    assert_eq!(container_suffix(Backend::Git, &Ok(".trees".to_string())), ".trees");
    assert_eq!(container_suffix(Backend::Git, &Err(String::new())), "-wts");
}

#[test]
fn resolve_action_configured_cd_and_script() {
    let home = Some("/home/me".to_string());
    assert!(matches!(resolve_action("default", &Ok("cd".to_string()), &home), Some(Action::Cd)));
    match resolve_action("default", &Ok(" ~/bin/open.fish \n".to_string()), &home) {
        Some(Action::Script(s)) => assert_eq!(s, "/home/me/bin/open.fish"),
        _ => panic!("expected a script"),
    }
    match resolve_action("x", &Ok("./.wts-action".to_string()), &home) {
        Some(Action::Script(s)) => assert_eq!(s, "./.wts-action"),
        _ => panic!("expected a script"),
    }
}

#[test]
fn resolve_action_builtin_cd_and_unknown() {
    assert!(matches!(resolve_action("cd", &Err(String::new()), &None), Some(Action::Cd)));
    assert!(matches!(resolve_action("cd", &Ok("  ".to_string()), &None), Some(Action::Cd)));
    assert!(resolve_action("default", &Err(String::new()), &None).is_none());
    assert!(resolve_action("nope", &Ok(String::new()), &None).is_none());
}

#[test]
fn expand_tilde_needs_home() {
    let home = Some("/h".to_string());
    assert_eq!(expand_tilde("~/x", &home), "/h/x");
    assert_eq!(expand_tilde("~/x", &None), "~/x");
    assert_eq!(expand_tilde("~x", &home), "~x");
    assert_eq!(expand_tilde("/abs", &home), "/abs");
}

#[test]
fn detect_backend_prefers_jj_with_marker() {
    match detect_backend(&Ok("/r/repo".to_string()), true, &None) {
        Detection::Found(Backend::Jj, r) => assert_eq!(r, "/r/repo"),
        d => panic!("unexpected {d:?}"),
    }
}

#[test]
fn detect_backend_falls_back_to_git() {
    assert!(matches!(detect_backend(&Ok("/r/repo".to_string()), false, &None), Detection::AskGit));
    assert!(matches!(detect_backend(&Err("no jj".to_string()), false, &None), Detection::AskGit));
    match detect_backend(&Err("no jj".to_string()), false, &Some(Ok("/r/g".to_string()))) {
        Detection::Found(Backend::Git, r) => assert_eq!(r, "/r/g"),
        d => panic!("unexpected {d:?}"),
    }
    assert!(matches!(
        detect_backend(&Err("no jj".to_string()), false, &Some(Err("not a repo".to_string()))),
        Detection::NotARepo
    ));
}
