use wts::backend::Backend;
use wts::workspaces::{known_workspaces, linked_worktree_names, resolve_rm_target, rm_paths, RmProbe};

#[test]
fn linked_worktree_names_skips_main() {
    let porcelain = "\
worktree /home/me/repo
HEAD aaaa
branch refs/heads/main

worktree /home/me/repo-wts/feature-a
HEAD bbbb
branch refs/heads/feature-a

worktree /home/me/repo-wts/detached-one
HEAD cccc
detached
";
    assert_eq!(
        linked_worktree_names(porcelain),
        vec!["feature-a".to_string(), "detached-one".to_string()]
    );
}

#[test]
fn linked_worktree_names_empty_when_only_main() {
    let porcelain = "worktree /home/me/repo\nHEAD aaaa\nbranch refs/heads/main\n";
    assert!(linked_worktree_names(porcelain).is_empty());
}

#[test]
fn known_workspaces_jj_takes_the_name_before_the_colon() {
    let listing = Ok("default: qpvuntsm 230dd059 (empty) (no description set)\nhotfix: abc 123 fix\n".to_string());
    assert_eq!(known_workspaces(Backend::Jj, &listing), vec!["default".to_string(), "hotfix".to_string()]);
}

#[test]
fn known_workspaces_failed_listing_is_empty() {
    assert!(known_workspaces(Backend::Jj, &Err("boom".to_string())).is_empty());
    assert!(known_workspaces(Backend::Git, &Err("boom".to_string())).is_empty());
}

#[test]
fn known_workspaces_git_excludes_main() {
    let listing = Ok("worktree /r/repo\nHEAD a\n\nworktree /r/repo-wts/x\nHEAD b\n".to_string());
    assert_eq!(known_workspaces(Backend::Git, &listing), vec!["x".to_string()]);
}

fn no_probe() -> RmProbe {
    RmProbe { name_dir_exists: false, canonical: None, container_canonical: None }
}

#[test]
fn rm_target_by_known_name() {
    let known = vec!["feat".to_string()];
    let t = resolve_rm_target("/r/repo-wts", &known, &None, "feat", &no_probe());
    assert_eq!(t, Some(("feat".to_string(), "/r/repo-wts/feat".to_string())));
}

#[test]
fn rm_target_by_folder_on_disk() {
    let probe = RmProbe { name_dir_exists: true, canonical: None, container_canonical: None };
    let t = resolve_rm_target("/r/repo-wts", &vec![], &None, "stray", &probe);
    assert_eq!(t, Some(("stray".to_string(), "/r/repo-wts/stray".to_string())));
}

#[test]
fn rm_target_unknown_name_is_none() {
    let cwd = Some("/r/repo".to_string());
    assert_eq!(resolve_rm_target("/r/repo-wts", &vec![], &cwd, "nope", &no_probe()), None);
}

#[test]
fn rm_target_dot_resolves_through_the_canonical_path() {
    let cwd = Some("/r/repo-wts/feat".to_string());
    let probe = RmProbe {
        name_dir_exists: true,
        canonical: Some("/r/repo-wts/feat".to_string()),
        container_canonical: Some("/r/repo-wts".to_string()),
    };
    // `.` is never a plain name, even when `<container>/.` exists
    let t = resolve_rm_target("/r/repo-wts", &vec![], &cwd, ".", &probe);
    assert_eq!(t, Some(("feat".to_string(), "/r/repo-wts/feat".to_string())));
}

#[test]
fn rm_target_dotdot_onto_the_container_is_refused() {
    let cwd = Some("/r/repo-wts/feat".to_string());
    let probe = RmProbe {
        name_dir_exists: true,
        canonical: Some("/r/repo-wts".to_string()),
        container_canonical: Some("/r/repo-wts".to_string()),
    };
    assert_eq!(resolve_rm_target("/r/repo-wts", &vec![], &cwd, "..", &probe), None);
}

#[test]
fn rm_target_relative_path_without_cwd_is_none() {
    let probe = RmProbe {
        name_dir_exists: false,
        canonical: Some("/r/repo-wts/feat".to_string()),
        container_canonical: Some("/r/repo-wts".to_string()),
    };
    assert_eq!(resolve_rm_target("/r/repo-wts", &vec![], &None, "../feat", &probe), None);
}

#[test]
fn rm_paths_join_name_and_cwd() {
    let p = rm_paths("/r/repo-wts", &Some("/r/repo/src".to_string()), "x");
    assert_eq!(p.name_dir, "/r/repo-wts/x");
    assert_eq!(p.as_path, Some("/r/repo/src/x".to_string()));
    let q = rm_paths("/r/repo-wts", &None, "/abs/y");
    assert_eq!(q.as_path, Some("/abs/y".to_string()));
    assert_eq!(rm_paths("/r/repo-wts", &None, "rel").as_path, None);
}
