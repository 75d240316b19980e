use wts::backend::Backend;
use wts::layout::{current_workspace_name, in_wts_container, mirror_subpath_from, nonblank_trimmed_lines, resolve_layout};

#[test]
fn mirror_candidate_is_dest_plus_relative_path() {
    assert_eq!(mirror_subpath_from("/r/repo", "/r/repo-wts/x", "/r/repo/a/b"), Some("/r/repo-wts/x/a/b".to_string()));
    assert_eq!(mirror_subpath_from("/r/repo", "/r/repo-wts/x", "/r/repo"), None);
    assert_eq!(mirror_subpath_from("/r/repo", "/r/repo-wts/x", "/r/repository"), None);
}

#[test]
fn layout_from_the_main_repo() {
    assert_eq!(
        resolve_layout("/home/me/dev/sail", "-wts"),
        Ok(("/home/me/dev/sail-wts".to_string(), "/home/me/dev/sail".to_string()))
    );
}

#[test]
fn layout_from_a_workspace_matches_the_main_repo() {
    let main = resolve_layout("/home/me/dev/sail", "-wts");
    assert_eq!(resolve_layout("/home/me/dev/sail-wts/hotfix", "-wts"), main);
    assert_eq!(
        resolve_layout("/r/repo.trees/x", ".trees"),
        Ok(("/r/repo.trees".to_string(), "/r/repo".to_string()))
    );
}

#[test]
fn layout_errors() {
    assert_eq!(resolve_layout("/", "-wts"), Err("repo root has no parent directory".to_string()));
    assert_eq!(resolve_layout("/a/..", "-wts"), Err("cannot determine repo name from root path".to_string()));
}

#[test]
fn current_name_only_inside_a_container() {
    assert!(!in_wts_container("/r/repo", "-wts"));
    assert!(in_wts_container("/r/repo-wts/x", "-wts"));
    assert_eq!(current_workspace_name(Backend::Git, "/r/repo", "-wts", &Ok("x".into())), None);
    assert_eq!(current_workspace_name(Backend::Git, "/r/repo-wts/x", "-wts", &Err(String::new())), Some("x".to_string()));
}

#[test]
fn current_name_jj_prefers_a_single_name_from_jj() {
    let root = "/r/repo-wts/folder";
    assert_eq!(current_workspace_name(Backend::Jj, root, "-wts", &Ok("\n renamed \n\n".into())), Some("renamed".to_string()));
    assert_eq!(current_workspace_name(Backend::Jj, root, "-wts", &Ok("a\nb\n".into())), Some("folder".to_string()));
    assert_eq!(current_workspace_name(Backend::Jj, root, "-wts", &Ok(String::new())), Some("folder".to_string()));
    assert_eq!(current_workspace_name(Backend::Jj, root, "-wts", &Err("x".into())), Some("folder".to_string()));
}

#[test]
fn nonblank_lines_are_trimmed() {
    assert_eq!(nonblank_trimmed_lines(" a \n\n\tb\r\n  "), vec!["a".to_string(), "b".to_string()]);
}

#[test]
fn layout_agrees_for_unsettled_parents_by_components() {
    let (c_main, m_main) = resolve_layout("/x/./sail", "-wts").unwrap();
    assert_eq!(m_main, "/x/./sail");
    assert!(std::path::Path::new(&c_main) == std::path::Path::new("/x/./sail-wts"));
    let (c_ws, m_ws) = resolve_layout("/x/./sail-wts/hot", "-wts").unwrap();
    assert!(std::path::Path::new(&c_ws) == std::path::Path::new("/x/./sail-wts"));
    assert!(std::path::Path::new(&m_ws) == std::path::Path::new("/x/./sail"));
    let (c_t, m_t) = resolve_layout("/x//sail-wts/hot", "-wts").unwrap();
    assert!(std::path::Path::new(&c_t) == std::path::Path::new("/x//sail-wts"));
    assert!(std::path::Path::new(&m_t) == std::path::Path::new("/x/sail"));
}
