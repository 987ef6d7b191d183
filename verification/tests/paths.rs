use hypertide::cli::workspace::{cache_object_path, resolve_workspace_target, session_state_path, state_paths_from};
use hypertide::path::join_path;
use hypertide::storage::StorageManager;

#[test]
fn joining_puts_one_separator_between() {
    assert_eq!(join_path("/srv/data", "objects"), "/srv/data/objects");
    assert_eq!(join_path("/srv/data/", "objects"), "/srv/data/objects");
    assert_eq!(join_path("", "objects"), "objects");
    assert_eq!(join_path("/srv", ""), "/srv/");
}

#[test]
fn joining_an_absolute_segment_replaces_the_base() {
    assert_eq!(join_path("/srv/data", "/etc/x"), "/etc/x");
}

#[test]
fn joining_agrees_with_std_paths() {
    for (base, seg) in [("/a/b", "c"), ("a/", "b"), ("", "x"), ("/a", "/b"), ("rel", "d/e")] {
        let ours = join_path(base, seg);
        let std_join = std::path::Path::new(base).join(seg);
        assert_eq!(ours, std_join.to_string_lossy());
    }
}

#[test]
fn state_lives_under_dot_hypertide() {
    let paths = state_paths_from("/home/u/proj");
    assert_eq!(paths.state_dir, "/home/u/proj/.hypertide");
    assert_eq!(paths.profile_path, "/home/u/proj/.hypertide/profile.json");
    assert_eq!(paths.stage_path, "/home/u/proj/.hypertide/stage.json");
    assert_eq!(paths.workspace_path, "/home/u/proj/.hypertide/workspace.json");
    assert_eq!(paths.cache_dir, "/home/u/proj/.hypertide/cache/objects");
    assert_eq!(cache_object_path(&paths, "abc123"), "/home/u/proj/.hypertide/cache/objects/abc123");
}

#[test]
fn objects_live_under_their_two_byte_prefix() {
    let store = StorageManager::new("./storage");
    assert_eq!(store.storage_root(), "./storage");
    assert_eq!(store.get_path("abcdef").as_deref(), Some("./storage/objects/ab/cdef"));
    assert_eq!(store.get_path("abc").as_deref(), Some("./storage/objects/ab/c"));
    assert!(store.get_path("ab").is_none());
    assert!(store.get_path("").is_none());
}

#[test]
fn restore_target_rejects_paths_outside_workspace() {
    let root = "E:/workspace/game";

    assert!(resolve_workspace_target(root, "../outside.txt").is_err());
    assert!(resolve_workspace_target(root, "C:/outside.txt").is_err());
    assert!(resolve_workspace_target(root, "Assets/a.txt").is_ok());
}

#[test]
fn restore_targets_name_the_cause_of_a_refusal() {
    assert_eq!(
        resolve_workspace_target("/w", "/etc/passwd").unwrap_err(),
        "checkpoint asset path must be relative: /etc/passwd"
    );
    assert_eq!(
        resolve_workspace_target("/w", "a/../../b").unwrap_err(),
        "checkpoint asset path escapes workspace: a/../../b"
    );
    assert_eq!(
        resolve_workspace_target("/w", "a\\..\\b").unwrap_err(),
        "checkpoint asset path escapes workspace: a\\..\\b"
    );
    assert_eq!(resolve_workspace_target("/w", "a/..b/c").unwrap(), "/w/a/..b/c");
    assert_eq!(resolve_workspace_target("/w/", "Assets/a.txt").unwrap(), "/w/Assets/a.txt");
}

#[test]
fn the_session_is_named_in_the_state_directory() {
    let paths = state_paths_from("/p");
    assert_eq!(session_state_path(&paths), "/p/.hypertide/session.json");
}
