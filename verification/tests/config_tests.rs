use dock::config::{dir, join_path};

#[test]
fn xdg_config_home_wins() {
    assert_eq!(
        dir(Some("/home/u/.cfg".to_string()), Some("/home/u".to_string())).as_deref(),
        Some("/home/u/.cfg/dock")
    );
}

#[test]
fn home_is_used_without_xdg_config_home() {
    assert_eq!(dir(None, Some("/home/u".to_string())).as_deref(), Some("/home/u/.config/dock"));
}

#[test]
fn no_directory_without_either_variable() {
    assert_eq!(dir(None, None), None);
}

#[test]
fn join_follows_unix_path_rules() {
    assert_eq!(join_path("/a", "b"), "/a/b");
    assert_eq!(join_path("/a/", "b"), "/a/b");
    assert_eq!(join_path("", "b"), "b");
    assert_eq!(join_path("/a", "/etc"), "/etc");
    assert_eq!(join_path("/a", ""), "/a/");
    for (base, rel) in [("/a", "b"), ("/a/", "b"), ("", "b"), ("/a", "/etc"), ("x", "y/z")] {
        let expected = std::path::PathBuf::from(base).join(rel);
        assert_eq!(std::path::PathBuf::from(join_path(base, rel)), expected);
    }
}
