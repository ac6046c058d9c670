use thane::dirs::{join_path, LinuxDirs, MacosDirs, PlatformDirs, APP_NAME};

#[test]
fn dirs_test_dirs_contain_app_name() {
    let dirs = LinuxDirs;
    assert!(dirs.config_dir().contains(APP_NAME));
    assert!(dirs.data_dir().contains(APP_NAME));
    assert!(dirs.cache_dir().contains(APP_NAME));
    assert!(dirs.sessions_dir().contains(APP_NAME));
}

#[test]
fn dirs_test_socket_path() {
    let dirs = LinuxDirs;
    let socket = dirs.socket_path();
    assert!(socket.ends_with("thane.sock"));
}

#[test]
fn dirs_test_setup_sentinel_path() {
    let dirs = LinuxDirs;
    let sentinel = dirs.setup_sentinel();
    assert!(sentinel.ends_with(".setup-complete"));
    assert!(sentinel.contains(APP_NAME));
}

#[test]
fn macos_dirs_test_dirs_contain_app_name() {
    let dirs = MacosDirs;
    assert!(dirs.config_dir().contains(APP_NAME));
    assert!(dirs.data_dir().contains(APP_NAME));
    assert!(dirs.cache_dir().contains(APP_NAME));
    assert!(dirs.sessions_dir().contains(APP_NAME));
}

#[test]
fn macos_dirs_test_socket_path() {
    let dirs = MacosDirs;
    let socket = dirs.socket_path();
    assert!(socket.ends_with("thane.sock"));
}

#[test]
fn test_runtime_dir_under_data() {
    let dirs = MacosDirs;
    let runtime = dirs.runtime_dir();
    let data = dirs.data_dir();
    assert!(runtime.starts_with(&data));
}

#[test]
fn macos_dirs_test_setup_sentinel_path() {
    let dirs = MacosDirs;
    let sentinel = dirs.setup_sentinel();
    assert!(sentinel.ends_with(".setup-complete"));
    assert!(sentinel.contains(APP_NAME));
}

#[test]
fn linux_dirs_with_and_without_base() {
    assert_eq!(LinuxDirs::data_dir_from(Some("/home/u/.local/share".to_string())), "/home/u/.local/share/thane");
    assert_eq!(LinuxDirs::data_dir_from(None), "~/.local/share/thane");
    assert_eq!(LinuxDirs::runtime_dir_from(Some("/run/user/1000".to_string()), 1000), "/run/user/1000/thane");
    assert_eq!(LinuxDirs::runtime_dir_from(None, 1000), "/tmp/thane-1000/thane");
}

#[test]
fn join_path_follows_pathbuf_push() {
    assert_eq!(join_path("/a", "b"), "/a/b");
    assert_eq!(join_path("/a/", "b"), "/a/b");
    assert_eq!(join_path("", "b"), "b");
    assert_eq!(join_path("/a", "/b"), "/b");
    let expected = std::path::Path::new("/x/y").join("z");
    assert_eq!(join_path("/x/y", "z"), expected.to_string_lossy());
}
