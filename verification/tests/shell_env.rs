//! Tests for the search path.

use tessera_core::shell_env::{merged_path, read_path};

#[test]
fn the_path_stands_behind_the_last_marker() {
    assert_eq!(read_path("hello\n__TESSERA_PATH__/a:/b\n").as_deref(), Some("/a:/b"));
    assert_eq!(read_path("__TESSERA_PATH__/a__TESSERA_PATH__/b").as_deref(), Some("/b"));
    assert_eq!(read_path("/plain").as_deref(), Some("/plain"));
    assert_eq!(read_path("noise __TESSERA_PATH__  "), None);
    assert_eq!(read_path(""), None);
}

#[test]
fn paths_are_merged_without_repeats() {
    let shell = Some("/a::/b".to_string());
    assert_eq!(
        merged_path(&shell, "/b:/c:/usr/local/bin", "/home/me"),
        "/a:/b:/c:/usr/local/bin:/opt/homebrew/bin:/snap/bin:/home/me/.local/bin:/home/me/google-cloud-sdk/bin"
    );
    assert_eq!(
        merged_path(&None, "", ""),
        "/opt/homebrew/bin:/usr/local/bin:/snap/bin:/.local/bin:/google-cloud-sdk/bin"
    );
}
