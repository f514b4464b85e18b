use std::path::Path;

use forklift::paths::{join_path, parent_path, PathStyle};
use forklift::repo::workspace_above;

fn below(dir: &str, rest: &str) -> String {
    join_path(PathStyle::Windows, dir, rest)
}

fn above(path: &str) -> Option<String> {
    parent_path(PathStyle::Windows, path)
}

#[test]
fn unix_paths_join_and_part_as_on_this_system() {
    if std::path::MAIN_SEPARATOR != '/' {
        return;
    }
    let texts = [
        "", "/", "//", "a", "a/", "/a", "//a", "a/b", "/a/b/", "a//b", "a\\b", "C:\\p", "/w/.jj/repo",
        "/a///b//", "é/ü",
    ];
    for text in texts {
        let parent = Path::new(text).parent().map(|path| path.display().to_string());
        assert_eq!(parent_path(PathStyle::Unix, text), parent, "{text:?}");
        for rest in texts {
            let joined = Path::new(text).join(rest).display().to_string();
            assert_eq!(join_path(PathStyle::Unix, text, rest), joined, "{text:?} {rest:?}");
        }
    }
}

#[test]
fn windows_paths_have_parents() {
    assert_eq!(above(r"C:\p\.jj\repo"), Some(r"C:\p\.jj".to_string()));
    assert_eq!(above(r"C:\p\\.jj\"), Some(r"C:\p".to_string()));
    assert_eq!(above(r"C:/p/q"), Some("C:/p".to_string()));
    assert_eq!(above(r"C:\p"), Some(r"C:\".to_string()));
    assert_eq!(above(r"C:p"), Some("C:".to_string()));
    assert_eq!(above("p"), Some(String::new()));
    assert_eq!(above(r"\\s\d\p"), Some(r"\\s\d\".to_string()));
    assert_eq!(above(r"\\.\dev\p\q"), Some(r"\\.\dev\p".to_string()));
    assert_eq!(above(r"\\?\C:\p\q"), Some(r"\\?\C:\p".to_string()));
    assert_eq!(above(r"\\?\C:\p/q"), Some(r"\\?\C:\".to_string()));
    assert_eq!(above(r"\\?\UNC\s\d\p"), Some(r"\\?\UNC\s\d\".to_string()));
    assert_eq!(above(r"\\?\vol\p"), Some(r"\\?\vol\".to_string()));
}

#[test]
fn roots_and_prefixes_have_no_parent() {
    for path in ["", "C:", r"C:\", r"\", "/", r"\\s\d", r"\\s\d\", r"\\?\C:", r"\\?\C:\"] {
        assert_eq!(above(path), None, "{path:?}");
    }
    assert_eq!(above(r"\\?\UNC\s\d"), None);
}

#[test]
fn windows_paths_join() {
    assert_eq!(below(r"C:\p", ".jj"), r"C:\p\.jj");
    assert_eq!(below(r"C:\", ".jj"), r"C:\.jj");
    assert_eq!(below("C:/p/", ".jj"), "C:/p/.jj");
    assert_eq!(below("C:", "p"), "C:p");
    assert_eq!(below("", "p"), "p");
    assert_eq!(below(r"C:\p", ""), r"C:\p\");
    assert_eq!(below(r"C:\p", r"..\q"), r"C:\p\..\q");
    assert_eq!(below(r"\\s\d", "p"), r"\\s\d\p");
}

#[test]
fn windows_paths_with_a_start_of_their_own_stand_alone() {
    for rest in [r"D:\q", "D:q", r"\\s\d\q", r"\\?\D:\q", "d:/q", r"\\.\dev"] {
        assert_eq!(below(r"C:\p", rest), rest);
        assert_eq!(below(r"\\?\C:\p", rest), rest);
    }
    assert_eq!(below(r"C:\p", r"\q"), r"C:\q");
    assert_eq!(below(r"\\s\d\p", "/q"), r"\\s\d/q");
    assert_eq!(below("p", r"\q"), r"\q");
}

#[test]
fn verbatim_paths_are_kept_plain() {
    assert_eq!(below(r"\\?\C:\p", ".jj"), r"\\?\C:\p\.jj");
    assert_eq!(below(r"\\?\C:\p\.jj", "../../q/.jj/repo"), r"\\?\C:\q\.jj\repo");
    assert_eq!(below(r"\\?\C:\p", r".\a\.\b\..\c"), r"\\?\C:\p\a\c");
    assert_eq!(below(r"\\?\C:\p", r"..\..\.."), r"\\?\C:\");
    assert_eq!(below(r"\\?\C:\p", r"\q"), r"\\?\C:\q");
    assert_eq!(below(r"\\?\C:", "q"), r"\\?\C:\q");
    assert_eq!(below(r"\\?\C:", "."), r"\\?\C:");
    assert_eq!(below(r"\\?\UNC\s\d\p", "q"), r"\\?\UNC\s\d\p\q");
    assert_eq!(below(r"\\?\C:\p", ""), r"\\?\C:\p\");
}

#[test]
fn workspaces_are_found_back() {
    for root in ["/w", "/a/w", "w", "/w/é"] {
        let dir = format!("{root}/.jj/repo");
        assert_eq!(workspace_above(PathStyle::Unix, Ok(dir)).ok(), Some(root.to_string()));
    }
    for root in [r"C:\p", r"C:\a\p", r"\\s\d\p", r"\\?\C:\p", r"\\?\UNC\s\d\p"] {
        let dir = format!("{root}\\.jj\\repo");
        assert_eq!(workspace_above(PathStyle::Windows, Ok(dir)).ok(), Some(root.to_string()));
    }
    assert_eq!(
        workspace_above(PathStyle::Unix, Ok("/.jj/repo".to_string())).ok(),
        Some("/".to_string())
    );
    assert_eq!(
        workspace_above(PathStyle::Windows, Ok(r"C:\.jj\repo".to_string())).ok(),
        Some(r"C:\".to_string())
    );
    assert!(workspace_above(PathStyle::Unix, Ok(r"C:\p\.jj\repo".to_string())).is_err());
    assert!(workspace_above(PathStyle::Windows, Ok(r"C:\repo".to_string())).is_err());
}
