use developer::error::ErrorKind;
use developer::paths::{expand_path, is_absolute_path, join_path, resolve_path, PathEnv};
use developer::shell::Shell;
use developer::text::{normalize_line_endings, Platform};

const POSIX: Platform = Platform::Posix;
const WINDOWS: Platform = Platform::Windows;

fn env(home: Option<&str>) -> PathEnv {
    PathEnv {
        home: home.map(|h| h.to_string()),
        user_profile: "C:\\Users\\tester".to_string(),
        app_data: "C:\\Users\\tester\\AppData".to_string(),
    }
}

#[test]
fn test_resolve_path_absolute() {
    let result = resolve_path("/test/file.txt", "/work", POSIX, &env(Some("/home/tester")));
    assert!(result.is_ok());
    let path = result.unwrap();
    assert_eq!(path, "/test/file.txt");
}

#[test]
fn test_resolve_path_relative_error() {
    let result = resolve_path("relative/path.txt", "/work", POSIX, &env(Some("/home/tester")));
    assert!(result.is_err());
    if let Err(e) = result {
        let error_msg = e.message;
        assert!(error_msg.contains("not an absolute path"));
        assert!(error_msg.contains("did you possibly mean"));
    }
}

#[test]
fn test_expand_path() {
    let path = "~/test";
    let expanded = expand_path(path, POSIX, &env(Some("/home/tester")));
    assert!(!expanded.starts_with('~'));
}

#[test]
fn test_is_absolute_path() {
    assert!(is_absolute_path("/absolute/path", POSIX));
    assert!(!is_absolute_path("relative/path", POSIX));
}

#[test]
fn test_normalize_line_endings() {
    let input = "line1\r\nline2\nline3";
    let normalized = normalize_line_endings(input, POSIX);
    assert_eq!(normalized, "line1\nline2\nline3");
}

#[test]
fn test_path_expansion() {
    let shell = Shell::new();
    let path = "~/test";
    let expanded = shell.expand_path(path, &env(Some("/home/tester")));
    assert!(!expanded.starts_with('~'));
}

#[test]
fn test_absolute_path_detection() {
    let shell = Shell::new();
    assert!(shell.is_absolute_path("/absolute/path"));
    assert!(!shell.is_absolute_path("relative/path"));
}

#[test]
fn tilde_expands_to_home_exactly() {
    assert_eq!(expand_path("~/test", POSIX, &env(Some("/home/tester"))), "/home/tester/test");
    assert_eq!(expand_path("~", POSIX, &env(Some("/home/tester"))), "/home/tester");
}

#[test]
fn tilde_left_alone_without_home_or_for_other_users() {
    assert_eq!(expand_path("~/test", POSIX, &env(None)), "~/test");
    assert_eq!(expand_path("~bob/test", POSIX, &env(Some("/home/tester"))), "~bob/test");
    assert_eq!(expand_path("/a/~/b", POSIX, &env(Some("/home/tester"))), "/a/~/b");
}

#[test]
fn relative_path_message_names_input_and_suggestion() {
    let e = resolve_path("relative/path.txt", "/work", POSIX, &env(None)).unwrap_err();
    assert_eq!(e.kind, ErrorKind::InvalidPath);
    assert_eq!(
        e.message,
        "The path relative/path.txt is not an absolute path, did you possibly mean /work/relative/path.txt?"
    );
}

#[test]
fn relative_path_after_expansion_is_still_checked() {
    let e = resolve_path("~/notes.txt", "/work", POSIX, &env(Some("home"))).unwrap_err();
    assert_eq!(e.kind, ErrorKind::InvalidPath);
    assert!(e.message.contains("~/notes.txt"));
    assert!(e.message.contains("/work/home/notes.txt"));
    assert_eq!(resolve_path("~/notes.txt", "/work", POSIX, &env(Some("/home/u"))).unwrap(), "/home/u/notes.txt");
}

#[test]
fn empty_path_is_relative() {
    let e = resolve_path("", "/work", POSIX, &env(None)).unwrap_err();
    assert_eq!(e.kind, ErrorKind::InvalidPath);
    assert!(e.message.contains("/work/"));
}

#[test]
fn join_puts_one_separator() {
    assert_eq!(join_path("/work", "a.txt", POSIX), "/work/a.txt");
    assert_eq!(join_path("/work/", "a.txt", POSIX), "/work/a.txt");
    assert_eq!(join_path("", "a.txt", POSIX), "a.txt");
}

#[test]
fn windows_absolute_paths() {
    assert!(is_absolute_path("C:\\test", WINDOWS));
    assert!(is_absolute_path("\\\\server\\share", WINDOWS));
    assert!(!is_absolute_path("relative\\path", WINDOWS));
    assert!(!is_absolute_path("/absolute/path", WINDOWS));
    assert!(!is_absolute_path("C:\\test", POSIX));
}

#[test]
fn windows_variables_expand() {
    let expanded = expand_path("%USERPROFILE%\\test", WINDOWS, &env(None));
    assert!(!expanded.contains("%USERPROFILE%"));
    assert_eq!(expanded, "C:\\Users\\tester\\test");
    assert_eq!(expand_path("%APPDATA%\\x", WINDOWS, &env(None)), "C:\\Users\\tester\\AppData\\x");
    let unset = PathEnv { home: None, user_profile: String::new(), app_data: String::new() };
    assert_eq!(expand_path("%USERPROFILE%\\a", WINDOWS, &unset), "\\a");
    assert_eq!(expand_path("~/a", WINDOWS, &env(Some("/h"))), "~/a");
}

#[test]
fn windows_relative_path_suggestion() {
    let e = resolve_path("dir\\f.txt", "C:\\work", WINDOWS, &env(None)).unwrap_err();
    assert_eq!(e.kind, ErrorKind::InvalidPath);
    assert!(e.message.contains("C:\\work\\dir\\f.txt"));
    assert_eq!(resolve_path("%USERPROFILE%\\f", "C:\\work", WINDOWS, &env(None)).unwrap(), "C:\\Users\\tester\\f");
}

#[test]
fn tilde_backslash_is_not_expanded_on_posix() {
    assert_eq!(expand_path("~\\x", POSIX, &env(Some("/h"))), "~\\x");
}
