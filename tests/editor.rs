use std::collections::HashMap;
use std::sync::Arc;

use developer::error::{ErrorKind, ToolError};
use developer::history::history_limit_from;
use developer::lang::get_language_identifier;
use developer::text::Platform;
use developer::text_editor::{parse_editor_command, view_file, EditorCommand, PathKind, TextEditor};
use ignore::gitignore::GitignoreBuilder;

/// Files held in memory, standing for the disk the caller would use.
#[derive(Default)]
struct Disk {
    files: HashMap<String, String>,
    dirs: Vec<String>,
}

impl Disk {
    fn kind(&self, p: &str) -> PathKind {
        if self.dirs.iter().any(|d| d == p) {
            PathKind::Directory
        } else if self.files.contains_key(p) {
            PathKind::File
        } else {
            PathKind::Missing
        }
    }

    fn text(&self, p: &str) -> String {
        self.files.get(p).cloned().unwrap_or_default()
    }

    fn view(&self, ed: &TextEditor, p: &str) -> Result<String, ToolError> {
        let t = self.text(p);
        ed.view(p, self.kind(p), t.len() as u64, &t)
    }

    fn write(&mut self, ed: &mut TextEditor, p: &str, text: &str) -> Result<(), ToolError> {
        let cur = self.text(p);
        let o = ed.write(p, text, self.kind(p), &cur)?;
        self.files.insert(p.to_string(), o.content);
        Ok(())
    }

    fn replace(&mut self, ed: &mut TextEditor, p: &str, old: &str, new: &str) -> Result<String, ToolError> {
        let cur = self.text(p);
        let o = ed.str_replace(p, old, new, self.kind(p), &cur)?;
        self.files.insert(p.to_string(), o.content);
        Ok(o.message)
    }

    fn undo(&mut self, ed: &mut TextEditor, p: &str) -> Result<(), ToolError> {
        let t = ed.undo_edit(p)?;
        self.files.insert(p.to_string(), t);
        Ok(())
    }
}

const FILE: &str = "/tmp/work/test.txt";

#[test]
fn test_text_editor_write_and_view_file() {
    let mut disk = Disk::default();
    let mut editor = TextEditor::new();
    let result = disk.write(&mut editor, FILE, "Hello, world!");
    assert!(result.is_ok());
    let view_result = disk.view(&editor, FILE);
    assert!(view_result.is_ok());
    let text = view_result.unwrap();
    assert!(!text.is_empty());
    assert!(text.contains("Hello, world!"));
}

#[test]
fn test_text_editor_str_replace() {
    let mut disk = Disk::default();
    let mut editor = TextEditor::new();
    disk.write(&mut editor, FILE, "Hello, world!").unwrap();
    let replace_result = disk.replace(&mut editor, FILE, "world", "Rust");
    assert!(replace_result.is_ok());
    let text = disk.view(&editor, FILE).unwrap();
    assert!(text.contains("Hello, Rust!"));
}

#[test]
fn test_text_editor_undo_edit() {
    let mut disk = Disk::default();
    let mut editor = TextEditor::new();
    disk.write(&mut editor, FILE, "First line").unwrap();
    disk.replace(&mut editor, FILE, "First line", "Second line").unwrap();
    let undo_result = disk.undo(&mut editor, FILE);
    assert!(undo_result.is_ok());
    let text = disk.view(&editor, FILE).unwrap();
    assert!(text.contains("First line"));
}

#[test]
fn test_text_editor_size_limits() {
    let large = "x".repeat(500 * 1024);
    let editor = TextEditor::new();
    let result = editor.view("/tmp/work/large.txt", PathKind::File, large.len() as u64, &large);
    assert!(result.is_err());
    if let Err(e) = result {
        assert!(e.message.contains("too large"));
        assert_eq!(e.kind, ErrorKind::TooLarge);
        assert_eq!(
            e.message,
            "File '/tmp/work/large.txt' is too large (500.00KB). Maximum size is 400KB to prevent memory issues."
        );
    }
}

#[test]
fn test_text_editor_nonexistent_file() {
    let editor = TextEditor::new();
    let result = editor.view("/nonexistent/file.txt", PathKind::Missing, 0, "");
    assert!(result.is_err());
    if let Err(e) = result {
        assert!(e.message.contains("does not exist"));
        assert_eq!(e.kind, ErrorKind::NotFound);
    }
}

#[test]
fn test_text_editor_with_ignore_patterns() {
    let mut builder = GitignoreBuilder::new("/tmp/work");
    builder.add_line(None, "secret.txt").unwrap();
    builder.add_line(None, "*.env").unwrap();
    let ignore_patterns = Arc::new(builder.build().unwrap());
    let mut editor = TextEditor::new().with_ignore_patterns(ignore_patterns);
    let mut disk = Disk::default();
    let secret = "/tmp/work/secret.txt";
    let env = "/tmp/work/test.env";
    let normal = "/tmp/work/normal.txt";

    let result = disk.write(&mut editor, secret, "secret content");
    assert!(result.is_err(), "Should not be able to write to ignored file");
    if let Err(e) = result {
        assert!(e.message.contains("restricted by ignore patterns"));
        assert_eq!(e.kind, ErrorKind::PermissionDenied);
    }
    let result = disk.write(&mut editor, env, "env content");
    assert!(result.is_err(), "Should not be able to write to ignored file");
    let result = disk.write(&mut editor, normal, "normal content");
    assert!(result.is_ok(), "Should be able to write to normal file");

    disk.files.insert(secret.to_string(), "secret content".to_string());
    let result = disk.view(&editor, secret);
    assert!(result.is_err(), "Should not be able to view ignored file");
    let result = disk.view(&editor, normal);
    assert!(result.is_ok(), "Should be able to view normal file");
}

#[test]
fn test_write_undo_functionality() {
    let mut disk = Disk::default();
    let mut editor = TextEditor::new();
    disk.write(&mut editor, FILE, "Initial content").unwrap();
    disk.write(&mut editor, FILE, "New content").unwrap();
    assert!(disk.view(&editor, FILE).unwrap().contains("New content"));
    let undo_result = disk.undo(&mut editor, FILE);
    assert!(undo_result.is_ok());
    assert!(disk.view(&editor, FILE).unwrap().contains("Initial content"));
}

#[test]
fn test_write_to_directory_error() {
    let mut disk = Disk::default();
    disk.dirs.push("/tmp/work/test_dir".to_string());
    let mut editor = TextEditor::new();
    let result = disk.write(&mut editor, "/tmp/work/test_dir", "content");
    assert!(result.is_err());
    if let Err(e) = result {
        assert!(e.message.contains("is an existing directory"));
        assert_eq!(e.kind, ErrorKind::InvalidTarget);
    }
}

#[test]
fn test_write_character_limit() {
    let mut disk = Disk::default();
    let mut editor = TextEditor::new();
    let large_content = "x".repeat(400_000 + 1);
    let result = disk.write(&mut editor, FILE, &large_content);
    assert!(result.is_err());
    if let Err(e) = result {
        assert!(e.message.contains("too many characters"));
        assert_eq!(e.kind, ErrorKind::TooLarge);
    }
    assert!(editor.undo_edit(FILE).is_err());
}

#[test]
fn test_history_limit() {
    let mut disk = Disk::default();
    let mut editor = TextEditor::new_with_history_limit(2);
    disk.write(&mut editor, FILE, "Content 1").unwrap();
    for i in 2..=5 {
        disk.replace(&mut editor, FILE, &format!("Content {}", i - 1), &format!("Content {}", i))
            .unwrap();
    }
    for _ in 0..2 {
        let undo_result = disk.undo(&mut editor, FILE);
        assert!(undo_result.is_ok());
    }
    let undo_result = disk.undo(&mut editor, FILE);
    assert!(undo_result.is_err());
    if let Err(e) = undo_result {
        assert!(e.message.contains("No edit history available"));
        assert_eq!(e.kind, ErrorKind::NoHistory);
    }
    assert_eq!(disk.text(FILE), "Content 3");
}

#[test]
fn test_undo_write_to_new_file() {
    let mut disk = Disk::default();
    let mut editor = TextEditor::new();
    let p = "/tmp/work/new_file.txt";
    disk.write(&mut editor, p, "New file content").unwrap();
    assert_eq!(disk.text(p), "New file content");
    let undo_result = disk.undo(&mut editor, p);
    assert!(undo_result.is_ok());
    assert!(disk.text(p).is_empty());
    assert_eq!(disk.kind(p), PathKind::File);
}

#[test]
fn undo_after_several_writes_reverts_one_step() {
    let mut disk = Disk::default();
    let mut editor = TextEditor::new();
    for t in ["a", "b", "c"] {
        disk.write(&mut editor, FILE, t).unwrap();
    }
    disk.undo(&mut editor, FILE).unwrap();
    assert_eq!(disk.text(FILE), "b");
    disk.undo(&mut editor, FILE).unwrap();
    assert_eq!(disk.text(FILE), "a");
    disk.undo(&mut editor, FILE).unwrap();
    assert_eq!(disk.text(FILE), "");
}

#[test]
fn history_depth_zero_keeps_everything() {
    let mut disk = Disk::default();
    let mut editor = TextEditor::new_with_history_limit(0);
    for i in 0..15 {
        disk.write(&mut editor, FILE, &format!("v{}", i)).unwrap();
    }
    for _ in 0..15 {
        assert!(disk.undo(&mut editor, FILE).is_ok());
    }
    assert!(disk.undo(&mut editor, FILE).is_err());
}

#[test]
fn history_keeps_newest_snapshots() {
    let mut disk = Disk::default();
    let mut editor = TextEditor::new_with_history_limit(3);
    for i in 0..6 {
        disk.write(&mut editor, FILE, &format!("v{}", i)).unwrap();
    }
    for want in ["v4", "v3", "v2"] {
        disk.undo(&mut editor, FILE).unwrap();
        assert_eq!(disk.text(FILE), want);
    }
    assert!(disk.undo(&mut editor, FILE).is_err());
}

#[test]
fn histories_are_per_path() {
    let mut disk = Disk::default();
    let mut editor = TextEditor::new();
    disk.write(&mut editor, "/a.txt", "a1").unwrap();
    disk.write(&mut editor, "/b.txt", "b1").unwrap();
    disk.write(&mut editor, "/a.txt", "a2").unwrap();
    disk.undo(&mut editor, "/b.txt").unwrap();
    assert_eq!(disk.text("/a.txt"), "a2");
    assert_eq!(disk.text("/b.txt"), "");
}

#[test]
fn replace_needs_exactly_one_match() {
    let mut disk = Disk::default();
    let mut editor = TextEditor::new();
    disk.write(&mut editor, FILE, "one two one").unwrap();
    let e = disk.replace(&mut editor, FILE, "one", "1").unwrap_err();
    assert_eq!(e.kind, ErrorKind::AmbiguousMatch);
    let e = disk.replace(&mut editor, FILE, "three", "3").unwrap_err();
    assert_eq!(e.kind, ErrorKind::NoMatch);
    assert!(e.message.contains("does not appear"));
    disk.replace(&mut editor, FILE, "two", "2").unwrap();
    assert_eq!(disk.text(FILE), "one 2 one");
}

#[test]
fn replace_on_missing_file_is_not_found() {
    let mut editor = TextEditor::new();
    let e = editor.str_replace(FILE, "a", "b", PathKind::Missing, "").unwrap_err();
    assert_eq!(e.kind, ErrorKind::NotFound);
    assert!(e.message.contains("`write`"));
    assert!(editor.undo_edit(FILE).is_err());
}

#[test]
fn replace_preview_shows_context_window() {
    let mut disk = Disk::default();
    let mut editor = TextEditor::new();
    let text: String = (1..=20).map(|i| format!("line {}\n", i)).collect();
    disk.write(&mut editor, "/src/lib.rs", &text).unwrap();
    let msg = disk.replace(&mut editor, "/src/lib.rs", "line 10\n", "ten\nTEN\n").unwrap();
    let want_section = "line 6\nline 7\nline 8\nline 9\nten\nTEN\nline 11\nline 12\nline 13\nline 14\nline 15";
    assert_eq!(
        msg,
        format!(
            "The file /src/lib.rs has been edited, and the section now reads:\n```rust\n{}\n```\nReview the changes above for errors. Undo and edit the file again if necessary!",
            want_section
        )
    );
}

#[test]
fn replace_normalizes_line_endings() {
    let mut editor = TextEditor::new();
    let o = editor.str_replace(FILE, "b", "B", PathKind::File, "a\r\nb\r\n").unwrap();
    assert_eq!(o.content, "a\nB\n");
    assert_eq!(editor.undo_edit(FILE).unwrap(), "a\r\nb\r\n");
}

#[test]
fn write_reports_requested_text() {
    let mut editor = TextEditor::new();
    let o = editor.write("/x/main.py", "print(1)\r\n", PathKind::Missing, "").unwrap();
    assert_eq!(o.content, "print(1)\n");
    assert_eq!(o.message, "Successfully wrote to /x/main.py");
    assert_eq!(o.preview, "### /x/main.py\n```python\nprint(1)\r\n\n```");
}

#[test]
fn view_counts_characters_not_bytes() {
    let text = "é".repeat(150_000);
    assert!(view_file("/a.txt", PathKind::File, text.len() as u64, &text).is_ok());
    let text = "x".repeat(400_001);
    let e = view_file("/a.txt", PathKind::File, 400_001, &text).unwrap_err();
    assert_eq!(e.kind, ErrorKind::TooLarge);
    assert!(e.message.contains("too many characters (400001)"));
}

#[test]
fn view_tags_language() {
    let t = view_file("/a/b.rs", PathKind::File, 2, "fn").unwrap();
    assert_eq!(t, "### /a/b.rs\n```rust\nfn\n```");
    assert!(view_file("/a/dir", PathKind::Directory, 0, "").is_err());
}

#[test]
fn languages_from_extensions() {
    assert_eq!(get_language_identifier("/a/b.rs"), "rust");
    assert_eq!(get_language_identifier("/a/b.tar.json"), "json");
    assert_eq!(get_language_identifier("/a/.bashrc"), "");
    assert_eq!(get_language_identifier("/a.d/b"), "");
    assert_eq!(get_language_identifier("/a/b.unknown"), "");
}

#[test]
fn editor_commands() {
    assert!(matches!(parse_editor_command("view", None, None, None), Ok(EditorCommand::View)));
    assert!(matches!(parse_editor_command("undo_edit", None, None, None), Ok(EditorCommand::UndoEdit)));
    match parse_editor_command("write", Some("t".to_string()), None, None) {
        Ok(EditorCommand::Write { file_text }) => assert_eq!(file_text, "t"),
        other => panic!("{:?}", other),
    }
    let e = parse_editor_command("write", None, None, None).unwrap_err();
    assert_eq!(e.kind, ErrorKind::InvalidCommand);
    let e = parse_editor_command("str_replace", Some("x".to_string()), None, Some("n".to_string())).unwrap_err();
    assert_eq!(e.message, "old_str is required for str_replace command");
    let e = parse_editor_command("delete", None, None, None).unwrap_err();
    assert_eq!(e.kind, ErrorKind::InvalidCommand);
    assert!(e.message.contains("Unknown command"));
}

#[test]
fn replace_in_directory_is_invalid_target() {
    let mut editor = TextEditor::new();
    let e = editor.str_replace("/tmp/work", "a", "b", PathKind::Directory, "").unwrap_err();
    assert_eq!(e.kind, ErrorKind::InvalidTarget);
    assert!(e.message.contains("is an existing directory"));
}

#[test]
fn windows_editor_writes_crlf() {
    let mut editor = TextEditor::new().with_platform(Platform::Windows);
    let o = editor.write("C:\\x\\a.txt", "a\nb\r\n", PathKind::Missing, "").unwrap();
    assert_eq!(o.content, "a\r\nb\r\n");
}

#[test]
fn history_depth_setting_parses_like_std() {
    assert_eq!(history_limit_from(None), 10);
    for v in ["3", "+7", "0", "", "+", "-1", "x1", "007", " 4", "18446744073709551615", "18446744073709551616", "99999999999999999999999"] {
        let want = v.parse::<usize>().unwrap_or(10);
        assert_eq!(history_limit_from(Some(v)), want, "setting {:?}", v);
    }
}
