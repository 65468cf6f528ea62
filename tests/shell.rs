use std::sync::Arc;

use developer::error::ErrorKind;
use developer::sandbox::{command_path_candidates, first_denied, SandboxFilter};
use developer::shell::Shell;
use developer::text::Platform;
use ignore::gitignore::GitignoreBuilder;

fn rules(root: &str, lines: &[&str]) -> Arc<ignore::gitignore::Gitignore> {
    let mut builder = GitignoreBuilder::new(root);
    for l in lines {
        builder.add_line(None, l).unwrap();
    }
    Arc::new(builder.build().unwrap())
}

#[test]
fn test_shell_config_creation() {
    let shell = Shell::new();
    let config = shell.get_shell_config();
    assert_eq!(config.executable, "bash");
    assert_eq!(config.arg, "-c");
}

#[test]
fn test_line_ending_normalization() {
    let shell = Shell::new();
    let input = "line1\r\nline2\nline3";
    let normalized = shell.normalize_line_endings(input);
    assert_eq!(normalized, "line1\nline2\nline3");
}

#[test]
fn test_shell_basic_execution() {
    let shell = Shell::new();
    let line = shell.prepare("echo hello");
    assert!(line.is_ok());
    assert_eq!(line.unwrap(), "echo hello 2>&1");
    let report = shell.finish("echo hello", "hello\n", "", true, Some(0)).unwrap();
    assert_eq!(report, "hello\n\nCommand completed successfully");
}

#[test]
fn test_shell_with_ignore_patterns() {
    let shell = Shell::new().with_ignore_patterns(rules("/", &["tmp"]));
    let result = shell.prepare("cat /tmp");
    assert!(result.is_err(), "Should not be able to cat ignored file");
    let e = result.unwrap_err();
    assert_eq!(e.kind, ErrorKind::PermissionDenied);
    assert_eq!(e.message, "The command attempts to access '/tmp' which is restricted by ignore patterns");
}

#[test]
fn flags_and_missing_paths_are_not_judged() {
    let shell = Shell::new().with_ignore_patterns(rules("/", &["tmp", "*.secret-missing"]));
    assert!(shell.prepare("ls -tmp").is_ok());
    assert!(shell.prepare("cat /nowhere/x.secret-missing").is_ok());
    assert!(shell.prepare("/tmp").is_ok());
}

#[test]
fn denied_argument_blocks_the_plan() {
    let shell = Shell::new();
    let candidates = vec!["a.txt".to_string(), "b.txt".to_string()];
    let e = shell
        .plan_command("cat a.txt b.txt", &candidates, &vec![false, true])
        .unwrap_err();
    assert_eq!(e.kind, ErrorKind::PermissionDenied);
    assert!(e.message.contains("'b.txt'"));
    let line = shell.plan_command("cat a.txt b.txt", &candidates, &vec![false, false]).unwrap();
    assert_eq!(line, "cat a.txt b.txt 2>&1");
}

#[test]
fn candidates_skip_program_and_flags() {
    assert_eq!(command_path_candidates("cat -n  a.txt\tb.txt"), vec!["a.txt", "b.txt"]);
    assert!(command_path_candidates("").is_empty());
    assert!(command_path_candidates("   ").is_empty());
    assert!(command_path_candidates("ls").is_empty());
}

#[test]
fn first_denied_is_the_first() {
    assert_eq!(first_denied(&vec![false, true, true]), Some(1));
    assert_eq!(first_denied(&vec![false, false]), None);
}

#[test]
fn filter_denies_matching_files_only() {
    let filter = SandboxFilter::with_rules(rules("/work", &["secret.txt", "*.env"]));
    assert!(filter.is_denied("/work/secret.txt"));
    assert!(filter.is_denied("/work/test.env"));
    assert!(!filter.is_denied("/work/normal.txt"));
    assert!(!SandboxFilter::allow_all().is_denied("/work/secret.txt"));
}

#[test]
fn output_is_combined_stdout_first() {
    let shell = Shell::new();
    assert_eq!(shell.finish("c", "out", "err", true, Some(0)).unwrap(), "outerr\n\nCommand completed successfully");
    assert_eq!(shell.finish("c", "", "err\r\n", true, Some(0)).unwrap(), "err\n\nCommand completed successfully");
    assert_eq!(shell.finish("c", "", "", false, Some(2)).unwrap(), "Command failed with exit code: 2");
    assert_eq!(shell.finish("c", "", "", false, None).unwrap(), "Command failed with exit code: -1");
}

#[test]
fn output_over_the_limit_is_refused() {
    let shell = Shell::new();
    let big = "x".repeat(400_001);
    let e = shell.finish("yes", &big, "", true, Some(0)).unwrap_err();
    assert_eq!(e.kind, ErrorKind::OutputTooLarge);
    assert_eq!(
        e.message,
        "Shell output from command 'yes' has too many characters (400001). Maximum character count is 400000."
    );
    let exact = "x".repeat(400_000);
    assert!(shell.finish("yes", &exact, "", true, Some(0)).is_ok());
}

#[test]
fn limit_applies_after_normalization() {
    let shell = Shell::new();
    let text = "\r\n".repeat(400_001);
    assert!(shell.finish("c", &text, "", true, Some(0)).is_err());
    let text = "\r\n".repeat(400_000);
    assert!(shell.finish("c", &text, "", true, Some(0)).is_ok());
}

#[test]
fn formatted_command_has_redirection() {
    assert_eq!(Shell::new().format_command_for_platform("ls"), "ls 2>&1");
}

#[test]
fn windows_shell_config_and_command_line() {
    let shell = Shell::for_platform(Platform::Windows);
    let config = shell.get_shell_config();
    assert_eq!(config.executable, "powershell.exe");
    assert!(config.arg.contains("-NoProfile"));
    assert_eq!(shell.format_command_for_platform("dir"), "{ dir } 2>&1");
    assert_eq!(shell.finish("c", "a\nb\n", "", true, Some(0)).unwrap(), "a\r\nb\n\nCommand completed successfully");
}

#[test]
fn verdicts_follow_the_rules() {
    let filter = SandboxFilter::with_rules(rules("/", &["tmp"]));
    let candidates = vec!["/tmp".to_string(), "/nowhere-at-all".to_string(), "/".to_string()];
    assert_eq!(filter.verdicts(&candidates), vec![true, false, false]);
    assert!(filter.check_path("/tmp").is_err());
    assert!(filter.check_path("/usr").is_ok());
}
