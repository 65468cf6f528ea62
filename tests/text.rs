use developer::shell::trim_chars;
use developer::text::{decimal_string, signed_decimal_string};
use developer::text::{chars_of, find_occurrences, normalize_line_endings, split_lines, Occurrences, Platform};

fn chars(s: &str) -> Vec<char> {
    s.chars().collect()
}

#[test]
fn normalization_is_idempotent_on_examples() {
    for s in ["a\r\nb", "a\nb\r\n", "\r\n\r\n", "plain", "", "x\ry\r\n"] {
        for p in [Platform::Posix, Platform::Windows] {
            let once = normalize_line_endings(s, p);
            let twice = normalize_line_endings(&once, p);
            assert_eq!(once, twice);
        }
    }
}

#[test]
fn carriage_returns_before_a_line_feed_all_go() {
    let once = normalize_line_endings("\r\r\n", Platform::Posix);
    assert_eq!(once, "\n");
    assert_eq!(normalize_line_endings(&once, Platform::Posix), "\n");
    let once = normalize_line_endings("a\r\r\nb", Platform::Windows);
    assert_eq!(once, "a\r\nb");
    assert_eq!(normalize_line_endings(&once, Platform::Windows), "a\r\nb");
}

#[test]
fn windows_line_endings() {
    assert_eq!(normalize_line_endings("line1\r\nline2\nline3", Platform::Windows), "line1\r\nline2\r\nline3");
}

#[test]
fn normalization_keeps_lone_carriage_returns() {
    assert_eq!(normalize_line_endings("a\rb\r", Platform::Posix), "a\rb\r");
    assert_eq!(normalize_line_endings("", Platform::Posix), "");
}

#[test]
fn occurrences_are_counted_without_overlap() {
    assert!(matches!(find_occurrences(&chars("abc"), &chars("x")), Occurrences::Absent));
    assert!(matches!(find_occurrences(&chars("abc"), &chars("b")), Occurrences::Once(1)));
    assert!(matches!(find_occurrences(&chars("abab"), &chars("ab")), Occurrences::Repeated));
    assert!(matches!(find_occurrences(&chars("aaa"), &chars("aa")), Occurrences::Once(0)));
}

#[test]
fn empty_pattern_occurs_everywhere() {
    assert!(matches!(find_occurrences(&chars(""), &chars("")), Occurrences::Once(0)));
    assert!(matches!(find_occurrences(&chars("a"), &chars("")), Occurrences::Repeated));
}

#[test]
fn lines_follow_std() {
    for s in ["a\nb", "a\nb\n", "a\r\nb\r\n", "", "\n", "a\n\n", "x\r"] {
        let got: Vec<String> = split_lines(&chars(s)).iter().map(|l| l.iter().collect()).collect();
        let want: Vec<String> = s.lines().map(|l| l.to_string()).collect();
        assert_eq!(got, want, "lines of {:?}", s);
    }
}

#[test]
fn chars_round_trip() {
    assert_eq!(chars_of("héllo"), vec!['h', 'é', 'l', 'l', 'o']);
}

#[test]
fn decimals() {
    assert_eq!(decimal_string(0), "0");
    assert_eq!(decimal_string(400001), "400001");
    assert_eq!(signed_decimal_string(-1), "-1");
    assert_eq!(signed_decimal_string(i32::MIN), "-2147483648");
}

#[test]
fn trimming_matches_std() {
    for s in ["  a b \n", "\u{3000}x\u{85}", "", "   ", "x"] {
        let got: String = trim_chars(&chars(s)).into_iter().collect();
        assert_eq!(got, s.trim());
    }
}
