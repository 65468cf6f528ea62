//! The image processor's own logic: file-name repair for macOS screenshots
//! and the choice of an extra downscale. Decoding, resizing and encoding
//! are done by the caller with an image codec.
use vstd::prelude::*;
use crate::error::{tool_error, ErrorKind, ToolError};
use crate::sandbox::is_ws;
use crate::shell::trim_end;
use crate::text::{chars_of, matches_at, push_range, string_of};

verus! {

/// The file names macOS gives to screenshots, with the meridian captured.
pub const SCREENSHOT_PATTERN: &'static str = r"^Screenshot \d{4}-\d{2}-\d{2} at \d{1,2}\.\d{2}\.\d{2} (AM|PM|am|pm)(?: \(\d+\))?\.png$";

/// The text captured by group `group` of the regular expression `pattern`
/// in `text`, when the expression is valid, matches and the group takes
/// part in the match.
pub uninterp spec fn regex_group(pattern: Seq<char>, text: Seq<char>, group: nat) -> Option<Seq<char>>;

/// Relies on `regex::Regex::new`, `Regex::captures` and `Captures::get`:
/// the text of capture group `group` of the first match of `pattern` in
/// `text`, or nothing when the pattern is invalid, does not match, or the
/// group does not take part.
#[verifier::external_body]
fn capture_group(pattern: &str, text: &str, group: usize) -> (r: Option<String>)
    ensures
        match r {
            Some(m) => regex_group(pattern@, text@, group as nat) == Some(m@),
            None => regex_group(pattern@, text@, group as nat) is None,
        },
{
    regex::Regex::new(pattern).ok()?.captures(text)?.get(group).map(|m| m.as_str().to_string())
}

/// The last position at which `m` occurs in `s`, if any.
pub open spec fn last_match(s: Seq<char>, m: Seq<char>) -> Option<int> {
    if exists|i: int| matches_at(s, m, i) {
        Some(choose|i: int| matches_at(s, m, i) && forall|j: int| i < j ==> !#[trigger] matches_at(s, m, j))
    } else {
        None
    }
}

/// `name` with the whitespace before the last occurrence of `meridian`
/// replaced by a narrow no-break space, as macOS names screenshots; `None`
/// when `meridian` does not occur, nothing precedes it but whitespace, or
/// nothing follows the replaced character's position.
pub open spec fn narrow_spaced_name(name: Seq<char>, meridian: Seq<char>) -> Option<Seq<char>> {
    match last_match(name, meridian) {
        Some(p) => {
            let k = trim_end(name.take(p)).len() as int;
            if 0 < k && k < name.len() {
                Some(name.take(k) + seq!['\u{202F}'] + name.skip(k + 1))
            } else {
                None
            }
        },
        None => None,
    }
}

proof fn lemma_trim_end_len(s: Seq<char>)
    ensures
        trim_end(s).len() <= s.len(),
        trim_end(s) == s.take(trim_end(s).len() as int),
        forall|j: int| trim_end(s).len() <= j < s.len() ==> is_ws(#[trigger] s[j]),
        trim_end(s).len() > 0 ==> !is_ws(s[trim_end(s).len() - 1]),
    decreases s.len(),
{
    if s.len() > 0 && is_ws(s.last()) {
        let d = s.drop_last();
        lemma_trim_end_len(d);
        let k = trim_end(s).len() as int;
        assert(d.take(k) =~= s.take(k));
        assert forall|j: int| k <= j < s.len() implies is_ws(#[trigger] s[j]) by {
            if j < s.len() - 1 {
                assert(s[j] == d[j]);
            }
        }
        if k > 0 {
            assert(s[k - 1] == d[k - 1]);
        }
    } else {
        assert(s.take(s.len() as int) =~= s);
    }
}

/// The last position at which `m` occurs in `s`.
fn last_occurrence(s: &Vec<char>, m: &Vec<char>) -> (r: Option<usize>)
    ensures
        match r {
            Some(p) => matches_at(s@, m@, p as int) && forall|j: int| p < j ==> !#[trigger] matches_at(s@, m@, j),
            None => forall|i: int| !#[trigger] matches_at(s@, m@, i),
        },
{
    let n = s.len();
    let ml = m.len();
    if ml > n {
        return None;
    }
    let mut p: usize = n - ml;
    loop
        invariant
            ml <= n,
            p <= n - ml,
            n == s.len(),
            ml == m.len(),
            forall|j: int| p < j ==> !#[trigger] matches_at(s@, m@, j),
        decreases p,
    {
        if crate::text::match_here(s, m, p) {
            return Some(p);
        }
        if p == 0 {
            assert forall|i: int| !#[trigger] matches_at(s@, m@, i) by {
                if i == 0 {
                    assert(!matches_at(s@, m@, 0));
                }
            }
            return None;
        }
        p = p - 1;
    }
}

/// Length of `s[..p]` without its trailing whitespace.
fn trimmed_end_len(s: &Vec<char>, p: usize) -> (r: usize)
    requires
        p <= s.len(),
    ensures
        r == trim_end(s@.take(p as int)).len(),
{
    let mut e: usize = p;
    while e > 0 && is_whitespace_at(s, e - 1)
        invariant
            e <= p <= s.len(),
            forall|j: int| e <= j < p ==> is_ws(#[trigger] s@[j]),
        decreases e,
    {
        e = e - 1;
    }
    proof {
        let t = s@.take(p as int);
        lemma_trim_end_len(t);
        let k = trim_end(t).len() as int;
        if k < e {
            assert(is_ws(t[e - 1]));
        }
        if k > e {
            assert(!is_ws(t[k - 1]));
            assert(is_ws(s@[k - 1]));
        }
    }
    e
}

/// Replaces the whitespace before the last occurrence of `meridian` in
/// `name` by a narrow no-break space.
pub fn narrow_space_before(name: &str, meridian: &str) -> (r: Option<String>)
    ensures
        match r {
            Some(t) => narrow_spaced_name(name@, meridian@) == Some(t@),
            None => narrow_spaced_name(name@, meridian@) is None,
        },
{
    let s = chars_of(name);
    let m = chars_of(meridian);
    let n = s.len();
    let p = match last_occurrence(&s, &m) {
        None => {
            return None;
        },
        Some(p) => p,
    };
    proof {
        let c = last_match(s@, m@)->0;
        assert(c == p as int) by {
            if c < p as int {
                assert(!matches_at(s@, m@, p as int));
            }
            if c > p as int {
                assert(!matches_at(s@, m@, c));
            }
        }
    }
    let e = trimmed_end_len(&s, p);
    if e > 0 && e < n {
        let mut out: Vec<char> = Vec::new();
        push_range(&mut out, &s, 0, e);
        out.push('\u{202F}');
        push_range(&mut out, &s, e + 1, n);
        assert(out@ =~= s@.take(e as int) + seq!['\u{202F}'] + s@.skip(e + 1));
        Some(string_of(out.as_slice()))
    } else {
        None
    }
}

fn is_whitespace_at(s: &Vec<char>, i: usize) -> (r: bool)
    requires
        i < s.len(),
    ensures
        r == is_ws(s@[i as int]),
{
    crate::sandbox::is_whitespace_char(s[i])
}

/// Position just after the last `/` of `p`, or 0.
fn file_name_start(p: &Vec<char>) -> (r: usize)
    ensures
        r <= p.len(),
        r == crate::lang::name_start(p@),
{
    let mut s: usize = p.len();
    assert(p@.take(p.len() as int) =~= p@);
    while s > 0 && p[s - 1] != '/'
        invariant
            s <= p.len(),
            crate::lang::name_start(p@) == crate::lang::name_start(p@.take(s as int)),
        decreases s,
    {
        assert(p@.take(s as int).drop_last() =~= p@.take(s - 1));
        s = s - 1;
    }
    proof {
        lemma_name_start_at(p@, s as int);
    }
    s
}

proof fn lemma_name_start_at(p: Seq<char>, s: int)
    requires
        0 <= s <= p.len(),
        s == 0 || p[s - 1] == '/',
        crate::lang::name_start(p) == crate::lang::name_start(p.take(s)),
    ensures
        crate::lang::name_start(p) == s,
{
    if s > 0 {
        assert(p.take(s).last() == '/');
    }
}

/// `path` with its file name repaired as `narrow_spaced_name` says, when
/// the name is that of a macOS screenshot (its meridian as captured by
/// `SCREENSHOT_PATTERN`); otherwise `path` unchanged.
pub open spec fn screenshot_path(path: Seq<char>) -> Seq<char> {
    let s = crate::lang::name_start(path) as int;
    let name = path.skip(s);
    match regex_group(SCREENSHOT_PATTERN@, name, 1) {
        Some(m) => match narrow_spaced_name(name, m) {
            Some(fixed) => path.take(s) + fixed,
            None => path,
        },
        None => path,
    }
}

/// The image processor.
pub struct ImageProcessor;

impl ImageProcessor {
    pub fn new() -> (r: ImageProcessor) {
        ImageProcessor
    }

    /// Repairs the file name of a macOS screenshot, whose space before the
    /// meridian is a narrow no-break space on disk.
    pub fn normalize_mac_screenshot_path(path: &str) -> (r: String)
        ensures
            r@ == screenshot_path(path@),
    {
        let p = chars_of(path);
        let s = file_name_start(&p);
        let mut name_chars: Vec<char> = Vec::new();
        push_range(&mut name_chars, &p, s, p.len());
        assert(name_chars@ =~= path@.skip(s as int));
        let name = string_of(name_chars.as_slice());
        match capture_group(SCREENSHOT_PATTERN, name.as_str(), 1) {
            Some(m) => match narrow_space_before(name.as_str(), m.as_str()) {
                Some(fixed) => {
                    let mut out: Vec<char> = Vec::new();
                    push_range(&mut out, &p, 0, s);
                    let f = chars_of(fixed.as_str());
                    push_range(&mut out, &f, 0, f.len());
                    assert(f@.subrange(0, f.len() as int) =~= f@);
                    assert(out@ =~= path@.take(s as int) + fixed@);
                    string_of(out.as_slice())
                },
                None => String::from_str(path),
            },
            None => String::from_str(path),
        }
    }

    /// The divisor for an extra downscale: 2 for `"1/2"`, 4 for `"1/4"`;
    /// any other factor is refused.
    pub fn resize_divisor(factor: &str) -> (r: Result<u32, ToolError>)
        ensures
            factor@ == "1/2"@ ==> r == Ok::<u32, ToolError>(2),
            factor@ == "1/4"@ ==> r == Ok::<u32, ToolError>(4),
            factor@ != "1/2"@ && factor@ != "1/4"@ ==> (r matches Err(e) && e.kind
                == ErrorKind::InvalidArgument && e.message@ == "Invalid resize factor '"@ + factor@
                + "'. Allowed values: '1/2', '1/4'"@),
    {
        proof {
            reveal_strlit("1/2");
            reveal_strlit("1/4");
            assert("1/2"@[2] != "1/4"@[2]);
        }
        let f = chars_of(factor);
        if crate::lang::chars_are(&f, "1/2") {
            Ok(2)
        } else if crate::lang::chars_are(&f, "1/4") {
            Ok(4)
        } else {
            let mut m = String::from_str("Invalid resize factor '");
            m.append(factor);
            m.append("'. Allowed values: '1/2', '1/4'");
            Err(tool_error(ErrorKind::InvalidArgument, m))
        }
    }

    /// A side after the extra downscale: divided, and at least 1.
    pub fn scaled_side(side: u32, divisor: u32) -> (r: u32)
        requires
            divisor > 0,
        ensures
            r == if side / divisor >= 1 { side / divisor } else { 1 },
    {
        let q = side / divisor;
        if q >= 1 { q } else { 1 }
    }
}

} // verus!
