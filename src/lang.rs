//! Language tags for syntax highlighting, inferred from file extensions.
use vstd::prelude::*;
use crate::text::{chars_of, push_range};

verus! {

/// Position just after the last `/` of `p`, or 0.
pub open spec fn name_start(p: Seq<char>) -> nat
    decreases p.len(),
{
    if p.len() == 0 {
        0
    } else if p.last() == '/' {
        p.len()
    } else {
        name_start(p.drop_last())
    }
}

/// Position of the last `.` in `p` at or after `from`, if any.
pub open spec fn last_dot(p: Seq<char>, from: int) -> Option<nat>
    decreases p.len(),
{
    if p.len() == 0 || p.len() <= from {
        None
    } else if p.last() == '.' {
        Some((p.len() - 1) as nat)
    } else {
        last_dot(p.drop_last(), from)
    }
}

/// The extension of the file named by `p`: what follows the last `.` of
/// its last component, unless that `.` starts the name.
pub open spec fn extension_of(p: Seq<char>) -> Option<Seq<char>> {
    let s = name_start(p) as int;
    match last_dot(p, s) {
        Some(d) => if d > s {
            Some(p.subrange((d + 1) as int, p.len() as int))
        } else {
            None
        },
        None => None,
    }
}

/// The language tag for an extension (empty when unknown).
pub open spec fn language_of_ext(e: Seq<char>) -> Seq<char> {
    if e == "rs"@ {
        "rust"@
    } else if e == "py"@ {
        "python"@
    } else if e == "js"@ {
        "javascript"@
    } else if e == "ts"@ {
        "typescript"@
    } else if e == "go"@ {
        "go"@
    } else if e == "c"@ || e == "h"@ {
        "c"@
    } else if e == "cpp"@ || e == "hpp"@ || e == "cc"@ {
        "cpp"@
    } else if e == "java"@ {
        "java"@
    } else if e == "md"@ {
        "markdown"@
    } else if e == "json"@ {
        "json"@
    } else if e == "toml"@ {
        "toml"@
    } else if e == "yaml"@ || e == "yml"@ {
        "yaml"@
    } else if e == "sh"@ {
        "bash"@
    } else if e == "html"@ {
        "html"@
    } else if e == "css"@ {
        "css"@
    } else {
        ""@
    }
}

/// The language tag for the file named by `p`.
pub open spec fn language_of(p: Seq<char>) -> Seq<char> {
    match extension_of(p) {
        Some(e) => language_of_ext(e),
        None => ""@,
    }
}

/// Whether `v` holds exactly the characters of `lit`.
pub(crate) fn chars_are(v: &Vec<char>, lit: &str) -> (r: bool)
    ensures
        r == (v@ == lit@),
{
    let n = lit.unicode_len();
    if v.len() != n {
        return false;
    }
    let mut i: usize = 0;
    while i < n
        invariant
            n == lit@.len(),
            v.len() == n,
            i <= n,
            forall|j: int| 0 <= j < i ==> v@[j] == lit@[j],
        decreases n - i,
    {
        if v[i] != lit.get_char(i) {
            return false;
        }
        i = i + 1;
    }
    assert(v@ =~= lit@);
    true
}

/// The language tag for an extension (empty when unknown).
pub fn language_for_extension(e: &Vec<char>) -> (r: String)
    ensures
        r@ == language_of_ext(e@),
{
    let tag = if chars_are(e, "rs") {
        "rust"
    } else if chars_are(e, "py") {
        "python"
    } else if chars_are(e, "js") {
        "javascript"
    } else if chars_are(e, "ts") {
        "typescript"
    } else if chars_are(e, "go") {
        "go"
    } else if chars_are(e, "c") || chars_are(e, "h") {
        "c"
    } else if chars_are(e, "cpp") || chars_are(e, "hpp") || chars_are(e, "cc") {
        "cpp"
    } else if chars_are(e, "java") {
        "java"
    } else if chars_are(e, "md") {
        "markdown"
    } else if chars_are(e, "json") {
        "json"
    } else if chars_are(e, "toml") {
        "toml"
    } else if chars_are(e, "yaml") || chars_are(e, "yml") {
        "yaml"
    } else if chars_are(e, "sh") {
        "bash"
    } else if chars_are(e, "html") {
        "html"
    } else if chars_are(e, "css") {
        "css"
    } else {
        ""
    };
    String::from_str(tag)
}

/// The extension of the file named by `path`, if it has one.
pub fn extension(path: &str) -> (r: Option<Vec<char>>)
    ensures
        match r {
            Some(e) => extension_of(path@) == Some(e@),
            None => extension_of(path@) is None,
        },
{
    let p = chars_of(path);
    let n = p.len();
    let mut s: usize = n;
    assert(p@.take(n as int) =~= p@);
    while s > 0 && p[s - 1] != '/'
        invariant
            s <= n == p.len(),
            name_start(p@) == name_start(p@.take(s as int)),
        decreases s,
    {
        assert(p@.take(s as int).drop_last() =~= p@.take(s - 1));
        s = s - 1;
    }
    assert(p@.take(n as int) =~= p@);
    assert(name_start(p@.take(s as int)) == s);
    let mut d: usize = n;
    while d > s && p[d - 1] != '.'
        invariant
            s <= d <= n == p.len(),
            last_dot(p@, s as int) == last_dot(p@.take(d as int), s as int),
        decreases d,
    {
        assert(p@.take(d as int).drop_last() =~= p@.take(d - 1));
        d = d - 1;
    }
    if d > s && d - s > 1 {
        assert(last_dot(p@.take(d as int), s as int) == Some((d - 1) as nat));
        let mut e: Vec<char> = Vec::new();
        push_range(&mut e, &p, d, n);
        Some(e)
    } else {
        if d > s {
            assert(last_dot(p@.take(d as int), s as int) == Some((d - 1) as nat));
        } else {
            assert(last_dot(p@.take(d as int), s as int) is None);
        }
        None
    }
}

/// The language tag for the file named by `path` (empty when unknown).
pub fn get_language_identifier(path: &str) -> (r: String)
    ensures
        r@ == language_of(path@),
{
    match extension(path) {
        Some(e) => language_for_extension(&e),
        None => String::from_str(""),
    }
}

} // verus!
