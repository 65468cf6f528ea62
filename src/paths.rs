//! Expansion, classification and resolution of user-supplied paths.
use vstd::prelude::*;
use crate::error::{tool_error, ErrorKind, ToolError};
use crate::text::{chars_of, matches_at, occurs, replace_all_chars, replaced_all, string_of, Platform};

verus! {

/// What path expansion reads from the environment.
pub struct PathEnv {
    /// The home directory, if known (POSIX `~`).
    pub home: Option<String>,
    /// The value of `USERPROFILE` (empty when unset).
    pub user_profile: String,
    /// The value of `APPDATA` (empty when unset).
    pub app_data: String,
}

/// `s` after home-directory expansion: a leading `~` that stands alone or
/// before a `/` becomes `home`, when the home directory is known.
pub open spec fn tilde_expanded(s: Seq<char>, home: Option<Seq<char>>) -> Seq<char> {
    if s.len() > 0 && s[0] == '~' && (s.len() == 1 || s[1] == '/') && home is Some {
        home->0 + s.subrange(1, s.len() as int)
    } else {
        s
    }
}

/// `s` starts with `~` and a backslash, which `shellexpand` expands on
/// Windows hosts only.
pub open spec fn tilde_backslash(s: Seq<char>) -> bool {
    s.len() > 1 && s[0] == '~' && s[1] == '\\'
}

/// Relies on `shellexpand::tilde_with_context`: with a home directory at
/// hand it replaces a leading `~` followed by nothing or `/` by that
/// directory, and otherwise returns the input unchanged (inputs starting
/// with `~\`, which it treats by host, are left out).
#[verifier::external_body]
fn tilde_with_home(input: &str, home: Option<&str>) -> (r: String)
    requires
        !tilde_backslash(input@),
    ensures
        r@ == tilde_expanded(input@, match home { Some(h) => Some(h@), None => None }),
{
    shellexpand::tilde_with_context(input, || home).into_owned()
}

/// `s` after the expansions of `platform`: `~` on POSIX; `%USERPROFILE%`
/// then `%APPDATA%` on Windows (an unset variable expands to nothing).
pub open spec fn expanded(s: Seq<char>, platform: Platform, home: Option<Seq<char>>, user_profile: Seq<char>, app_data: Seq<char>) -> Seq<char> {
    match platform {
        Platform::Posix => tilde_expanded(s, home),
        Platform::Windows => replaced_all(
            replaced_all(s, "%USERPROFILE%"@, user_profile),
            "%APPDATA%"@,
            app_data,
        ),
    }
}

/// The expansion of `s` under `env`.
pub open spec fn expanded_in(s: Seq<char>, platform: Platform, env: PathEnv) -> Seq<char> {
    expanded(
        s,
        platform,
        match env.home { Some(h) => Some(h@), None => None },
        env.user_profile@,
        env.app_data@,
    )
}

/// Expands the shortcuts of `platform` in `path_str`.
pub fn expand_path(path_str: &str, platform: Platform, env: &PathEnv) -> (r: String)
    ensures
        r@ == expanded_in(path_str@, platform, *env),
{
    match platform {
        Platform::Posix => {
            let s = chars_of(path_str);
            if s.len() > 1 && s[0] == '~' && s[1] == '\\' {
                String::from_str(path_str)
            } else {
                let home = match &env.home {
                    Some(h) => Some(h.as_str()),
                    None => None,
                };
                tilde_with_home(path_str, home)
            }
        },
        Platform::Windows => {
            let s = chars_of(path_str);
            let up_pat = chars_of("%USERPROFILE%");
            let ad_pat = chars_of("%APPDATA%");
            let up = chars_of(env.user_profile.as_str());
            let ad = chars_of(env.app_data.as_str());
            let once = replace_all_chars(&s, &up_pat, &up);
            let twice = replace_all_chars(&once, &ad_pat, &ad);
            string_of(twice.as_slice())
        },
    }
}

/// `needle` occurs somewhere in `hay`.
pub open spec fn contains(hay: Seq<char>, needle: Seq<char>) -> bool {
    exists|i: int| matches_at(hay, needle, i)
}

/// `s` is an absolute path on `platform`: it starts with `/` on POSIX; on
/// Windows it holds a drive separator `:\` or starts with `\\` (UNC).
pub open spec fn is_absolute(s: Seq<char>, platform: Platform) -> bool {
    match platform {
        Platform::Posix => s.len() > 0 && s[0] == '/',
        Platform::Windows => contains(s, ":\\"@) || (s.len() > 1 && s[0] == '\\' && s[1] == '\\'),
    }
}

/// Whether `path_str` is absolute on `platform`.
pub fn is_absolute_path(path_str: &str, platform: Platform) -> (r: bool)
    ensures
        r == is_absolute(path_str@, platform),
{
    let s = chars_of(path_str);
    match platform {
        Platform::Posix => s.len() > 0 && s[0] == '/',
        Platform::Windows => {
            let drive = chars_of(":\\");
            occurs(&s, &drive) || (s.len() > 1 && s[0] == '\\' && s[1] == '\\')
        },
    }
}

/// The path separator of `platform`.
pub open spec fn separator(platform: Platform) -> char {
    match platform {
        Platform::Posix => '/',
        Platform::Windows => '\\',
    }
}

/// `c` ends a directory name on `platform` (Windows takes both slashes).
pub open spec fn is_separator(c: char, platform: Platform) -> bool {
    c == '/' || (platform == Platform::Windows && c == '\\')
}

/// `dir` joined with the relative path `p`, a separator put between them
/// unless `dir` is empty or already ends in one.
pub open spec fn joined(dir: Seq<char>, p: Seq<char>, platform: Platform) -> Seq<char> {
    if dir.len() == 0 || is_separator(dir.last(), platform) {
        dir + p
    } else {
        dir + seq![separator(platform)] + p
    }
}

/// Joins the relative path `p` onto `dir`.
pub fn join_path(dir: &str, p: &str, platform: Platform) -> (r: String)
    ensures
        r@ == joined(dir@, p@, platform),
{
    let d = chars_of(dir);
    let mut out: Vec<char> = Vec::new();
    crate::text::push_range(&mut out, &d, 0, d.len());
    let n = d.len();
    let ends_in_sep = n > 0 && (d[n - 1] == '/' || (platform == Platform::Windows && d[n - 1] == '\\'));
    if n > 0 && !ends_in_sep {
        match platform {
            Platform::Posix => out.push('/'),
            Platform::Windows => out.push('\\'),
        }
    }
    let q = chars_of(p);
    crate::text::push_range(&mut out, &q, 0, q.len());
    assert(d@.subrange(0, n as int) =~= d@);
    assert(q@.subrange(0, q.len() as int) =~= q@);
    assert(out@ =~= joined(dir@, p@, platform));
    string_of(out.as_slice())
}

/// The message for a path that is not absolute, with a suggestion.
pub open spec fn relative_path_message(input: Seq<char>, suggestion: Seq<char>) -> Seq<char> {
    "The path "@ + input + " is not an absolute path, did you possibly mean "@ + suggestion + "?"@
}

/// Expands `path_str` under `env` and accepts it if absolute on
/// `platform`; otherwise fails with `InvalidPath` and a message that names
/// the input and suggests `cwd` joined with it.
pub fn resolve_path(path_str: &str, cwd: &str, platform: Platform, env: &PathEnv) -> (r: Result<String, ToolError>)
    ensures
        ({
            let e = expanded_in(path_str@, platform, *env);
            match r {
                Ok(p) => is_absolute(e, platform) && p@ == e,
                Err(err) => !is_absolute(e, platform) && err.kind == ErrorKind::InvalidPath
                    && err.message@ == relative_path_message(path_str@, joined(cwd@, e, platform)),
            }
        }),
{
    let expanded = expand_path(path_str, platform, env);
    if is_absolute_path(expanded.as_str(), platform) {
        Ok(expanded)
    } else {
        let suggestion = join_path(cwd, expanded.as_str(), platform);
        let mut m = String::from_str("The path ");
        m.append(path_str);
        m.append(" is not an absolute path, did you possibly mean ");
        m.append(suggestion.as_str());
        m.append("?");
        Err(tool_error(ErrorKind::InvalidPath, m))
    }
}

/// The message for a relative path holds both the input and the suggested
/// path, and the suggestion is absolute whenever the working directory is.
pub proof fn lemma_relative_path_message(input: Seq<char>, cwd: Seq<char>, e: Seq<char>, platform: Platform)
    ensures
        contains(relative_path_message(input, joined(cwd, e, platform)), input),
        contains(relative_path_message(input, joined(cwd, e, platform)), joined(cwd, e, platform)),
        is_absolute(cwd, platform) ==> is_absolute(joined(cwd, e, platform), platform),
{
    let sug = joined(cwd, e, platform);
    let m = relative_path_message(input, sug);
    let a = "The path "@;
    let b = " is not an absolute path, did you possibly mean "@;
    let c = "?"@;
    assert(m == a + input + b + sug + c);
    assert(m.subrange(a.len() as int, (a.len() + input.len()) as int) =~= input);
    assert(matches_at(m, input, a.len() as int));
    let k = a.len() + input.len() + b.len();
    assert(m.subrange(k as int, (k + sug.len()) as int) =~= sug);
    assert(matches_at(m, sug, k as int));
    if is_absolute(cwd, platform) {
        assert(sug.subrange(0, cwd.len() as int) =~= cwd);
        if platform == Platform::Windows {
            if contains(cwd, ":\\"@) {
                let i = choose|i: int| matches_at(cwd, ":\\"@, i);
                let l = ":\\"@.len() as int;
                assert(sug.subrange(i, i + l) =~= cwd.subrange(i, i + l));
                assert(matches_at(sug, ":\\"@, i));
            } else {
                assert(sug[0] == cwd[0] && sug[1] == cwd[1]);
            }
        } else {
            assert(sug[0] == cwd[0]);
        }
    }
}

} // verus!
