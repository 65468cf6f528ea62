//! The sandbox filter: gitignore-style rules that deny access to paths,
//! and the classification of shell commands by the paths they name.
use vstd::prelude::*;
use std::sync::Arc;
use ignore::gitignore::Gitignore;
use crate::error::{tool_error, ErrorKind, ToolError};

verus! {

#[verifier::external_type_specification]
#[verifier::external_body]
pub struct ExGitignore(Gitignore);

/// Whether the gitignore rules `rules` ignore `path`, matched as a file.
pub uninterp spec fn ignored(rules: Gitignore, path: Seq<char>) -> bool;

/// Relies on `ignore::gitignore::Gitignore::matched` in file mode and
/// `Match::is_ignore`: the answer depends on the rules and the path alone
/// (no file is read).
#[verifier::external_body]
fn gitignore_ignores(rules: &Arc<Gitignore>, path: &str) -> (r: bool)
    ensures
        r == ignored(**rules, path@),
{
    rules.matched(path, false).is_ignore()
}

/// Relies on `std::path::Path::exists`: whether `path` names something on
/// disk right now. Nothing is promised of the answer.
#[verifier::external_body]
fn path_exists(path: &str) -> (r: bool) {
    std::path::Path::new(path).exists()
}

// ---------------------------------------------------------------------------
// Tokens of a command line
// ---------------------------------------------------------------------------

/// `c` has the Unicode `White_Space` property (as `char::is_whitespace`).
pub open spec fn is_ws(c: char) -> bool {
    let u = c as u32;
    (0x9 <= u && u <= 0xD) || u == 0x20 || u == 0x85 || u == 0xA0 || u == 0x1680 || (0x2000 <= u
        && u <= 0x200A) || u == 0x2028 || u == 0x2029 || u == 0x202F || u == 0x205F || u == 0x3000
}

/// Whether `c` is whitespace.
pub fn is_whitespace_char(c: char) -> (r: bool)
    ensures
        r == is_ws(c),
{
    let u = c as u32;
    (0x9 <= u && u <= 0xD) || u == 0x20 || u == 0x85 || u == 0xA0 || u == 0x1680 || (0x2000 <= u
        && u <= 0x200A) || u == 0x2028 || u == 0x2029 || u == 0x202F || u == 0x205F || u == 0x3000
}

/// Length of the run of non-whitespace characters that starts `s`.
pub open spec fn token_len(s: Seq<char>) -> nat
    decreases s.len(),
{
    if s.len() == 0 || is_ws(s[0]) {
        0
    } else {
        1 + token_len(s.drop_first())
    }
}

/// The maximal runs of non-whitespace characters of `s`, in order.
pub open spec fn tokens_of(s: Seq<char>) -> Seq<Seq<char>>
    decreases s.len(),
{
    if s.len() == 0 {
        seq![]
    } else if is_ws(s[0]) {
        tokens_of(s.drop_first())
    } else {
        let k = token_len(s) as int;
        if 0 < k <= s.len() {
            seq![s.take(k)] + tokens_of(s.skip(k))
        } else {
            seq![]
        }
    }
}

/// A token is taken for a flag when it starts with `-`.
pub open spec fn is_flag(t: Seq<char>) -> bool {
    t.len() > 0 && t[0] == '-'
}

/// The tokens that follow the program name and are not flags.
pub open spec fn non_flag_args(ts: Seq<Seq<char>>) -> Seq<Seq<char>> {
    if ts.len() == 0 {
        seq![]
    } else {
        ts.skip(1).filter(|t: Seq<char>| !is_flag(t))
    }
}

/// The arguments of `command` that may name paths: every token after the
/// first that is not a flag.
pub open spec fn path_candidates(command: Seq<char>) -> Seq<Seq<char>> {
    non_flag_args(tokens_of(command))
}

proof fn lemma_token_len_at(s: Seq<char>, k: int)
    requires
        0 <= k <= s.len(),
        forall|j: int| 0 <= j < k ==> !is_ws(#[trigger] s[j]),
        k == s.len() || is_ws(s[k]),
    ensures
        token_len(s) == k,
    decreases k,
{
    if k > 0 {
        lemma_token_len_at(s.drop_first(), k - 1);
    }
}

/// Splits `s` at whitespace into its tokens.
pub fn split_tokens(s: &Vec<char>) -> (r: Vec<Vec<char>>)
    ensures
        r@.map_values(|t: Vec<char>| t@) == tokens_of(s@),
{
    let n = s.len();
    let mut r: Vec<Vec<char>> = Vec::new();
    let mut i: usize = 0;
    assert(s@.skip(0) =~= s@);
    assert(r@.map_values(|t: Vec<char>| t@) + tokens_of(s@) =~= tokens_of(s@));
    while i < n
        invariant
            n == s.len(),
            i <= n,
            r@.map_values(|t: Vec<char>| t@) + tokens_of(s@.skip(i as int)) == tokens_of(s@),
        decreases n - i,
    {
        let ghost rest = s@.skip(i as int);
        if is_whitespace_char(s[i]) {
            assert(rest.drop_first() =~= s@.skip(i + 1));
            i = i + 1;
        } else {
            let mut j: usize = i;
            while j < n && !is_whitespace_char(s[j])
                invariant
                    n == s.len(),
                    i <= j <= n,
                    forall|q: int| i <= q < j ==> !is_ws(#[trigger] s@[q]),
                decreases n - j,
            {
                j = j + 1;
            }
            let mut tok: Vec<char> = Vec::new();
            crate::text::push_range(&mut tok, s, i, j);
            proof {
                let k = (j - i) as int;
                assert forall|q: int| 0 <= q < k implies !is_ws(#[trigger] rest[q]) by {
                    assert(rest[q] == s@[i + q]);
                }
                if j < n {
                    assert(rest[k] == s@[j as int]);
                }
                lemma_token_len_at(rest, k);
                assert(rest.take(k) =~= s@.subrange(i as int, j as int));
                assert(rest.skip(k) =~= s@.skip(j as int));
            }
            let ghost old_r = r@.map_values(|t: Vec<char>| t@);
            r.push(tok);
            assert(r@.map_values(|t: Vec<char>| t@) =~= old_r.push(s@.subrange(i as int, j as int)));
            i = j;
            assert(r@.map_values(|t: Vec<char>| t@) + tokens_of(s@.skip(i as int)) =~= tokens_of(s@));
        }
    }
    assert(s@.skip(n as int) =~= Seq::<char>::empty());
    assert(r@.map_values(|t: Vec<char>| t@) =~= tokens_of(s@));
    r
}

/// The arguments of `command` that may name paths: every token after the
/// program name that does not start with `-`.
pub fn command_path_candidates(command: &str) -> (r: Vec<String>)
    ensures
        r@.map_values(|t: String| t@) == path_candidates(command@),
{
    let chars = crate::text::chars_of(command);
    let toks = split_tokens(&chars);
    let ghost all = toks@.map_values(|t: Vec<char>| t@);
    let mut r: Vec<String> = Vec::new();
    if toks.len() == 0 {
        assert(r@.map_values(|t: String| t@) =~= path_candidates(command@));
        return r;
    }
    let mut k: usize = 1;
    assert(all.subrange(1, 1) =~= Seq::<Seq<char>>::empty());
    while k < toks.len()
        invariant
            1 <= k <= toks.len(),
            all == toks@.map_values(|t: Vec<char>| t@),
            r@.map_values(|t: String| t@) == all.subrange(1, k as int).filter(|t: Seq<char>| !is_flag(t)),
        decreases toks.len() - k,
    {
        let ghost prev = all.subrange(1, k as int);
        assert(all.subrange(1, k + 1) =~= prev.push(all[k as int]));
        proof {
            Seq::filter_distributes_over_add(prev, seq![all[k as int]], |t: Seq<char>| !is_flag(t));
            assert(prev.push(all[k as int]) =~= prev + seq![all[k as int]]);
        }
        let t = &toks[k];
        let flag = t.len() > 0 && t[0] == '-';
        if !flag {
            let ghost old_r = r@.map_values(|t: String| t@);
            r.push(crate::text::string_of(t.as_slice()));
            assert(r@.map_values(|t: String| t@) =~= old_r.push(all[k as int]));
            assert(seq![all[k as int]].filter(|t: Seq<char>| !is_flag(t)) =~= seq![all[k as int]]) by {
                reveal_with_fuel(Seq::filter, 2);
            }
        } else {
            assert(seq![all[k as int]].filter(|t: Seq<char>| !is_flag(t)) =~= Seq::<Seq<char>>::empty()) by {
                reveal_with_fuel(Seq::filter, 2);
            }
        }
        k = k + 1;
    }
    assert(all.subrange(1, toks.len() as int) =~= all.skip(1));
    r
}

// ---------------------------------------------------------------------------
// The filter
// ---------------------------------------------------------------------------

/// A set of ignore rules, or none (everything is allowed).
pub struct SandboxFilter {
    rules: Option<Arc<Gitignore>>,
}

/// Index of the first `true` among `verdicts`.
pub fn first_denied(verdicts: &Vec<bool>) -> (r: Option<usize>)
    ensures
        match r {
            None => forall|i: int| 0 <= i < verdicts@.len() ==> !#[trigger] verdicts@[i],
            Some(i) => i < verdicts@.len() && verdicts@[i as int] && forall|j: int|
                0 <= j < i ==> !#[trigger] verdicts@[j],
        },
{
    let mut i: usize = 0;
    while i < verdicts.len()
        invariant
            i <= verdicts@.len(),
            forall|j: int| 0 <= j < i ==> !#[trigger] verdicts@[j],
        decreases verdicts.len() - i,
    {
        if verdicts[i] {
            return Some(i);
        }
        i = i + 1;
    }
    None
}

/// The message for a command that names a denied path.
pub open spec fn denied_command_message(arg: Seq<char>) -> Seq<char> {
    "The command attempts to access '"@ + arg + "' which is restricted by ignore patterns"@
}

/// The message for a denied file.
pub open spec fn denied_path_message(path: Seq<char>) -> Seq<char> {
    "The file '"@ + path + "' is restricted by ignore patterns"@
}

/// Decides on a command from what is known of its path arguments:
/// `denied[i]` tells whether `candidates[i]` is an existing path that the
/// rules ignore. The command is refused, naming the first such argument,
/// exactly when one is.
pub fn judge_command(candidates: &Vec<String>, denied: &Vec<bool>) -> (r: Result<(), ToolError>)
    requires
        candidates.len() == denied.len(),
    ensures
        r is Err <==> exists|i: int| 0 <= i < denied@.len() && #[trigger] denied@[i],
        r matches Err(e) ==> e.kind == ErrorKind::PermissionDenied && exists|i: int|
            0 <= i < denied@.len() && denied@[i] && (forall|j: int|
                0 <= j < i ==> !#[trigger] denied@[j]) && e.message@ == denied_command_message(
                #[trigger] candidates@[i]@,
            ),
{
    match first_denied(denied) {
        None => Ok(()),
        Some(i) => {
            let mut m = String::from_str("The command attempts to access '");
            m.append(candidates[i].as_str());
            m.append("' which is restricted by ignore patterns");
            let e = tool_error(ErrorKind::PermissionDenied, m);
            assert(denied@[i as int]);
            assert(e.message@ == denied_command_message(candidates@[i as int]@));
            Err(e)
        },
    }
}

impl SandboxFilter {
    /// Whether any rules are set.
    pub closed spec fn is_active(&self) -> bool {
        self.rules is Some
    }

    /// Whether the rules deny `p`, matched as a file.
    pub closed spec fn denies(&self, p: Seq<char>) -> bool {
        match self.rules {
            Some(r) => ignored(*r, p),
            None => false,
        }
    }


    /// A filter that allows everything.
    pub fn allow_all() -> (r: SandboxFilter)
        ensures
            !r.is_active(),
    {
        SandboxFilter { rules: None }
    }

    /// A filter over the given rules.
    pub fn with_rules(rules: Arc<Gitignore>) -> (r: SandboxFilter)
        ensures
            r.is_active(),
    {
        SandboxFilter { rules: Some(rules) }
    }

    /// Whether the rules deny `path`, matched as a file. A filter without
    /// rules denies nothing.
    pub fn is_denied(&self, path: &str) -> (r: bool)
        ensures
            !self.is_active() ==> !r,
            r == self.denies(path@),
    {
        match &self.rules {
            None => false,
            Some(rules) => gitignore_ignores(rules, path),
        }
    }

    /// Fails with `PermissionDenied` when the rules deny `path`.
    pub fn check_path(&self, path: &str) -> (r: Result<(), ToolError>)
        ensures
            !self.is_active() ==> r is Ok,
            r is Err <==> self.denies(path@),
            r matches Err(e) ==> e.kind == ErrorKind::PermissionDenied && e.message@
                == denied_path_message(path@),
    {
        if self.is_denied(path) {
            let mut m = String::from_str("The file '");
            m.append(path);
            m.append("' is restricted by ignore patterns");
            Err(tool_error(ErrorKind::PermissionDenied, m))
        } else {
            Ok(())
        }
    }

    /// For each candidate, whether it names an existing path that the rules
    /// deny. Without rules, none does.
    pub fn verdicts(&self, candidates: &Vec<String>) -> (r: Vec<bool>)
        ensures
            r.len() == candidates.len(),
            !self.is_active() ==> forall|i: int| 0 <= i < r@.len() ==> !#[trigger] r@[i],
            forall|i: int| 0 <= i < r@.len() && #[trigger] r@[i] ==> self.denies(candidates@[i]@),
    {
        let mut r: Vec<bool> = Vec::new();
        let mut i: usize = 0;
        while i < candidates.len()
            invariant
                i <= candidates.len(),
                r.len() == i,
                !self.is_active() ==> forall|j: int| 0 <= j < r@.len() ==> !#[trigger] r@[j],
                forall|j: int| 0 <= j < r@.len() && #[trigger] r@[j] ==> self.denies(candidates@[j]@),
            decreases candidates.len() - i,
        {
            let denied = match &self.rules {
                None => false,
                Some(rules) => {
                    let arg = candidates[i].as_str();
                    path_exists(arg) && gitignore_ignores(rules, arg)
                },
            };
            r.push(denied);
            i = i + 1;
        }
        r
    }

    /// Fails with `PermissionDenied` when an argument of `command` after the
    /// program name, not a flag, names an existing path that the rules
    /// deny. A filter without rules accepts every command.
    pub fn check_command(&self, command: &str) -> (r: Result<(), ToolError>)
        ensures
            !self.is_active() ==> r is Ok,
            path_candidates(command@).len() == 0 ==> r is Ok,
            r matches Err(e) ==> e.kind == ErrorKind::PermissionDenied && exists|i: int|
                0 <= i < path_candidates(command@).len() && self.denies(path_candidates(command@)[i])
                    && e.message@ == denied_command_message(#[trigger] path_candidates(command@)[i]),
    {
        let candidates = command_path_candidates(command);
        let verdicts = self.verdicts(&candidates);
        let r = judge_command(&candidates, &verdicts);
        proof {
            if r is Err {
                let e = r->Err_0;
                let i = choose|i: int|
                    0 <= i < verdicts@.len() && verdicts@[i] && (forall|j: int|
                        0 <= j < i ==> !#[trigger] verdicts@[j]) && e.message@
                        == denied_command_message(#[trigger] candidates@[i]@);
                assert(candidates@.map_values(|t: String| t@)[i] == candidates@[i]@);
            }
        }
        r
    }
}

} // verus!
