//! Shell command planning, sandbox enforcement and output handling. The
//! process itself is spawned by the caller with the planned command line.
use vstd::prelude::*;
use std::sync::Arc;
use ignore::gitignore::Gitignore;
use crate::error::{tool_error, ErrorKind, ToolError};
use crate::sandbox::{
    is_whitespace_char, is_ws, judge_command, path_candidates, command_path_candidates,
    denied_command_message, SandboxFilter,
};
use crate::text::{
    chars_of, decimal, decimal_string, normalized, push_range, signed_decimal,
    signed_decimal_string, string_of, Platform,
};

verus! {

/// Largest number of characters of command output that is reported.
pub const MAX_OUTPUT_CHARS: usize = 400_000;

// ---------------------------------------------------------------------------
// Trimming
// ---------------------------------------------------------------------------

/// `s` without its leading whitespace.
pub open spec fn trim_start(s: Seq<char>) -> Seq<char>
    decreases s.len(),
{
    if s.len() > 0 && is_ws(s[0]) {
        trim_start(s.drop_first())
    } else {
        s
    }
}

/// `s` without its trailing whitespace.
pub open spec fn trim_end(s: Seq<char>) -> Seq<char>
    decreases s.len(),
{
    if s.len() > 0 && is_ws(s.last()) {
        trim_end(s.drop_last())
    } else {
        s
    }
}

/// `s` without leading and trailing whitespace.
pub open spec fn trimmed(s: Seq<char>) -> Seq<char> {
    trim_end(trim_start(s))
}

proof fn lemma_trim_start_at(s: Seq<char>, i: int)
    requires
        0 <= i <= s.len(),
        forall|j: int| 0 <= j < i ==> is_ws(#[trigger] s[j]),
        i == s.len() || !is_ws(s[i]),
    ensures
        trim_start(s) == s.skip(i),
    decreases i,
{
    if i > 0 {
        assert forall|j: int| 0 <= j < i - 1 implies is_ws(#[trigger] s.drop_first()[j]) by {
            assert(s.drop_first()[j] == s[j + 1]);
        }
        lemma_trim_start_at(s.drop_first(), i - 1);
        assert(s.drop_first().skip(i - 1) =~= s.skip(i));
    } else {
        assert(s.skip(0) =~= s);
    }
}

proof fn lemma_trim_end_at(s: Seq<char>, e: int)
    requires
        0 <= e <= s.len(),
        forall|j: int| e <= j < s.len() ==> is_ws(#[trigger] s[j]),
        e == 0 || !is_ws(s[e - 1]),
    ensures
        trim_end(s) == s.take(e),
    decreases s.len() - e,
{
    if e < s.len() {
        assert forall|j: int| e <= j < s.len() - 1 implies is_ws(#[trigger] s.drop_last()[j]) by {
            assert(s.drop_last()[j] == s[j]);
        }
        lemma_trim_end_at(s.drop_last(), e);
        assert(s.drop_last().take(e) =~= s.take(e));
    } else {
        assert(s.take(e) =~= s);
    }
}

/// `s` without leading and trailing whitespace.
pub fn trim_chars(s: &Vec<char>) -> (r: Vec<char>)
    ensures
        r@ == trimmed(s@),
{
    let n = s.len();
    let mut i: usize = 0;
    while i < n && is_whitespace_char(s[i])
        invariant
            n == s.len(),
            i <= n,
            forall|j: int| 0 <= j < i ==> is_ws(#[trigger] s@[j]),
        decreases n - i,
    {
        i = i + 1;
    }
    proof {
        lemma_trim_start_at(s@, i as int);
    }
    let mut e: usize = n;
    while e > i && is_whitespace_char(s[e - 1])
        invariant
            n == s.len(),
            i <= e <= n,
            forall|j: int| e <= j < n ==> is_ws(#[trigger] s@[j]),
        decreases e,
    {
        e = e - 1;
    }
    proof {
        let t = s@.skip(i as int);
        assert forall|j: int| (e - i) <= j < t.len() implies is_ws(#[trigger] t[j]) by {
            assert(t[j] == s@[i + j]);
        }
        if e > i {
            assert(t[e - i - 1] == s@[e - 1]);
        }
        lemma_trim_end_at(t, (e - i) as int);
        assert(t.take((e - i) as int) =~= s@.subrange(i as int, e as int));
    }
    let mut r: Vec<char> = Vec::new();
    push_range(&mut r, s, i, e);
    assert(r@ =~= s@.subrange(i as int, e as int));
    r
}

// ---------------------------------------------------------------------------
// Shell configuration and commands
// ---------------------------------------------------------------------------

/// How commands are handed to the shell.
#[derive(Debug, Clone)]
pub struct ShellConfig {
    /// The shell program.
    pub executable: String,
    /// The argument that precedes the command line.
    pub arg: String,
    /// What is appended to send error output to standard output.
    pub redirect_syntax: String,
}

impl ShellConfig {
    /// The POSIX shell configuration: `bash -c`, with `2>&1`.
    pub open spec fn is_posix_default(&self) -> bool {
        &&& self.executable@ == "bash"@
        &&& self.arg@ == "-c"@
        &&& self.redirect_syntax@ == "2>&1"@
    }

    /// The Windows configuration: a non-interactive PowerShell, with `2>&1`.
    pub open spec fn is_windows_default(&self) -> bool {
        &&& self.executable@ == "powershell.exe"@
        &&& self.arg@ == "-NoProfile -NonInteractive -Command"@
        &&& self.redirect_syntax@ == "2>&1"@
    }

    /// The configuration of `platform`.
    pub open spec fn is_default_for(&self, platform: Platform) -> bool {
        match platform {
            Platform::Posix => self.is_posix_default(),
            Platform::Windows => self.is_windows_default(),
        }
    }

    /// The shell configuration of `platform`.
    pub fn for_platform(platform: Platform) -> (r: ShellConfig)
        ensures
            r.is_default_for(platform),
    {
        match platform {
            Platform::Posix => ShellConfig::default(),
            Platform::Windows => ShellConfig {
                executable: String::from_str("powershell.exe"),
                arg: String::from_str("-NoProfile -NonInteractive -Command"),
                redirect_syntax: String::from_str("2>&1"),
            },
        }
    }
}

/// The line handed to the shell: on POSIX the command, a space and the
/// redirection; on Windows the command in braces, then the redirection.
pub open spec fn command_line(command: Seq<char>, redirect: Seq<char>, platform: Platform) -> Seq<char> {
    match platform {
        Platform::Posix => command + " "@ + redirect,
        Platform::Windows => "{ "@ + command + " } "@ + redirect,
    }
}

impl Default for ShellConfig {
    fn default() -> (r: ShellConfig)
        ensures
            r.is_posix_default(),
    {
        ShellConfig {
            executable: String::from_str("bash"),
            arg: String::from_str("-c"),
            redirect_syntax: String::from_str("2>&1"),
        }
    }
}

/// Standard output and standard error combined: either alone when the
/// other is empty, else output followed by error.
pub open spec fn combined_output(out: Seq<char>, err: Seq<char>) -> Seq<char> {
    if err.len() == 0 {
        out
    } else if out.len() == 0 {
        err
    } else {
        out + err
    }
}

/// The line that reports how the command ended.
pub open spec fn status_line(success: bool, code: Option<i32>) -> Seq<char> {
    if success {
        "Command completed successfully"@
    } else {
        "Command failed with exit code: "@ + signed_decimal(
            match code {
                Some(c) => c as int,
                None => -1,
            },
        )
    }
}

/// What a finished command reports: its normalized output, trimmed, a
/// blank line and the status line; the status line alone when there was
/// no output.
pub open spec fn report(output: Seq<char>, success: bool, code: Option<i32>) -> Seq<char> {
    if output.len() == 0 {
        status_line(success, code)
    } else {
        trimmed(output) + "\n\n"@ + status_line(success, code)
    }
}

/// The message for output over the limit.
pub open spec fn output_too_large_message(command: Seq<char>, count: nat) -> Seq<char> {
    "Shell output from command '"@ + command + "' has too many characters ("@ + decimal(count)
        + "). Maximum character count is 400000."@
}

/// The shell executor: its configuration and its sandbox filter.
pub struct Shell {
    config: ShellConfig,
    sandbox: SandboxFilter,
    platform: Platform,
}

impl Shell {
    /// The configuration in use.
    pub closed spec fn config_spec(&self) -> ShellConfig {
        self.config
    }

    /// The sandbox filter in use.
    pub closed spec fn sandbox_spec(&self) -> SandboxFilter {
        self.sandbox
    }

    /// The platform whose conventions are followed.
    pub closed spec fn platform_spec(&self) -> Platform {
        self.platform
    }

    /// A shell with the POSIX configuration and no ignore rules.
    pub fn new() -> (r: Shell)
        ensures
            r.config_spec().is_posix_default(),
            r.platform_spec() == Platform::Posix,
            !r.sandbox_spec().is_active(),
    {
        Self::for_platform(Platform::Posix)
    }

    /// A shell following the conventions of `platform`, with no ignore
    /// rules.
    pub fn for_platform(platform: Platform) -> (r: Shell)
        ensures
            r.config_spec().is_default_for(platform),
            r.platform_spec() == platform,
            !r.sandbox_spec().is_active(),
    {
        Shell {
            config: ShellConfig::for_platform(platform),
            sandbox: SandboxFilter::allow_all(),
            platform,
        }
    }

    /// The same shell, denying what `ignore_patterns` ignores.
    pub fn with_ignore_patterns(self, ignore_patterns: Arc<Gitignore>) -> (r: Shell)
        ensures
            r.config_spec() == self.config_spec(),
            r.platform_spec() == self.platform_spec(),
            r.sandbox_spec().is_active(),
    {
        Shell {
            config: self.config,
            sandbox: SandboxFilter::with_rules(ignore_patterns),
            platform: self.platform,
        }
    }

    /// The configuration in use.
    pub fn get_shell_config(&self) -> (r: &ShellConfig)
        ensures
            *r == self.config_spec(),
    {
        &self.config
    }

    /// The command line handed to the shell.
    pub fn format_command_for_platform(&self, command: &str) -> (r: String)
        ensures
            r@ == command_line(command@, self.config_spec().redirect_syntax@, self.platform_spec()),
    {
        let mut r = match self.platform {
            Platform::Posix => String::from_str(command),
            Platform::Windows => {
                let mut w = String::from_str("{ ");
                w.append(command);
                w.append(" }");
                w
            },
        };
        r.append(" ");
        r.append(self.config.redirect_syntax.as_str());
        proof {
            reveal_strlit("{ ");
            reveal_strlit(" }");
            reveal_strlit(" } ");
            reveal_strlit(" ");
        }
        assert(r@ =~= command_line(command@, self.config_spec().redirect_syntax@, self.platform_spec()));
        r
    }

    /// Expands the shortcuts of the shell's platform in `path_str`.
    pub fn expand_path(&self, path_str: &str, env: &crate::paths::PathEnv) -> (r: String)
        ensures
            r@ == crate::paths::expanded_in(path_str@, self.platform_spec(), *env),
    {
        crate::paths::expand_path(path_str, self.platform, env)
    }

    /// Whether `path_str` is absolute on the shell's platform.
    pub fn is_absolute_path(&self, path_str: &str) -> (r: bool)
        ensures
            r == crate::paths::is_absolute(path_str@, self.platform_spec()),
    {
        crate::paths::is_absolute_path(path_str, self.platform)
    }

    /// Converts line endings to the shell's platform convention.
    pub fn normalize_line_endings(&self, text: &str) -> (r: String)
        ensures
            r@ == normalized(text@, self.platform_spec()),
    {
        crate::text::normalize_line_endings(text, self.platform)
    }

    /// Refuses `command` when one of its path arguments is denied by the
    /// sandbox.
    pub fn check_ignore_patterns(&self, command: &str) -> (r: Result<(), ToolError>)
        ensures
            !self.sandbox_spec().is_active() ==> r is Ok,
            path_candidates(command@).len() == 0 ==> r is Ok,
            r matches Err(e) ==> e.kind == ErrorKind::PermissionDenied && exists|i: int|
                0 <= i < path_candidates(command@).len() && self.sandbox_spec().denies(
                    path_candidates(command@)[i],
                ) && e.message@ == denied_command_message(#[trigger] path_candidates(command@)[i]),
    {
        self.sandbox.check_command(command)
    }

    /// Plans the run of `command` from what is known of its path arguments:
    /// `denied[i]` tells whether `candidates[i]` is an existing path that
    /// the sandbox denies. A denied argument refuses the command, so no
    /// command line to spawn comes back; otherwise the line to spawn does.
    pub fn plan_command(&self, command: &str, candidates: &Vec<String>, denied: &Vec<bool>) -> (r: Result<String, ToolError>)
        requires
            candidates.len() == denied.len(),
        ensures
            r is Err <==> exists|i: int| 0 <= i < denied@.len() && #[trigger] denied@[i],
            r matches Err(e) ==> e.kind == ErrorKind::PermissionDenied,
            r matches Ok(line) ==> line@ == command_line(command@, self.config_spec().redirect_syntax@, self.platform_spec()),
    {
        match judge_command(candidates, denied) {
            Err(e) => Err(e),
            Ok(()) => Ok(self.format_command_for_platform(command)),
        }
    }

    /// Checks `command` against the sandbox and gives the command line to
    /// hand to the shell.
    pub fn prepare(&self, command: &str) -> (r: Result<String, ToolError>)
        ensures
            !self.sandbox_spec().is_active() ==> r is Ok,
            path_candidates(command@).len() == 0 ==> r is Ok,
            r matches Ok(line) ==> line@ == command_line(command@, self.config_spec().redirect_syntax@, self.platform_spec()),
            r matches Err(e) ==> e.kind == ErrorKind::PermissionDenied && exists|i: int|
                0 <= i < path_candidates(command@).len() && self.sandbox_spec().denies(
                    path_candidates(command@)[i],
                ) && e.message@ == denied_command_message(#[trigger] path_candidates(command@)[i]),
    {
        match self.sandbox.check_command(command) {
            Err(e) => Err(e),
            Ok(()) => Ok(self.format_command_for_platform(command)),
        }
    }

    /// Turns the captured output of a finished command into its report:
    /// the streams combined and normalized, refused with `OutputTooLarge`
    /// beyond the character limit.
    pub fn finish(&self, command: &str, stdout: &str, stderr: &str, success: bool, code: Option<i32>) -> (r: Result<String, ToolError>)
        ensures
            ({
                let out = normalized(combined_output(stdout@, stderr@), self.platform_spec());
                &&& out.len() > MAX_OUTPUT_CHARS ==> (r matches Err(e) && e.kind
                    == ErrorKind::OutputTooLarge && e.message@ == output_too_large_message(
                    command@,
                    out.len(),
                ))
                &&& out.len() <= MAX_OUTPUT_CHARS ==> (r matches Ok(t) && t@ == report(
                    out,
                    success,
                    code,
                ))
            }),
    {
        let mut combined = String::from_str(stdout);
        if stderr.is_empty() {
        } else if stdout.is_empty() {
            combined = String::from_str(stderr);
        } else {
            combined.append(stderr);
        }
        let normalized = crate::text::normalize_line_endings(combined.as_str(), self.platform);
        let chars = chars_of(normalized.as_str());
        let count = chars.len();
        if count > MAX_OUTPUT_CHARS {
            let mut m = String::from_str("Shell output from command '");
            m.append(command);
            m.append("' has too many characters (");
            let digits = decimal_string(count as u64);
            m.append(digits.as_str());
            m.append("). Maximum character count is 400000.");
            return Err(tool_error(ErrorKind::OutputTooLarge, m));
        }
        let status = if success {
            String::from_str("Command completed successfully")
        } else {
            let c = match code {
                Some(c) => c,
                None => -1,
            };
            let mut s = String::from_str("Command failed with exit code: ");
            let digits = signed_decimal_string(c);
            s.append(digits.as_str());
            s
        };
        if count == 0 {
            Ok(status)
        } else {
            let t = trim_chars(&chars);
            let mut r = string_of(t.as_slice());
            r.append("\n\n");
            r.append(status.as_str());
            Ok(r)
        }
    }
}

} // verus!
