//! The text editor: view, write, replace and undo on files. The caller
//! reads and writes the file system; the editor decides what is shown,
//! what is written and what is kept for undo.
use vstd::prelude::*;
use std::sync::Arc;
use ignore::gitignore::Gitignore;
use crate::error::{tool_error, ErrorKind, ToolError};
use crate::history::{bounded_push, UndoHistory, DEFAULT_MAX_UNDO_HISTORY};
use crate::lang::{get_language_identifier, language_of};
use crate::sandbox::{denied_path_message, SandboxFilter};
use crate::text::{
    chars_of, count_line_feeds, decimal, decimal_string, find_occurrences, is_first_match,
    join_line_range, join_lines, lf_count, lines_of, match_count, normalized, Platform,
    normalize_line_endings, push_decimal, splice, splice_chars, split_lines, string_of,
    Occurrences,
};

verus! {

/// Largest file, in bytes, that `view` reads.
pub const MAX_FILE_SIZE: u64 = 409_600;

/// Largest number of characters that `view` shows and `write` accepts.
pub const MAX_CHAR_COUNT: usize = 400_000;

/// Lines of context shown around an edit.
pub const SNIPPET_LINES: usize = 4;

/// What is at a path.
#[derive(Clone, Copy, Debug, PartialEq, Eq, Structural)]
pub enum PathKind {
    /// Nothing.
    Missing,
    /// A directory.
    Directory,
    /// A regular file.
    File,
}

/// The result of a write: the text to store and what to report.
#[derive(Debug)]
pub struct WriteOutcome {
    /// The text to store, with normalized line endings.
    pub content: String,
    /// The confirmation for the caller.
    pub message: String,
    /// The requested text, tagged with its language, for the user.
    pub preview: String,
}

/// The result of a replacement: the text to store and what to report.
#[derive(Debug)]
pub struct ReplaceOutcome {
    /// The text to store, with normalized line endings.
    pub content: String,
    /// The report for the caller, with the edited section and a reminder
    /// to review it.
    pub message: String,
    /// The edited section, tagged with its language.
    pub snippet: String,
}

// ---------------------------------------------------------------------------
// Messages
// ---------------------------------------------------------------------------

/// The message for a path that is not a regular file.
pub open spec fn not_a_file_message(p: Seq<char>) -> Seq<char> {
    "The path '"@ + p + "' does not exist or is not a file."@
}

/// `size` bytes in kibibytes, rounded to hundredths, with two decimals.
pub open spec fn kib_text(size: nat) -> Seq<char> {
    let q = (size * 100 + 512) / 1024;
    decimal(q / 100) + seq!['.'] + decimal((q % 100) / 10) + decimal(q % 10)
}

/// The message for a file over the size limit.
pub open spec fn file_too_large_message(p: Seq<char>, size: nat) -> Seq<char> {
    "File '"@ + p + "' is too large ("@ + kib_text(size)
        + "KB). Maximum size is 400KB to prevent memory issues."@
}

/// The message for a file over the character limit.
pub open spec fn too_many_chars_message(p: Seq<char>, n: nat) -> Seq<char> {
    "File '"@ + p + "' has too many characters ("@ + decimal(n)
        + "). Maximum character count is 400000."@
}

/// A file's text under a heading, fenced with its language tag.
pub open spec fn tagged_text(p: Seq<char>, text: Seq<char>) -> Seq<char> {
    "### "@ + p + "\n```"@ + language_of(p) + "\n"@ + text + "\n```"@
}

/// The message for a write aimed at a directory.
pub open spec fn directory_message(p: Seq<char>) -> Seq<char> {
    "The path '"@ + p + "' is an existing directory. The 'write' command can only target files."@
}

/// The message for a replacement aimed at a directory.
pub open spec fn replace_directory_message(p: Seq<char>) -> Seq<char> {
    "The path '"@ + p
        + "' is an existing directory. The 'str_replace' command can only target files."@
}

/// The message for a text to write over the character limit.
pub open spec fn input_too_long_message(p: Seq<char>, n: nat) -> Seq<char> {
    "Input content for '"@ + p + "' has too many characters ("@ + decimal(n)
        + "). Maximum allowed is 400000."@
}

/// The message for a replacement in a file that does not exist.
pub open spec fn missing_file_message(p: Seq<char>) -> Seq<char> {
    "File '"@ + p + "' does not exist, you can write a new file with the `write` command"@
}

/// The message for a text to replace that occurs more than once.
pub open spec fn ambiguous_message() -> Seq<char> {
    "'old_str' must appear exactly once in the file, but it appears multiple times"@
}

/// The message for a text to replace that does not occur.
pub open spec fn no_match_message() -> Seq<char> {
    "'old_str' must appear exactly once in the file, but it does not appear in the file. Make sure the string exactly matches existing file content, including whitespace!"@
}

/// The message for an undo with nothing to undo.
pub open spec fn no_history_message() -> Seq<char> {
    "No edit history available to undo"@
}

// ---------------------------------------------------------------------------
// Replacement
// ---------------------------------------------------------------------------

/// The position of the single occurrence of `old` in `s`.
pub open spec fn match_position(s: Seq<char>, old: Seq<char>) -> int {
    choose|i: int| is_first_match(s, old, i)
}

/// `s` with its single occurrence of `old` replaced by `new`.
pub open spec fn replaced(s: Seq<char>, old: Seq<char>, new: Seq<char>) -> Seq<char> {
    splice(s, match_position(s, old), old.len() as int, new)
}

/// The lines of the edited text shown after a replacement: from four
/// lines before the line where the match began to four lines after the
/// end of the inserted text.
pub open spec fn snippet_text(s: Seq<char>, old: Seq<char>, new: Seq<char>) -> Seq<char> {
    let line = lf_count(s.take(match_position(s, old))) as int;
    let start = if line >= SNIPPET_LINES { line - SNIPPET_LINES } else { 0 };
    let end = line + SNIPPET_LINES + 1 + lf_count(new);
    let ls = lines_of(replaced(s, old, new));
    let from = if start <= ls.len() { start } else { ls.len() as int };
    let to = if end <= ls.len() { end } else { ls.len() as int };
    join_lines(ls.subrange(from, to))
}

/// `text` fenced with the language tag of `p`.
pub open spec fn fenced(p: Seq<char>, text: Seq<char>) -> Seq<char> {
    "```"@ + language_of(p) + "\n"@ + text + "\n```"@
}

/// The report after a replacement, around the edited section.
pub open spec fn edited_message(p: Seq<char>, snippet: Seq<char>) -> Seq<char> {
    "The file "@ + p + " has been edited, and the section now reads:\n"@ + snippet
        + "\nReview the changes above for errors. Undo and edit the file again if necessary!"@
}

// ---------------------------------------------------------------------------
// Viewing
// ---------------------------------------------------------------------------

/// A text result as plain values: the text, or the error's kind and
/// message.
pub open spec fn text_outcome(r: Result<String, ToolError>) -> Result<Seq<char>, (ErrorKind, Seq<char>)> {
    match r {
        Ok(t) => Ok(t@),
        Err(e) => Err((e.kind, e.message@)),
    }
}

/// What viewing shows: the text under a heading with its language tag;
/// `NotFound` when the path is not a file; `TooLarge` when the size
/// (checked first) or the character count is over its limit.
pub open spec fn view_result(p: Seq<char>, kind: PathKind, size: nat, content: Seq<char>) -> Result<Seq<char>, (ErrorKind, Seq<char>)> {
    if kind != PathKind::File {
        Err((ErrorKind::NotFound, not_a_file_message(p)))
    } else if size > MAX_FILE_SIZE {
        Err((ErrorKind::TooLarge, file_too_large_message(p, size)))
    } else if content.len() > MAX_CHAR_COUNT {
        Err((ErrorKind::TooLarge, too_many_chars_message(p, content.len())))
    } else {
        Ok(tagged_text(p, content))
    }
}

/// `size` bytes in kibibytes with two decimals.
fn kib_string(size: u64) -> (r: String)
    ensures
        r@ == kib_text(size as nat),
{
    let q: u128 = ((size as u128) * 100 + 512) / 1024;
    let mut v: Vec<char> = Vec::new();
    push_decimal(&mut v, (q / 100) as u64);
    v.push('.');
    push_decimal(&mut v, ((q % 100) / 10) as u64);
    push_decimal(&mut v, (q % 10) as u64);
    assert(v@ =~= kib_text(size as nat));
    string_of(v.as_slice())
}

/// What viewing the file at `path` shows, given what is there (`kind`), its
/// size in bytes and its text: the text under a heading with its language
/// tag, or `NotFound` when it is not a file, or `TooLarge` when the size
/// (checked first) or the character count is over its limit.
pub fn view_file(path: &str, kind: PathKind, size: u64, content: &str) -> (r: Result<String, ToolError>)
    ensures
        text_outcome(r) == view_result(path@, kind, size as nat, content@),
{
    if kind != PathKind::File {
        let mut m = String::from_str("The path '");
        m.append(path);
        m.append("' does not exist or is not a file.");
        return Err(tool_error(ErrorKind::NotFound, m));
    }
    if size > MAX_FILE_SIZE {
        let mut m = String::from_str("File '");
        m.append(path);
        m.append("' is too large (");
        m.append(kib_string(size).as_str());
        m.append("KB). Maximum size is 400KB to prevent memory issues.");
        return Err(tool_error(ErrorKind::TooLarge, m));
    }
    let count = content.unicode_len();
    if count > MAX_CHAR_COUNT {
        let mut m = String::from_str("File '");
        m.append(path);
        m.append("' has too many characters (");
        m.append(decimal_string(count as u64).as_str());
        m.append("). Maximum character count is 400000.");
        return Err(tool_error(ErrorKind::TooLarge, m));
    }
    Ok(tagged(path, content))
}

/// `text` under the heading `path`, fenced with the path's language tag.
fn tagged(path: &str, text: &str) -> (r: String)
    ensures
        r@ == tagged_text(path@, text@),
{
    let mut t = String::from_str("### ");
    t.append(path);
    t.append("\n```");
    t.append(get_language_identifier(path).as_str());
    t.append("\n");
    t.append(text);
    t.append("\n```");
    t
}

/// The sandbox refused access to `p`: a `PermissionDenied` naming it, and
/// no history changed.
pub open spec fn denied<T>(before: TextEditor, after: TextEditor, p: Seq<char>, r: Result<T, ToolError>) -> bool {
    &&& r matches Err(e) && e.kind == ErrorKind::PermissionDenied && e.message@ == denied_path_message(p)
    &&& forall|q: Seq<char>| #[trigger] after.stack(q) == before.stack(q)
}

/// What a granted write of `text` to `p` does, given what is there
/// (`kind`) and, for a file, its text `current`: a directory is refused
/// with `InvalidTarget`, a text over the character limit with `TooLarge`,
/// both leaving the history alone; otherwise the prior text (empty for a
/// missing file) is pushed on the history of `p` and the normalized text
/// is to be stored.
pub open spec fn write_done(
    before: TextEditor,
    after: TextEditor,
    p: Seq<char>,
    text: Seq<char>,
    kind: PathKind,
    current: Seq<char>,
    r: Result<WriteOutcome, ToolError>,
) -> bool {
    &&& kind == PathKind::Directory ==> (r matches Err(e) && e.kind == ErrorKind::InvalidTarget
        && e.message@ == directory_message(p))
    &&& kind != PathKind::Directory && text.len() > MAX_CHAR_COUNT ==> (r matches Err(e) && e.kind
        == ErrorKind::TooLarge && e.message@ == input_too_long_message(p, text.len()))
    &&& r is Err ==> forall|q: Seq<char>| #[trigger] after.stack(q) == before.stack(q)
    &&& kind != PathKind::Directory && text.len() <= MAX_CHAR_COUNT ==> (r matches Ok(o) && {
        &&& o.content@ == normalized(text, before.platform_spec())
        &&& o.message@ == "Successfully wrote to "@ + p
        &&& o.preview@ == tagged_text(p, text)
        &&& after.stack(p) == bounded_push(
            before.stack(p),
            if kind == PathKind::File { current } else { Seq::empty() },
            before.history_spec().max(),
        )
        &&& forall|q: Seq<char>| q != p ==> #[trigger] after.stack(q) == before.stack(q)
    })
}

/// What a granted replacement of `old` by `new` in the file at `p` does,
/// given what is there (`kind`) and, for a file, its text `s`: a missing
/// file is `NotFound`, a directory `InvalidTarget`; `old` occurring nowhere
/// is `NoMatch`, more than once `AmbiguousMatch`; all of these leave the
/// history alone. On a single occurrence the prior text is pushed on the
/// history of `p`, the text with that occurrence replaced, normalized, is
/// to be stored, and the edited section is shown.
pub open spec fn replace_done(
    before: TextEditor,
    after: TextEditor,
    p: Seq<char>,
    old: Seq<char>,
    new: Seq<char>,
    kind: PathKind,
    s: Seq<char>,
    r: Result<ReplaceOutcome, ToolError>,
) -> bool {
    &&& r is Err ==> forall|q: Seq<char>| #[trigger] after.stack(q) == before.stack(q)
    &&& kind == PathKind::Missing ==> (r matches Err(e) && e.kind == ErrorKind::NotFound
        && e.message@ == missing_file_message(p))
    &&& kind == PathKind::Directory ==> (r matches Err(e) && e.kind == ErrorKind::InvalidTarget
        && e.message@ == replace_directory_message(p))
    &&& kind == PathKind::File && match_count(s, old) == 0 ==> (r matches Err(e) && e.kind
        == ErrorKind::NoMatch && e.message@ == no_match_message())
    &&& kind == PathKind::File && match_count(s, old) >= 2 ==> (r matches Err(e) && e.kind
        == ErrorKind::AmbiguousMatch && e.message@ == ambiguous_message())
    &&& kind == PathKind::File && match_count(s, old) == 1 ==> (r matches Ok(o) && {
        &&& is_first_match(s, old, match_position(s, old))
        &&& o.content@ == normalized(replaced(s, old, new), before.platform_spec())
        &&& o.snippet@ == fenced(p, snippet_text(s, old, new))
        &&& o.message@ == edited_message(p, o.snippet@)
        &&& after.stack(p) == bounded_push(before.stack(p), s, before.history_spec().max())
        &&& forall|q: Seq<char>| q != p ==> #[trigger] after.stack(q) == before.stack(q)
    })
}

/// What a granted undo on `p` does: with no snapshot, `NoHistory`;
/// otherwise the newest snapshot leaves the history and is the text to
/// store. Other paths keep their history.
pub open spec fn undo_done(before: TextEditor, after: TextEditor, p: Seq<char>, r: Result<String, ToolError>) -> bool {
    &&& before.stack(p).len() == 0 ==> (r matches Err(e) && e.kind == ErrorKind::NoHistory
        && e.message@ == no_history_message() && after.stack(p) == before.stack(p))
    &&& before.stack(p).len() > 0 ==> (r matches Ok(t) && t@ == before.stack(p).last()
        && after.stack(p) == before.stack(p).drop_last())
    &&& forall|q: Seq<char>| q != p ==> #[trigger] after.stack(q) == before.stack(q)
}

/// An undo right after a granted write of `p` gives back exactly the text
/// the file had before that write, or the empty text when it did not
/// exist; whatever writes came before and whatever the history bound.
pub proof fn lemma_write_then_undo(
    e0: TextEditor,
    e1: TextEditor,
    e2: TextEditor,
    p: Seq<char>,
    text: Seq<char>,
    kind: PathKind,
    current: Seq<char>,
    w: Result<WriteOutcome, ToolError>,
    u: Result<String, ToolError>,
)
    requires
        write_done(e0, e1, p, text, kind, current, w),
        w is Ok,
        undo_done(e1, e2, p, u),
    ensures
        u matches Ok(t) && t@ == if kind == PathKind::File { current } else { Seq::<char>::empty() },
{
    let prior = if kind == PathKind::File { current } else { Seq::<char>::empty() };
    crate::history::lemma_undo_after_save(e0.stack(p), prior, e0.history_spec().max());
}

/// The editor: undo history per path and a sandbox filter.
pub struct TextEditor {
    history: UndoHistory,
    sandbox: SandboxFilter,
    platform: Platform,
}

impl TextEditor {
    /// The undo history.
    pub closed spec fn history_spec(&self) -> UndoHistory {
        self.history
    }

    /// The sandbox filter.
    pub closed spec fn sandbox_spec(&self) -> SandboxFilter {
        self.sandbox
    }

    /// The platform whose line endings are written.
    pub closed spec fn platform_spec(&self) -> Platform {
        self.platform
    }

    pub closed spec fn wf(&self) -> bool {
        self.history.wf()
    }

    /// The snapshots kept for `p`, oldest first.
    pub open spec fn stack(&self, p: Seq<char>) -> Seq<Seq<char>> {
        self.history_spec().stack(p)
    }

    /// An editor never keeps more snapshots for a path than its history
    /// bound, when the bound is positive.
    pub proof fn lemma_history_bounded(&self, p: Seq<char>)
        requires
            self.wf(),
            self.history_spec().max() > 0,
        ensures
            self.stack(p).len() <= self.history_spec().max(),
    {
        self.history.lemma_bounded(p);
    }

    /// An editor with the default history depth and no ignore rules.
    pub fn new() -> (r: TextEditor)
        ensures
            r.wf(),
            r.history_spec().max() == DEFAULT_MAX_UNDO_HISTORY,
            forall|p: Seq<char>| #[trigger] r.stack(p).len() == 0,
            !r.sandbox_spec().is_active(),
            r.platform_spec() == Platform::Posix,
    {
        Self::new_with_history_limit(DEFAULT_MAX_UNDO_HISTORY)
    }

    /// The same editor, writing the line endings of `platform`.
    pub fn with_platform(self, platform: Platform) -> (r: TextEditor)
        ensures
            r.wf() == self.wf(),
            r.history_spec() == self.history_spec(),
            r.sandbox_spec() == self.sandbox_spec(),
            r.platform_spec() == platform,
    {
        TextEditor { history: self.history, sandbox: self.sandbox, platform }
    }

    /// An editor keeping at most `max_history` snapshots per file (all of
    /// them when zero), with no ignore rules.
    pub fn new_with_history_limit(max_history: usize) -> (r: TextEditor)
        ensures
            r.wf(),
            r.history_spec().max() == max_history,
            forall|p: Seq<char>| #[trigger] r.stack(p).len() == 0,
            !r.sandbox_spec().is_active(),
            r.platform_spec() == Platform::Posix,
    {
        let r = TextEditor {
            history: UndoHistory::new(max_history),
            sandbox: SandboxFilter::allow_all(),
            platform: Platform::Posix,
        };
        assert forall|p: Seq<char>| #[trigger] r.stack(p).len() == 0 by {
            assert(r.history.stack(p) == Seq::<Seq<char>>::empty());
        }
        r
    }

    /// The same editor, denying what `ignore_patterns` ignores.
    pub fn with_ignore_patterns(self, ignore_patterns: Arc<Gitignore>) -> (r: TextEditor)
        ensures
            r.wf() == self.wf(),
            r.history_spec() == self.history_spec(),
            r.platform_spec() == self.platform_spec(),
            r.sandbox_spec().is_active(),
    {
        TextEditor {
            history: self.history,
            sandbox: SandboxFilter::with_rules(ignore_patterns),
            platform: self.platform,
        }
    }

    /// Fails with `PermissionDenied` when the ignore rules deny `path`.
    pub fn check_ignore_patterns(&self, path: &str) -> (r: Result<(), ToolError>)
        ensures
            !self.sandbox_spec().is_active() ==> r is Ok,
            r is Err <==> self.sandbox_spec().denies(path@),
            r matches Err(e) ==> e.kind == ErrorKind::PermissionDenied && e.message@
                == denied_path_message(path@),
    {
        self.sandbox.check_path(path)
    }

    /// Views the file at `path`: refused when the sandbox denies it, else
    /// as `view_file` says.
    pub fn view(&self, path: &str, kind: PathKind, size: u64, content: &str) -> (r: Result<String, ToolError>)
        ensures
            r matches Err(e) ==> (e.kind == ErrorKind::PermissionDenied ==> e.message@
                == denied_path_message(path@)),
            !(r matches Err(e) && e.kind == ErrorKind::PermissionDenied) ==> text_outcome(r)
                == view_result(path@, kind, size as nat, content@),
            self.sandbox_spec().denies(path@) ==> (r matches Err(e) && e.kind
                == ErrorKind::PermissionDenied && e.message@ == denied_path_message(path@)),
            !self.sandbox_spec().denies(path@) ==> text_outcome(r) == view_result(
                path@,
                kind,
                size as nat,
                content@,
            ),
    {
        match self.check_ignore_patterns(path) {
            Err(e) => Err(e),
            Ok(()) => view_file(path, kind, size, content),
        }
    }

    /// Writes `file_text` to `path` once access is granted, given what is
    /// there (`kind`) and, for a file, its text: refused for a directory or
    /// an input over the character limit, else the prior text (empty for a
    /// missing file) is saved for undo and the normalized text is to be
    /// stored.
    pub fn apply_write(&mut self, path: &str, file_text: &str, kind: PathKind, current: &str) -> (r: Result<WriteOutcome, ToolError>)
        requires
            old(self).wf(),
        ensures
            final(self).wf(),
            final(self).sandbox_spec() == old(self).sandbox_spec(),
            final(self).platform_spec() == old(self).platform_spec(),
            final(self).history_spec().max() == old(self).history_spec().max(),
            write_done(*old(self), *final(self), path@, file_text@, kind, current@, r),
    {
        if kind == PathKind::Directory {
            let mut m = String::from_str("The path '");
            m.append(path);
            m.append("' is an existing directory. The 'write' command can only target files.");
            return Err(tool_error(ErrorKind::InvalidTarget, m));
        }
        let count = file_text.unicode_len();
        if count > MAX_CHAR_COUNT {
            let mut m = String::from_str("Input content for '");
            m.append(path);
            m.append("' has too many characters (");
            m.append(decimal_string(count as u64).as_str());
            m.append("). Maximum allowed is 400000.");
            return Err(tool_error(ErrorKind::TooLarge, m));
        }
        let prior = if kind == PathKind::File {
            String::from_str(current)
        } else {
            String::new()
        };
        self.history.save(path, prior);
        let content = normalize_line_endings(file_text, self.platform);
        let mut message = String::from_str("Successfully wrote to ");
        message.append(path);
        Ok(WriteOutcome { content, message, preview: tagged(path, file_text) })
    }

    /// Writes `file_text` to `path`: refused when the sandbox denies it,
    /// else as `apply_write` says.
    pub fn write(&mut self, path: &str, file_text: &str, kind: PathKind, current: &str) -> (r: Result<WriteOutcome, ToolError>)
        requires
            old(self).wf(),
        ensures
            final(self).wf(),
            final(self).sandbox_spec() == old(self).sandbox_spec(),
            final(self).platform_spec() == old(self).platform_spec(),
            final(self).history_spec().max() == old(self).history_spec().max(),
            denied(*old(self), *final(self), path@, r) || write_done(
                *old(self),
                *final(self),
                path@,
                file_text@,
                kind,
                current@,
                r,
            ),
            old(self).sandbox_spec().denies(path@) ==> denied(*old(self), *final(self), path@, r),
            !old(self).sandbox_spec().denies(path@) ==> write_done(
                *old(self),
                *final(self),
                path@,
                file_text@,
                kind,
                current@,
                r,
            ),
    {
        match self.check_ignore_patterns(path) {
            Err(e) => Err(e),
            Ok(()) => self.apply_write(path, file_text, kind, current),
        }
    }

    /// Replaces the single occurrence of `old_str` in the file at `path`
    /// by `new_str` once access is granted, given what is there (`kind`)
    /// and, for a file, its text. Refused when the file is missing or a
    /// directory, when `old_str` does not occur (`NoMatch`) or occurs more
    /// than once (`AmbiguousMatch`); otherwise the prior text is saved for
    /// undo and the edited text, normalized, is to be stored.
    pub fn apply_str_replace(&mut self, path: &str, old_str: &str, new_str: &str, kind: PathKind, content: &str) -> (r: Result<ReplaceOutcome, ToolError>)
        requires
            old(self).wf(),
        ensures
            final(self).wf(),
            final(self).sandbox_spec() == old(self).sandbox_spec(),
            final(self).platform_spec() == old(self).platform_spec(),
            final(self).history_spec().max() == old(self).history_spec().max(),
            replace_done(*old(self), *final(self), path@, old_str@, new_str@, kind, content@, r),
    {
        if kind == PathKind::Missing {
            let mut m = String::from_str("File '");
            m.append(path);
            m.append("' does not exist, you can write a new file with the `write` command");
            return Err(tool_error(ErrorKind::NotFound, m));
        }
        if kind == PathKind::Directory {
            let mut m = String::from_str("The path '");
            m.append(path);
            m.append("' is an existing directory. The 'str_replace' command can only target files.");
            return Err(tool_error(ErrorKind::InvalidTarget, m));
        }
        let s = chars_of(content);
        let old_chars = chars_of(old_str);
        let new_chars = chars_of(new_str);
        let i = match find_occurrences(&s, &old_chars) {
            Occurrences::Repeated => {
                return Err(tool_error(
                    ErrorKind::AmbiguousMatch,
                    String::from_str("'old_str' must appear exactly once in the file, but it appears multiple times"),
                ));
            },
            Occurrences::Absent => {
                return Err(tool_error(
                    ErrorKind::NoMatch,
                    String::from_str("'old_str' must appear exactly once in the file, but it does not appear in the file. Make sure the string exactly matches existing file content, including whitespace!"),
                ));
            },
            Occurrences::Once(i) => i,
        };
        proof {
            let j = match_position(content@, old_str@);
            assert(is_first_match(content@, old_str@, j));
            if j < i {
                assert(!crate::text::matches_at(content@, old_str@, j));
            }
            if i < j {
                assert(!crate::text::matches_at(content@, old_str@, i as int));
            }
            assert(j == i);
        }
        self.history.save(path, String::from_str(content));
        let edited = splice_chars(&s, i, old_chars.len(), &new_chars);
        let edited_text = string_of(edited.as_slice());
        let stored = normalize_line_endings(edited_text.as_str(), self.platform);
        let line = count_line_feeds(&s, i);
        let added = count_line_feeds(&new_chars, new_chars.len());
        assert(new_chars@.take(new_chars.len() as int) =~= new_chars@);
        let lines = split_lines(&edited);
        let n = lines.len();
        let start = if line >= SNIPPET_LINES { line - SNIPPET_LINES } else { 0 };
        let from = if start <= n { start } else { n };
        let to = if line <= n && added <= n - line && SNIPPET_LINES + 1 <= n - line - added {
            line + SNIPPET_LINES + 1 + added
        } else {
            n
        };
        let section = join_line_range(&lines, from, to);
        let mut snippet = String::from_str("```");
        snippet.append(get_language_identifier(path).as_str());
        snippet.append("\n");
        snippet.append(string_of(section.as_slice()).as_str());
        snippet.append("\n```");
        let mut message = String::from_str("The file ");
        message.append(path);
        message.append(" has been edited, and the section now reads:\n");
        message.append(snippet.as_str());
        message.append("\nReview the changes above for errors. Undo and edit the file again if necessary!");
        Ok(ReplaceOutcome { content: stored, message, snippet })
    }

    /// Replaces the single occurrence of `old_str` in the file at `path`:
    /// refused when the sandbox denies it, else as `apply_str_replace` says.
    pub fn str_replace(&mut self, path: &str, old_str: &str, new_str: &str, kind: PathKind, content: &str) -> (r: Result<ReplaceOutcome, ToolError>)
        requires
            old(self).wf(),
        ensures
            final(self).wf(),
            final(self).sandbox_spec() == old(self).sandbox_spec(),
            final(self).platform_spec() == old(self).platform_spec(),
            final(self).history_spec().max() == old(self).history_spec().max(),
            denied(*old(self), *final(self), path@, r) || replace_done(
                *old(self),
                *final(self),
                path@,
                old_str@,
                new_str@,
                kind,
                content@,
                r,
            ),
            old(self).sandbox_spec().denies(path@) ==> denied(*old(self), *final(self), path@, r),
            !old(self).sandbox_spec().denies(path@) ==> replace_done(
                *old(self),
                *final(self),
                path@,
                old_str@,
                new_str@,
                kind,
                content@,
                r,
            ),
    {
        match self.check_ignore_patterns(path) {
            Err(e) => Err(e),
            Ok(()) => self.apply_str_replace(path, old_str, new_str, kind, content),
        }
    }

    /// Takes back the last edit of `path` once access is granted: the
    /// newest snapshot leaves the history and is the text to store, or
    /// `NoHistory` when there is none.
    pub fn apply_undo(&mut self, path: &str) -> (r: Result<String, ToolError>)
        requires
            old(self).wf(),
        ensures
            final(self).wf(),
            final(self).sandbox_spec() == old(self).sandbox_spec(),
            final(self).platform_spec() == old(self).platform_spec(),
            final(self).history_spec().max() == old(self).history_spec().max(),
            undo_done(*old(self), *final(self), path@, r),
    {
        match self.history.pop(path) {
            Some(t) => Ok(t),
            None => Err(tool_error(
                ErrorKind::NoHistory,
                String::from_str("No edit history available to undo"),
            )),
        }
    }

    /// Takes back the last edit of `path`: refused when the sandbox denies
    /// it, else as `apply_undo` says.
    pub fn undo_edit(&mut self, path: &str) -> (r: Result<String, ToolError>)
        requires
            old(self).wf(),
        ensures
            final(self).wf(),
            final(self).sandbox_spec() == old(self).sandbox_spec(),
            final(self).platform_spec() == old(self).platform_spec(),
            final(self).history_spec().max() == old(self).history_spec().max(),
            denied(*old(self), *final(self), path@, r) || undo_done(*old(self), *final(self), path@, r),
            old(self).sandbox_spec().denies(path@) ==> denied(*old(self), *final(self), path@, r),
            !old(self).sandbox_spec().denies(path@) ==> undo_done(*old(self), *final(self), path@, r),
    {
        match self.check_ignore_patterns(path) {
            Err(e) => Err(e),
            Ok(()) => self.apply_undo(path),
        }
    }
}

/// An editor command with the arguments it needs.
#[derive(Debug)]
pub enum EditorCommand {
    View,
    Write { file_text: String },
    StrReplace { old_str: String, new_str: String },
    UndoEdit,
}

/// Picks the editor command named `command`, with the arguments it needs:
/// `view`, `write` (needs `file_text`), `str_replace` (needs `old_str` and
/// `new_str`) or `undo_edit`; anything else, or a missing argument, is an
/// `InvalidCommand`.
pub fn parse_editor_command(
    command: &str,
    file_text: Option<String>,
    old_str: Option<String>,
    new_str: Option<String>,
) -> (r: Result<EditorCommand, ToolError>)
    ensures
        command@ == "view"@ ==> r matches Ok(EditorCommand::View),
        command@ == "undo_edit"@ ==> r matches Ok(EditorCommand::UndoEdit),
        command@ == "write"@ ==> match file_text {
            Some(t) => (r matches Ok(EditorCommand::Write { file_text: u }) && u == t),
            None => (r matches Err(e) && e.kind == ErrorKind::InvalidCommand && e.message@
                == "file_text is required for write command"@),
        },
        command@ == "str_replace"@ ==> match (old_str, new_str) {
            (Some(o), Some(n)) => (r matches Ok(EditorCommand::StrReplace { old_str: a, new_str: b })
                && a == o && b == n),
            (None, _) => (r matches Err(e) && e.kind == ErrorKind::InvalidCommand && e.message@
                == "old_str is required for str_replace command"@),
            (Some(_), None) => (r matches Err(e) && e.kind == ErrorKind::InvalidCommand && e.message@
                == "new_str is required for str_replace command"@),
        },
        command@ != "view"@ && command@ != "write"@ && command@ != "str_replace"@ && command@
            != "undo_edit"@ ==> (r matches Err(e) && e.kind == ErrorKind::InvalidCommand && e.message@
            == "Unknown command. Allowed commands are: view, write, str_replace, undo_edit"@),
{
    proof {
        reveal_strlit("view");
        reveal_strlit("write");
        reveal_strlit("str_replace");
        reveal_strlit("undo_edit");
        assert("view"@.len() == 4 && "write"@.len() == 5);
        assert("str_replace"@.len() == 11 && "undo_edit"@.len() == 9);
        assert("undo_edit"@ != "view"@ && "undo_edit"@ != "write"@ && "undo_edit"@ != "str_replace"@);
        assert("str_replace"@ != "view"@ && "str_replace"@ != "write"@);
    }
    let c = chars_of(command);
    if crate::lang::chars_are(&c, "view") {
        Ok(EditorCommand::View)
    } else if crate::lang::chars_are(&c, "write") {
        match file_text {
            Some(t) => Ok(EditorCommand::Write { file_text: t }),
            None => Err(tool_error(
                ErrorKind::InvalidCommand,
                String::from_str("file_text is required for write command"),
            )),
        }
    } else if crate::lang::chars_are(&c, "str_replace") {
        match (old_str, new_str) {
            (Some(o), Some(n)) => Ok(EditorCommand::StrReplace { old_str: o, new_str: n }),
            (None, _) => Err(tool_error(
                ErrorKind::InvalidCommand,
                String::from_str("old_str is required for str_replace command"),
            )),
            (Some(_), None) => Err(tool_error(
                ErrorKind::InvalidCommand,
                String::from_str("new_str is required for str_replace command"),
            )),
        }
    } else if crate::lang::chars_are(&c, "undo_edit") {
        Ok(EditorCommand::UndoEdit)
    } else {
        Err(tool_error(
            ErrorKind::InvalidCommand,
            String::from_str("Unknown command. Allowed commands are: view, write, str_replace, undo_edit"),
        ))
    }
}

} // verus!
