//! Character-level text algorithms shared by the editor and the shell.
use vstd::prelude::*;

verus! {

/// Collects the characters of `s` into a vector.
pub fn chars_of(s: &str) -> (r: Vec<char>)
    ensures
        r@ == s@,
{
    let mut r: Vec<char> = Vec::new();
    for c in it: s.chars()
        invariant
            it.seq() == s@,
            r@ == it.seq().take(it.index() as int),
    {
        r.push(c);
    }
    r
}

/// Relies on `String: FromIterator<char>`: the string holds exactly the
/// given characters, in order.
#[verifier::external_body]
pub(crate) fn string_of(v: &[char]) -> (r: String)
    ensures
        r@ == v@,
{
    v.iter().collect()
}

// ---------------------------------------------------------------------------
// Line endings
// ---------------------------------------------------------------------------

/// The host conventions the tools follow.
#[derive(Clone, Copy, Debug, PartialEq, Eq, Structural)]
pub enum Platform {
    /// Line feeds, `/` paths, a POSIX shell.
    Posix,
    /// Carriage return and line feed, drive and UNC paths, PowerShell.
    Windows,
}

/// `s` holds a carriage return directly followed by a line feed at `i`.
pub open spec fn crlf_at(s: Seq<char>, i: int) -> bool {
    0 <= i && i + 1 < s.len() && s[i] == '\r' && s[i + 1] == '\n'
}

/// `s` holds no `"\r\n"` pair.
pub open spec fn has_no_crlf(s: Seq<char>) -> bool {
    forall|i: int| !#[trigger] crlf_at(s, i)
}

/// `t` starts with carriage returns (maybe none) and then a line feed.
pub open spec fn crs_then_lf(t: Seq<char>) -> bool
    decreases t.len(),
{
    t.len() > 0 && (t[0] == '\n' || (t[0] == '\r' && crs_then_lf(t.drop_first())))
}

/// `s` with every carriage return that stands in a run of them ending in
/// a line feed removed: each line ending becomes a lone `"\n"`.
pub open spec fn lf_normalized(s: Seq<char>) -> Seq<char>
    decreases s.len(),
{
    if s.len() == 0 {
        s
    } else if s[0] == '\r' && crs_then_lf(s.drop_first()) {
        lf_normalized(s.drop_first())
    } else {
        seq![s[0]] + lf_normalized(s.drop_first())
    }
}

/// `t` with a carriage return put before every line feed.
pub open spec fn crlf_expanded(t: Seq<char>) -> Seq<char>
    decreases t.len(),
{
    if t.len() == 0 {
        t
    } else if t[0] == '\n' {
        seq!['\r', '\n'] + crlf_expanded(t.drop_first())
    } else {
        seq![t[0]] + crlf_expanded(t.drop_first())
    }
}

/// `s` with its line endings in the convention of `platform`: a lone line
/// feed on POSIX, a carriage return and line feed on Windows.
pub open spec fn normalized(s: Seq<char>, platform: Platform) -> Seq<char> {
    match platform {
        Platform::Posix => lf_normalized(s),
        Platform::Windows => crlf_expanded(lf_normalized(s)),
    }
}

/// `k` carriage returns.
pub open spec fn crs(k: nat) -> Seq<char> {
    Seq::new(k, |j: int| '\r')
}

proof fn lemma_crs_lf(k: nat, rest: Seq<char>)
    ensures
        crs_then_lf(crs(k) + seq!['\n'] + rest),
        lf_normalized(crs(k) + seq!['\n'] + rest) == seq!['\n'] + lf_normalized(rest),
    decreases k,
{
    let t = crs(k) + seq!['\n'] + rest;
    if k == 0 {
        assert(t =~= seq!['\n'] + rest);
        assert(t.drop_first() =~= rest);
    } else {
        assert(t.drop_first() =~= crs((k - 1) as nat) + seq!['\n'] + rest);
        lemma_crs_lf((k - 1) as nat, rest);
    }
}

proof fn lemma_crs_other(k: nat, c: char, rest: Seq<char>)
    requires
        c != '\r',
        c != '\n',
    ensures
        !crs_then_lf(crs(k) + seq![c] + rest),
        lf_normalized(crs(k) + seq![c] + rest) == crs(k) + seq![c] + lf_normalized(rest),
    decreases k,
{
    let t = crs(k) + seq![c] + rest;
    if k == 0 {
        assert(t =~= seq![c] + rest);
        assert(t.drop_first() =~= rest);
    } else {
        assert(t.drop_first() =~= crs((k - 1) as nat) + seq![c] + rest);
        lemma_crs_other((k - 1) as nat, c, rest);
        assert(seq!['\r'] + (crs((k - 1) as nat) + seq![c] + lf_normalized(rest)) =~= crs(k)
            + seq![c] + lf_normalized(rest));
    }
}

proof fn lemma_crs_end(k: nat)
    ensures
        !crs_then_lf(crs(k)),
        lf_normalized(crs(k)) == crs(k),
    decreases k,
{
    if k > 0 {
        assert(crs(k).drop_first() =~= crs((k - 1) as nat));
        lemma_crs_end((k - 1) as nat);
        assert(seq!['\r'] + crs((k - 1) as nat) =~= crs(k));
    }
}

/// Puts the line endings of `s` in the POSIX convention.
fn lf_normalize_chars(s: &Vec<char>) -> (out: Vec<char>)
    ensures
        out@ == lf_normalized(s@),
{
    let n = s.len();
    let mut out: Vec<char> = Vec::new();
    let mut pending: usize = 0;
    let mut i: usize = 0;
    assert(crs(0) + s@.skip(0) =~= s@);
    while i < n
        invariant
            n == s.len(),
            i <= n,
            pending <= i,
            lf_normalized(s@) == out@ + lf_normalized(crs(pending as nat) + s@.skip(i as int)),
        decreases n - i,
    {
        let c = s[i];
        let ghost rest = s@.skip(i + 1);
        assert(s@.skip(i as int) =~= seq![c] + rest);
        if c == '\r' {
            assert(crs(pending as nat) + (seq![c] + rest) =~= crs((pending + 1) as nat) + rest);
            pending = pending + 1;
        } else if c == '\n' {
            proof {
                lemma_crs_lf(pending as nat, rest);
                assert(crs(pending as nat) + (seq![c] + rest) =~= crs(pending as nat) + seq!['\n'] + rest);
            }
            out.push('\n');
            pending = 0;
            assert(crs(0) + rest =~= rest);
            assert(lf_normalized(s@) =~= out@ + lf_normalized(crs(pending as nat) + rest));
        } else {
            proof {
                lemma_crs_other(pending as nat, c, rest);
                assert(crs(pending as nat) + (seq![c] + rest) =~= crs(pending as nat) + seq![c] + rest);
            }
            let ghost before = out@;
            let mut k: usize = 0;
            while k < pending
                invariant
                    k <= pending,
                    out@ == before + crs(k as nat),
                decreases pending - k,
            {
                out.push('\r');
                k = k + 1;
                assert(out@ =~= before + crs(k as nat));
            }
            out.push(c);
            pending = 0;
            assert(crs(0) + rest =~= rest);
            assert(lf_normalized(s@) =~= out@ + lf_normalized(crs(pending as nat) + rest));
        }
        i = i + 1;
    }
    proof {
        lemma_crs_end(pending as nat);
        assert(crs(pending as nat) + s@.skip(n as int) =~= crs(pending as nat));
    }
    let ghost before = out@;
    let mut k: usize = 0;
    while k < pending
        invariant
            k <= pending,
            out@ == before + crs(k as nat),
        decreases pending - k,
    {
        out.push('\r');
        k = k + 1;
        assert(out@ =~= before + crs(k as nat));
    }
    out
}

/// Puts a carriage return before every line feed of `t`.
fn crlf_expand_chars(t: &Vec<char>) -> (out: Vec<char>)
    ensures
        out@ == crlf_expanded(t@),
{
    let n = t.len();
    let mut out: Vec<char> = Vec::new();
    let mut i: usize = 0;
    assert(t@.skip(0) =~= t@);
    while i < n
        invariant
            n == t.len(),
            i <= n,
            crlf_expanded(t@) == out@ + crlf_expanded(t@.skip(i as int)),
        decreases n - i,
    {
        let ghost u = t@.skip(i as int);
        assert(u.drop_first() =~= t@.skip(i + 1));
        if t[i] == '\n' {
            out.push('\r');
            out.push('\n');
        } else {
            out.push(t[i]);
        }
        i = i + 1;
        assert(crlf_expanded(t@) =~= out@ + crlf_expanded(t@.skip(i as int)));
    }
    assert(t@.skip(n as int) =~= Seq::<char>::empty());
    assert(out@ =~= crlf_expanded(t@));
    out
}

/// Converts line endings to the convention of `platform`.
pub fn normalize_line_endings(text: &str, platform: Platform) -> (r: String)
    ensures
        r@ == normalized(text@, platform),
{
    let s = chars_of(text);
    let lf = lf_normalize_chars(&s);
    match platform {
        Platform::Posix => string_of(lf.as_slice()),
        Platform::Windows => {
            let crlf = crlf_expand_chars(&lf);
            string_of(crlf.as_slice())
        },
    }
}

proof fn lemma_head_lf(u: Seq<char>)
    ensures
        lf_normalized(u).len() > 0 && lf_normalized(u)[0] == '\n' ==> crs_then_lf(u),
    decreases u.len(),
{
    if u.len() > 0 && u[0] == '\r' && crs_then_lf(u.drop_first()) {
    } else if u.len() > 0 {
        assert(lf_normalized(u)[0] == u[0]);
    }
}

/// Normalized text holds no `"\r\n"` pair.
pub proof fn lemma_normalized_has_no_crlf(s: Seq<char>)
    ensures
        has_no_crlf(lf_normalized(s)),
    decreases s.len(),
{
    if s.len() > 0 {
        let rest = s.drop_first();
        lemma_normalized_has_no_crlf(rest);
        let tail = lf_normalized(rest);
        if !(s[0] == '\r' && crs_then_lf(rest)) {
            let out = lf_normalized(s);
            assert(out == seq![s[0]] + tail);
            lemma_head_lf(rest);
            assert forall|i: int| !#[trigger] crlf_at(out, i) by {
                if i >= 1 {
                    assert(!crlf_at(tail, i - 1));
                }
            }
        }
    }
}

proof fn lemma_crs_then_lf_has_crlf(u: Seq<char>)
    requires
        crs_then_lf(u),
        u[0] == '\r',
    ensures
        exists|i: int| #[trigger] crlf_at(u, i),
    decreases u.len(),
{
    let d = u.drop_first();
    assert(crs_then_lf(d));
    assert(d.len() > 0 && d[0] == u[1]);
    if d[0] == '\n' {
        assert(crlf_at(u, 0));
    } else {
        lemma_crs_then_lf_has_crlf(d);
        let i = choose|i: int| #[trigger] crlf_at(d, i);
        assert(crlf_at(u, i + 1));
    }
}

/// Text that holds no `"\r\n"` pair is left unchanged by normalization.
pub proof fn lemma_normalized_text_is_fixed(t: Seq<char>)
    requires
        has_no_crlf(t),
    ensures
        lf_normalized(t) == t,
    decreases t.len(),
{
    if t.len() > 0 {
        let rest = t.drop_first();
        assert forall|i: int| !#[trigger] crlf_at(rest, i) by {
            assert(!crlf_at(t, i + 1));
        }
        if t[0] == '\r' && crs_then_lf(rest) {
            if rest[0] == '\n' {
                assert(crlf_at(t, 0));
            } else {
                lemma_crs_then_lf_has_crlf(rest);
            }
        }
        lemma_normalized_text_is_fixed(rest);
        assert(seq![t[0]] + rest =~= t);
    }
}

proof fn lemma_expanded_no_lf_start(u: Seq<char>)
    requires
        has_no_crlf(u),
        u.len() == 0 || u[0] != '\n',
    ensures
        !crs_then_lf(crlf_expanded(u)),
    decreases u.len(),
{
    if u.len() > 0 {
        let d = u.drop_first();
        assert forall|i: int| !#[trigger] crlf_at(d, i) by {
            assert(!crlf_at(u, i + 1));
        }
        if u[0] == '\r' {
            assert(!crlf_at(u, 0));
            lemma_expanded_no_lf_start(d);
            assert(crlf_expanded(u).drop_first() =~= crlf_expanded(d));
        }
    }
}

/// Normalizing text in the Windows convention gives it back, when it came
/// from text without `"\r\n"` pairs.
proof fn lemma_expanded_is_lf_fixed(t: Seq<char>)
    requires
        has_no_crlf(t),
    ensures
        lf_normalized(crlf_expanded(t)) == t,
    decreases t.len(),
{
    if t.len() > 0 {
        let d = t.drop_first();
        assert forall|i: int| !#[trigger] crlf_at(d, i) by {
            assert(!crlf_at(t, i + 1));
        }
        lemma_expanded_is_lf_fixed(d);
        let e = crlf_expanded(t);
        let x = crlf_expanded(d);
        if t[0] == '\n' {
            assert(e == seq!['\r', '\n'] + x);
            assert(e.drop_first() =~= seq!['\n'] + x);
            assert((seq!['\n'] + x).drop_first() =~= x);
            assert(lf_normalized(seq!['\n'] + x) == seq!['\n'] + lf_normalized(x));
            assert(seq!['\n'] + d =~= t);
        } else {
            assert(e == seq![t[0]] + x);
            assert(e.drop_first() =~= x);
            if t[0] == '\r' {
                assert(!crlf_at(t, 0));
                lemma_expanded_no_lf_start(d);
            }
            assert(seq![t[0]] + d =~= t);
        }
    }
}

/// Normalizing already-normalized text gives the same text, on either
/// platform and for every input.
pub proof fn lemma_normalize_idempotent(s: Seq<char>, platform: Platform)
    ensures
        normalized(normalized(s, platform), platform) == normalized(s, platform),
{
    let t = lf_normalized(s);
    lemma_normalized_has_no_crlf(s);
    match platform {
        Platform::Posix => {
            lemma_normalized_text_is_fixed(t);
        },
        Platform::Windows => {
            lemma_expanded_is_lf_fixed(t);
        },
    }
}

// ---------------------------------------------------------------------------
// Exact substring matches
// ---------------------------------------------------------------------------

/// `p` occurs in `s` starting at `i`.
pub open spec fn matches_at(s: Seq<char>, p: Seq<char>, i: int) -> bool {
    0 <= i && i + p.len() <= s.len() && s.subrange(i, i + p.len()) == p
}

/// Number of non-overlapping occurrences of `p` in `s`, scanning left to
/// right from `i` (an empty `p` occurs at every position, end included).
pub open spec fn match_count_from(s: Seq<char>, p: Seq<char>, i: int) -> nat
    decreases s.len() + 1 - i,
{
    if i < 0 || i > s.len() {
        0
    } else if matches_at(s, p, i) {
        1 + match_count_from(s, p, i + if p.len() == 0 { 1 } else { p.len() as int })
    } else {
        match_count_from(s, p, i + 1)
    }
}

/// Number of non-overlapping occurrences of `p` in `s`.
pub open spec fn match_count(s: Seq<char>, p: Seq<char>) -> nat {
    match_count_from(s, p, 0)
}

/// `i` is the leftmost position at which `p` occurs in `s`.
pub open spec fn is_first_match(s: Seq<char>, p: Seq<char>, i: int) -> bool {
    matches_at(s, p, i) && forall|j: int| 0 <= j < i ==> !#[trigger] matches_at(s, p, j)
}

/// `s` with the `m` characters at `i` replaced by `r`.
pub open spec fn splice(s: Seq<char>, i: int, m: int, r: Seq<char>) -> Seq<char> {
    s.subrange(0, i) + r + s.subrange(i + m, s.len() as int)
}

/// How often a pattern occurs in a text.
pub enum Occurrences {
    /// It does not occur.
    Absent,
    /// It occurs exactly once, at this position.
    Once(usize),
    /// It occurs two times or more.
    Repeated,
}

proof fn lemma_no_match_past_end(s: Seq<char>, p: Seq<char>, i: int)
    requires
        p.len() >= 1,
        0 <= i,
        i + p.len() > s.len(),
    ensures
        match_count_from(s, p, i) == 0,
    decreases s.len() + 1 - i,
{
    if i <= s.len() {
        lemma_no_match_past_end(s, p, i + 1);
    }
}

proof fn lemma_empty_pattern_count(s: Seq<char>, p: Seq<char>, i: int)
    requires
        p.len() == 0,
        0 <= i <= s.len(),
    ensures
        match_count_from(s, p, i) == s.len() + 1 - i,
    decreases s.len() + 1 - i,
{
    assert(s.subrange(i, i) =~= p);
    if i < s.len() {
        lemma_empty_pattern_count(s, p, i + 1);
    } else {
        assert(match_count_from(s, p, i + 1) == 0);
    }
}

/// Whether `p` occurs in `s` at `i`.
pub(crate) fn match_here(s: &Vec<char>, p: &Vec<char>, i: usize) -> (r: bool)
    requires
        i + p.len() <= s.len(),
    ensures
        r == matches_at(s@, p@, i as int),
{
    let m = p.len();
    let mut k: usize = 0;
    while k < m
        invariant
            m == p.len(),
            i + m <= s.len(),
            k <= m,
            forall|j: int| 0 <= j < k ==> s@[i + j] == p@[j],
        decreases m - k,
    {
        if s[i + k] != p[k] {
            assert(s@.subrange(i as int, i + m)[k as int] != p@[k as int]);
            return false;
        }
        k = k + 1;
    }
    assert(s@.subrange(i as int, i + m) =~= p@);
    true
}

/// Counts the non-overlapping occurrences of `p` in `s`, up to two, and
/// gives the position of a single one.
pub fn find_occurrences(s: &Vec<char>, p: &Vec<char>) -> (r: Occurrences)
    ensures
        match r {
            Occurrences::Absent => match_count(s@, p@) == 0,
            Occurrences::Once(i) => match_count(s@, p@) == 1 && is_first_match(s@, p@, i as int),
            Occurrences::Repeated => match_count(s@, p@) >= 2,
        },
{
    let n = s.len();
    let m = p.len();
    if m == 0 {
        proof {
            lemma_empty_pattern_count(s@, p@, 0);
            assert(s@.subrange(0, 0) =~= p@);
        }
        if n == 0 {
            return Occurrences::Once(0);
        } else {
            return Occurrences::Repeated;
        }
    }
    let mut first: Option<usize> = None;
    let mut i: usize = 0;
    while i <= n && m <= n - i
        invariant
            n == s.len(),
            m == p.len(),
            m >= 1,
            match first {
                None => {
                    &&& match_count(s@, p@) == match_count_from(s@, p@, i as int)
                    &&& forall|j: int| 0 <= j < i ==> !#[trigger] matches_at(s@, p@, j)
                },
                Some(f) => {
                    &&& match_count(s@, p@) == 1 + match_count_from(s@, p@, i as int)
                    &&& is_first_match(s@, p@, f as int)
                },
            },
        decreases n + 1 - i,
    {
        if match_here(s, p, i) {
            if first.is_some() {
                proof {
                    assert(match_count_from(s@, p@, i as int) >= 1);
                }
                return Occurrences::Repeated;
            }
            first = Some(i);
            i = i + m;
        } else {
            i = i + 1;
        }
    }
    proof {
        lemma_no_match_past_end(s@, p@, i as int);
    }
    match first {
        None => Occurrences::Absent,
        Some(f) => Occurrences::Once(f),
    }
}

/// Appends `v[from..to]` to `out`.
pub(crate) fn push_range(out: &mut Vec<char>, v: &Vec<char>, from: usize, to: usize)
    requires
        from <= to <= v.len(),
    ensures
        final(out)@ == old(out)@ + v@.subrange(from as int, to as int),
{
    let mut k: usize = from;
    while k < to
        invariant
            from <= k <= to <= v.len(),
            out@ == old(out)@ + v@.subrange(from as int, k as int),
        decreases to - k,
    {
        out.push(v[k]);
        k = k + 1;
        assert(out@ =~= old(out)@ + v@.subrange(from as int, k as int));
    }
}

/// `s` with the `m` characters at `i` replaced by `r`.
pub fn splice_chars(s: &Vec<char>, i: usize, m: usize, r: &Vec<char>) -> (out: Vec<char>)
    requires
        i + m <= s.len(),
    ensures
        out@ == splice(s@, i as int, m as int, r@),
{
    let mut out: Vec<char> = Vec::new();
    push_range(&mut out, s, 0, i);
    push_range(&mut out, r, 0, r.len());
    push_range(&mut out, s, i + m, s.len());
    assert(r@.subrange(0, r.len() as int) =~= r@);
    assert(out@ =~= splice(s@, i as int, m as int, r@));
    out
}

// ---------------------------------------------------------------------------
// Lines
// ---------------------------------------------------------------------------

/// Number of line feeds in `s`.
pub open spec fn lf_count(s: Seq<char>) -> nat
    decreases s.len(),
{
    if s.len() == 0 {
        0
    } else {
        lf_count(s.drop_last()) + if s.last() == '\n' { 1nat } else { 0nat }
    }
}

/// Counts the line feeds among the first `k` characters of `s`.
pub fn count_line_feeds(s: &Vec<char>, k: usize) -> (r: usize)
    requires
        k <= s.len(),
    ensures
        r == lf_count(s@.take(k as int)),
{
    let mut r: usize = 0;
    let mut j: usize = 0;
    while j < k
        invariant
            k <= s.len(),
            j <= k,
            r == lf_count(s@.take(j as int)),
            r <= j,
        decreases k - j,
    {
        assert(s@.take(j + 1).drop_last() =~= s@.take(j as int));
        if s[j] == '\n' {
            r = r + 1;
        }
        j = j + 1;
    }
    r
}

/// Position of the first line feed in `s`, or its length if it has none.
pub open spec fn lf_index(s: Seq<char>) -> nat
    decreases s.len(),
{
    if s.len() == 0 {
        0
    } else if s[0] == '\n' {
        0
    } else {
        1 + lf_index(s.drop_first())
    }
}

/// `s` without one trailing carriage return.
pub open spec fn strip_cr(s: Seq<char>) -> Seq<char> {
    if s.len() > 0 && s.last() == '\r' {
        s.drop_last()
    } else {
        s
    }
}

proof fn lemma_lf_index_bound(s: Seq<char>)
    ensures
        lf_index(s) <= s.len(),
        lf_index(s) < s.len() ==> s[lf_index(s) as int] == '\n',
        forall|j: int| 0 <= j < lf_index(s) ==> s[j] != '\n',
    decreases s.len(),
{
    if s.len() > 0 && s[0] != '\n' {
        lemma_lf_index_bound(s.drop_first());
        assert forall|j: int| 0 <= j < lf_index(s) implies s[j] != '\n' by {
            if j > 0 {
                assert(s[j] == s.drop_first()[j - 1]);
            }
        }
    }
}

proof fn lemma_lf_index_at(s: Seq<char>, k: int)
    requires
        0 <= k < s.len(),
        s[k] == '\n',
        forall|j: int| 0 <= j < k ==> s[j] != '\n',
    ensures
        lf_index(s) == k,
    decreases k,
{
    if k > 0 {
        lemma_lf_index_at(s.drop_first(), k - 1);
    }
}

proof fn lemma_lf_index_none(s: Seq<char>)
    requires
        forall|j: int| 0 <= j < s.len() ==> s[j] != '\n',
    ensures
        lf_index(s) == s.len(),
    decreases s.len(),
{
    if s.len() > 0 {
        lemma_lf_index_none(s.drop_first());
    }
}

/// The lines of `s`: split at each line feed, a carriage return before it
/// dropped, and no empty line after a final line feed.
pub open spec fn lines_of(s: Seq<char>) -> Seq<Seq<char>>
    decreases s.len(),
{
    if s.len() == 0 {
        seq![]
    } else {
        let k = lf_index(s) as int;
        if k >= s.len() {
            seq![s]
        } else {
            seq![strip_cr(s.take(k))] + lines_of(s.skip(k + 1))
        }
    }
}

/// The given lines joined with line feeds between them.
pub open spec fn join_lines(ls: Seq<Seq<char>>) -> Seq<char>
    decreases ls.len(),
{
    if ls.len() == 0 {
        seq![]
    } else if ls.len() == 1 {
        ls[0]
    } else {
        join_lines(ls.drop_last()) + seq!['\n'] + ls.last()
    }
}

/// `v[from..to]` without one trailing carriage return.
fn line_chars(v: &Vec<char>, from: usize, to: usize) -> (r: Vec<char>)
    requires
        from <= to <= v.len(),
    ensures
        r@ == strip_cr(v@.subrange(from as int, to as int)),
{
    let mut end = to;
    if to > from && v[to - 1] == '\r' {
        end = to - 1;
    }
    let mut r: Vec<char> = Vec::new();
    push_range(&mut r, v, from, end);
    assert(r@ =~= strip_cr(v@.subrange(from as int, to as int)));
    r
}

/// Splits `s` into its lines.
pub fn split_lines(s: &Vec<char>) -> (r: Vec<Vec<char>>)
    ensures
        r@.map_values(|l: Vec<char>| l@) == lines_of(s@),
{
    let n = s.len();
    let mut r: Vec<Vec<char>> = Vec::new();
    let mut start: usize = 0;
    let mut j: usize = 0;
    assert(s@.skip(0) =~= s@);
    assert(r@.map_values(|l: Vec<char>| l@) + lines_of(s@) =~= lines_of(s@));
    while j < n
        invariant
            n == s.len(),
            start <= j <= n,
            forall|q: int| start <= q < j ==> s@[q] != '\n',
            r@.map_values(|l: Vec<char>| l@) + lines_of(s@.skip(start as int)) == lines_of(s@),
        decreases n - j,
    {
        if s[j] == '\n' {
            let line = line_chars(s, start, j);
            proof {
                let rest = s@.skip(start as int);
                let k = (j - start) as int;
                assert forall|q: int| 0 <= q < k implies rest[q] != '\n' by {
                    assert(rest[q] == s@[start + q]);
                }
                lemma_lf_index_at(rest, k);
                assert(rest.take(k) =~= s@.subrange(start as int, j as int));
                assert(rest.skip(k + 1) =~= s@.skip(j + 1));
                assert(lines_of(rest) == seq![strip_cr(rest.take(k))] + lines_of(rest.skip(k + 1)));
            }
            let ghost old_r = r@.map_values(|l: Vec<char>| l@);
            r.push(line);
            assert(r@.map_values(|l: Vec<char>| l@) =~= old_r.push(line@));
            start = j + 1;
            assert(r@.map_values(|l: Vec<char>| l@) + lines_of(s@.skip(start as int)) =~= lines_of(s@));
        }
        j = j + 1;
    }
    if start < n {
        let line = line_chars(s, start, n);
        proof {
            let rest = s@.skip(start as int);
            assert forall|q: int| 0 <= q < rest.len() implies rest[q] != '\n' by {
                assert(rest[q] == s@[start + q]);
            }
            lemma_lf_index_none(rest);
            assert(rest =~= s@.subrange(start as int, n as int));
            assert(strip_cr(rest) == rest || rest.last() == '\r');
        }
        let ghost old_r = r@.map_values(|l: Vec<char>| l@);
        let mut whole: Vec<char> = Vec::new();
        push_range(&mut whole, s, start, n);
        r.push(whole);
        assert(r@.map_values(|l: Vec<char>| l@) =~= old_r.push(s@.skip(start as int)));
        assert(r@.map_values(|l: Vec<char>| l@) =~= lines_of(s@));
    } else {
        assert(s@.skip(start as int) =~= Seq::<char>::empty());
        assert(r@.map_values(|l: Vec<char>| l@) =~= lines_of(s@));
    }
    r
}

/// `ls[from..to]` joined with line feeds between them.
pub fn join_line_range(ls: &Vec<Vec<char>>, from: usize, to: usize) -> (r: Vec<char>)
    requires
        from <= to <= ls.len(),
    ensures
        r@ == join_lines(ls@.map_values(|l: Vec<char>| l@).subrange(from as int, to as int)),
{
    let ghost all = ls@.map_values(|l: Vec<char>| l@);
    let mut r: Vec<char> = Vec::new();
    let mut k: usize = from;
    while k < to
        invariant
            from <= k <= to <= ls.len(),
            all == ls@.map_values(|l: Vec<char>| l@),
            r@ == join_lines(all.subrange(from as int, k as int)),
        decreases to - k,
    {
        let ghost prev = all.subrange(from as int, k as int);
        let ghost next = all.subrange(from as int, k + 1);
        assert(next.drop_last() =~= prev);
        if k > from {
            r.push('\n');
        }
        let line = &ls[k];
        push_range(&mut r, line, 0, line.len());
        assert(line@.subrange(0, line.len() as int) =~= line@);
        assert(r@ =~= join_lines(next));
        k = k + 1;
    }
    r
}

// ---------------------------------------------------------------------------
// Decimal numbers
// ---------------------------------------------------------------------------

/// The decimal digit for `d < 10`.
pub open spec fn digit(d: nat) -> char {
    if d == 0 { '0' } else if d == 1 { '1' } else if d == 2 { '2' } else if d == 3 { '3' }
    else if d == 4 { '4' } else if d == 5 { '5' } else if d == 6 { '6' } else if d == 7 { '7' }
    else if d == 8 { '8' } else { '9' }
}

/// `n` written in decimal.
pub open spec fn decimal(n: nat) -> Seq<char>
    decreases n,
{
    if n < 10 {
        seq![digit(n)]
    } else {
        decimal(n / 10).push(digit(n % 10))
    }
}

/// `n` written in decimal, with a minus sign when negative.
pub open spec fn signed_decimal(n: int) -> Seq<char> {
    if n < 0 {
        seq!['-'] + decimal((-n) as nat)
    } else {
        decimal(n as nat)
    }
}

fn digit_char(d: u64) -> (c: char)
    requires
        d < 10,
    ensures
        c == digit(d as nat),
{
    if d == 0 { '0' } else if d == 1 { '1' } else if d == 2 { '2' } else if d == 3 { '3' }
    else if d == 4 { '4' } else if d == 5 { '5' } else if d == 6 { '6' } else if d == 7 { '7' }
    else if d == 8 { '8' } else { '9' }
}

/// Appends `n` in decimal to `out`.
pub fn push_decimal(out: &mut Vec<char>, n: u64)
    ensures
        final(out)@ == old(out)@ + decimal(n as nat),
    decreases n,
{
    if n >= 10 {
        push_decimal(out, n / 10);
    }
    out.push(digit_char(n % 10));
    assert(final(out)@ =~= old(out)@ + decimal(n as nat));
}

/// `n` in decimal, with a minus sign when negative.
pub fn signed_decimal_string(n: i32) -> (r: String)
    ensures
        r@ == signed_decimal(n as int),
{
    let mut v: Vec<char> = Vec::new();
    if n < 0 {
        v.push('-');
        let m: i64 = -(n as i64);
        push_decimal(&mut v, m as u64);
    } else {
        push_decimal(&mut v, n as u64);
    }
    assert(v@ =~= signed_decimal(n as int));
    string_of(v.as_slice())
}

/// `n` in decimal.
pub fn decimal_string(n: u64) -> (r: String)
    ensures
        r@ == decimal(n as nat),
{
    let mut v: Vec<char> = Vec::new();
    push_decimal(&mut v, n);
    assert(v@ =~= decimal(n as nat));
    string_of(v.as_slice())
}

// ---------------------------------------------------------------------------
// Replacing every occurrence
// ---------------------------------------------------------------------------

/// `s` with every occurrence of the non-empty `p`, found left to right
/// without overlap, replaced by `r`.
pub open spec fn replaced_all(s: Seq<char>, p: Seq<char>, r: Seq<char>) -> Seq<char>
    decreases s.len(),
{
    if s.len() == 0 {
        s
    } else if p.len() > 0 && matches_at(s, p, 0) {
        r + replaced_all(s.skip(p.len() as int), p, r)
    } else {
        seq![s[0]] + replaced_all(s.drop_first(), p, r)
    }
}

/// Replaces every occurrence of `p` in `s` by `r`.
pub fn replace_all_chars(s: &Vec<char>, p: &Vec<char>, r: &Vec<char>) -> (out: Vec<char>)
    ensures
        out@ == replaced_all(s@, p@, r@),
{
    let n = s.len();
    let m = p.len();
    let mut out: Vec<char> = Vec::new();
    let mut i: usize = 0;
    assert(s@.skip(0) =~= s@);
    while i < n
        invariant
            n == s.len(),
            m == p.len(),
            i <= n,
            replaced_all(s@, p@, r@) == out@ + replaced_all(s@.skip(i as int), p@, r@),
        decreases n - i,
    {
        let ghost u = s@.skip(i as int);
        if m > 0 && m <= n - i && match_here(s, p, i) {
            assert(u.subrange(0, m as int) =~= s@.subrange(i as int, i + m));
            assert(matches_at(u, p@, 0));
            assert(u.skip(m as int) =~= s@.skip(i + m));
            push_range(&mut out, r, 0, r.len());
            assert(r@.subrange(0, r.len() as int) =~= r@);
            i = i + m;
        } else {
            if m > 0 && m <= n - i {
                assert(u.subrange(0, m as int) =~= s@.subrange(i as int, i + m));
            }
            assert(u.drop_first() =~= s@.skip(i + 1));
            out.push(s[i]);
            i = i + 1;
        }
        assert(replaced_all(s@, p@, r@) =~= out@ + replaced_all(s@.skip(i as int), p@, r@));
    }
    assert(s@.skip(n as int) =~= Seq::<char>::empty());
    assert(out@ =~= replaced_all(s@, p@, r@));
    out
}

/// Whether `p` occurs somewhere in `s`.
pub fn occurs(s: &Vec<char>, p: &Vec<char>) -> (r: bool)
    ensures
        r == exists|i: int| matches_at(s@, p@, i),
{
    let n = s.len();
    let m = p.len();
    if m > n {
        return false;
    }
    let mut i: usize = 0;
    while i <= n - m
        invariant
            m <= n,
            n == s.len(),
            m == p.len(),
            forall|j: int| 0 <= j < i ==> !#[trigger] matches_at(s@, p@, j),
        decreases n - m + 1 - i,
    {
        if match_here(s, p, i) {
            return true;
        }
        if i == n - m {
            assert forall|j: int| !#[trigger] matches_at(s@, p@, j) by {
                if 0 <= j && j < i {
                    assert(!matches_at(s@, p@, j));
                }
            }
            return false;
        }
        i = i + 1;
    }
    false
}

} // verus!
