//! Bounded per-file undo history.
use vstd::prelude::*;
use crate::text::chars_of;

verus! {

/// Default number of snapshots kept for each file.
pub const DEFAULT_MAX_UNDO_HISTORY: usize = 10;

/// The snapshots kept for one path, oldest first.
pub struct FileHistory {
    pub path: String,
    pub snapshots: Vec<String>,
}

impl FileHistory {
    /// The snapshots as character sequences, oldest first.
    pub open spec fn stack(&self) -> Seq<Seq<char>> {
        self.snapshots@.map_values(|s: String| s@)
    }
}

/// `s` with `x` pushed on top, then cut to its newest `max` entries when
/// `max` is positive.
pub open spec fn bounded_push(s: Seq<Seq<char>>, x: Seq<char>, max: nat) -> Seq<Seq<char>> {
    let t = s.push(x);
    if max > 0 && t.len() > max {
        t.subrange(t.len() - max, t.len() as int)
    } else {
        t
    }
}

/// The stack kept for `p` among `es`: that of the last entry for `p`, or
/// empty.
pub open spec fn stack_in(es: Seq<FileHistory>, p: Seq<char>) -> Seq<Seq<char>>
    decreases es.len(),
{
    if es.len() == 0 {
        seq![]
    } else if es.last().path@ == p {
        es.last().stack()
    } else {
        stack_in(es.drop_last(), p)
    }
}

/// Snapshots of prior file contents, per path, each stack bounded by a
/// maximum (zero means unbounded).
pub struct UndoHistory {
    entries: Vec<FileHistory>,
    max_per_file: usize,
}

proof fn lemma_stack_in_absent(es: Seq<FileHistory>, p: Seq<char>)
    requires
        forall|j: int| 0 <= j < es.len() ==> (#[trigger] es[j]).path@ != p,
    ensures
        stack_in(es, p) == Seq::<Seq<char>>::empty(),
    decreases es.len(),
{
    if es.len() > 0 {
        lemma_stack_in_absent(es.drop_last(), p);
    }
}

proof fn lemma_stack_in_last(es: Seq<FileHistory>, p: Seq<char>, i: int)
    requires
        0 <= i < es.len(),
        es[i].path@ == p,
        forall|j: int| i < j < es.len() ==> (#[trigger] es[j]).path@ != p,
    ensures
        stack_in(es, p) == es[i].stack(),
    decreases es.len(),
{
    if i < es.len() - 1 {
        lemma_stack_in_last(es.drop_last(), p, i);
    }
}

proof fn lemma_stack_in_remove(es: Seq<FileHistory>, i: int, q: Seq<char>)
    requires
        0 <= i < es.len(),
        es[i].path@ != q,
    ensures
        stack_in(es.remove(i), q) == stack_in(es, q),
    decreases es.len(),
{
    if i < es.len() - 1 {
        assert(es.remove(i).drop_last() =~= es.drop_last().remove(i));
        assert(es.remove(i).last() == es.last());
        lemma_stack_in_remove(es.drop_last(), i, q);
    } else {
        assert(es.remove(i) =~= es.drop_last());
    }
}

proof fn lemma_stack_bounded(es: Seq<FileHistory>, p: Seq<char>, max: nat)
    requires
        forall|j: int| 0 <= j < es.len() ==> (#[trigger] es[j]).snapshots.len() <= max,
    ensures
        stack_in(es, p).len() <= max,
    decreases es.len(),
{
    if es.len() > 0 {
        assert(es.last() == es[es.len() - 1]);
        lemma_stack_bounded(es.drop_last(), p, max);
    }
}

impl UndoHistory {
    /// The snapshots kept for `p`, oldest first.
    pub closed spec fn stack(&self, p: Seq<char>) -> Seq<Seq<char>> {
        stack_in(self.entries@, p)
    }

    /// The bound on each stack; zero means unbounded.
    pub closed spec fn max(&self) -> nat {
        self.max_per_file as nat
    }

    /// Every stack respects the bound.
    pub closed spec fn wf(&self) -> bool {
        self.max_per_file > 0 ==> forall|j: int|
            0 <= j < self.entries@.len() ==> (#[trigger] self.entries@[j]).snapshots.len()
                <= self.max_per_file
    }

    /// An empty history whose stacks keep at most `max_per_file` snapshots
    /// (all of them when it is zero).
    pub fn new(max_per_file: usize) -> (r: UndoHistory)
        ensures
            r.wf(),
            r.max() == max_per_file,
            forall|p: Seq<char>| #[trigger] r.stack(p) == Seq::<Seq<char>>::empty(),
    {
        UndoHistory { entries: Vec::new(), max_per_file }
    }

    /// The bound on each stack; zero means unbounded.
    pub fn max_per_file(&self) -> (r: usize)
        ensures
            r == self.max(),
    {
        self.max_per_file
    }

    /// A history never holds more snapshots for a path than its bound.
    pub proof fn lemma_bounded(&self, p: Seq<char>)
        requires
            self.wf(),
            self.max() > 0,
        ensures
            self.stack(p).len() <= self.max(),
    {
        lemma_stack_bounded(self.entries@, p, self.max());
    }

    /// Index of the last entry for `path`.
    fn find(&self, path: &String) -> (r: Option<usize>)
        ensures
            match r {
                None => forall|j: int|
                    0 <= j < self.entries@.len() ==> (#[trigger] self.entries@[j]).path@ != path@,
                Some(i) => {
                    &&& i < self.entries@.len()
                    &&& self.entries@[i as int].path@ == path@
                    &&& forall|j: int|
                        i < j < self.entries@.len() ==> (#[trigger] self.entries@[j]).path@
                            != path@
                },
            },
    {
        let mut k: usize = self.entries.len();
        while k > 0
            invariant
                k <= self.entries@.len(),
                forall|j: int|
                    k <= j < self.entries@.len() ==> (#[trigger] self.entries@[j]).path@
                        != path@,
            decreases k,
        {
            k = k - 1;
            if self.entries[k].path == *path {
                return Some(k);
            }
        }
        None
    }

    /// Pushes `snapshot` on the stack of `path`, dropping the oldest
    /// snapshots beyond the bound.
    pub fn save(&mut self, path: &str, snapshot: String)
        requires
            old(self).wf(),
        ensures
            final(self).wf(),
            final(self).max() == old(self).max(),
            final(self).stack(path@) == bounded_push(old(self).stack(path@), snapshot@, old(self).max()),
            forall|q: Seq<char>| q != path@ ==> #[trigger] final(self).stack(q) == old(self).stack(q),
    {
        let key = String::from_str(path);
        let ghost es = self.entries@;
        let mut entry = match self.find(&key) {
            Some(i) => {
                proof {
                    lemma_stack_in_last(es, path@, i as int);
                    assert forall|q: Seq<char>| q != path@ implies stack_in(es.remove(i as int), q)
                        == stack_in(es, q) by {
                        lemma_stack_in_remove(es, i as int, q);
                    }
                }
                self.entries.remove(i)
            },
            None => {
                proof {
                    lemma_stack_in_absent(es, path@);
                }
                FileHistory { path: key, snapshots: Vec::new() }
            },
        };
        let ghost before = entry.stack();
        entry.snapshots.push(snapshot);
        let max = self.max_per_file;
        if max > 0 && entry.snapshots.len() > max {
            let excess = entry.snapshots.len() - max;
            let mut kept: Vec<String> = Vec::new();
            let mut k: usize = excess;
            while k < entry.snapshots.len()
                invariant
                    excess <= k <= entry.snapshots.len(),
                    kept@ == entry.snapshots@.subrange(excess as int, k as int),
                decreases entry.snapshots.len() - k,
            {
                kept.push(entry.snapshots[k].clone());
                k = k + 1;
                assert(kept@ =~= entry.snapshots@.subrange(excess as int, k as int));
            }
            assert(kept@.map_values(|s: String| s@) =~= bounded_push(before, snapshot@, max as nat));
            entry.snapshots = kept;
        } else {
            assert(entry.stack() =~= bounded_push(before, snapshot@, max as nat));
        }
        let ghost mid = self.entries@;
        self.entries.push(entry);
        proof {
            assert(self.entries@.drop_last() == mid);
            assert forall|j: int| 0 <= j < self.entries@.len() && max > 0 implies
                (#[trigger] self.entries@[j]).snapshots.len() <= max by {
                if j < mid.len() {
                    assert(self.entries@[j] == mid[j]);
                }
            }
        }
    }

    /// Pops the newest snapshot of `path`, if there is one.
    pub fn pop(&mut self, path: &str) -> (r: Option<String>)
        requires
            old(self).wf(),
        ensures
            final(self).wf(),
            final(self).max() == old(self).max(),
            old(self).stack(path@).len() == 0 ==> r is None && final(self).stack(path@)
                == old(self).stack(path@),
            old(self).stack(path@).len() > 0 ==> r is Some && r->0@ == old(self).stack(path@).last()
                && final(self).stack(path@) == old(self).stack(path@).drop_last(),
            forall|q: Seq<char>| q != path@ ==> #[trigger] final(self).stack(q) == old(self).stack(q),
    {
        let key = String::from_str(path);
        let ghost es = self.entries@;
        match self.find(&key) {
            None => {
                proof {
                    lemma_stack_in_absent(es, path@);
                }
                None
            },
            Some(i) => {
                proof {
                    lemma_stack_in_last(es, path@, i as int);
                    assert forall|q: Seq<char>| q != path@ implies stack_in(es.remove(i as int), q)
                        == stack_in(es, q) by {
                        lemma_stack_in_remove(es, i as int, q);
                    }
                }
                if self.entries[i].snapshots.len() == 0 {
                    return None;
                }
                let mut entry = self.entries.remove(i);
                let ghost before = entry.stack();
                let top = entry.snapshots.pop();
                assert(entry.stack() =~= before.drop_last());
                let ghost mid = self.entries@;
                self.entries.push(entry);
                proof {
                    assert(self.entries@.drop_last() == mid);
                    assert forall|j: int| 0 <= j < self.entries@.len() && self.max_per_file > 0
                        implies (#[trigger] self.entries@[j]).snapshots.len() <= self.max_per_file by {
                        if j < mid.len() {
                            assert(self.entries@[j] == mid[j]);
                            assert(mid[j] == es.remove(i as int)[j]);
                        } else {
                            assert(es[i as int].snapshots.len() <= self.max_per_file);
                        }
                    }
                }
                top
            },
        }
    }
}

/// Undoing right after a save gives back exactly the saved snapshot,
/// whatever the stack held and whatever the bound; and when nothing had to
/// be dropped, the stack that remains is the one before the save.
pub proof fn lemma_undo_after_save(s: Seq<Seq<char>>, x: Seq<char>, max: nat)
    ensures
        bounded_push(s, x, max).len() > 0,
        bounded_push(s, x, max).last() == x,
        (max == 0 || s.len() < max) ==> bounded_push(s, x, max).drop_last() == s,
{
    let t = s.push(x);
    if max > 0 && t.len() > max {
        assert(bounded_push(s, x, max).last() == t[t.len() - 1]);
    } else {
        assert(t.drop_last() =~= s);
    }
}

/// A save never leaves more than the bound on a stack that respected it,
/// and what it drops is the oldest: the result is the newest entries of
/// the stack with the snapshot on top.
pub proof fn lemma_save_drops_oldest(s: Seq<Seq<char>>, x: Seq<char>, max: nat)
    requires
        max > 0,
        s.len() <= max,
    ensures
        bounded_push(s, x, max).len() <= max,
        s.len() == max ==> bounded_push(s, x, max) == s.subrange(1, s.len() as int).push(x),
        s.len() < max ==> bounded_push(s, x, max) == s.push(x),
{
    if s.len() == max {
        assert(bounded_push(s, x, max) =~= s.subrange(1, s.len() as int).push(x));
    }
}

/// The stack after saving `cs` in order on top of `s`.
pub open spec fn saved_all(s: Seq<Seq<char>>, cs: Seq<Seq<char>>, max: nat) -> Seq<Seq<char>>
    decreases cs.len(),
{
    if cs.len() == 0 {
        s
    } else {
        bounded_push(saved_all(s, cs.drop_last(), max), cs.last(), max)
    }
}

/// After any sequence of saves `cs` on an empty stack with a positive
/// bound `max`, the stack holds the newest `min(k, max)` snapshots in
/// order, the oldest having been dropped first: undoing `i` times, for
/// `i` up to that number, gives back `cs[k - i]`, and one more undo finds
/// nothing.
pub proof fn lemma_saves_keep_newest(cs: Seq<Seq<char>>, max: nat)
    requires
        max > 0,
    ensures
        ({
            let k = cs.len() as int;
            let kept = if k <= max { k } else { max as int };
            &&& saved_all(seq![], cs, max) == cs.subrange(k - kept, k)
            &&& forall|i: int| 1 <= i <= kept ==> #[trigger] saved_all(seq![], cs, max)[kept - i] == cs[k - i]
        }),
    decreases cs.len(),
{
    let k = cs.len() as int;
    if k > 0 {
        let d = cs.drop_last();
        lemma_saves_keep_newest(d, max);
        let kd = if k - 1 <= max { k - 1 } else { max as int };
        let prev = d.subrange(k - 1 - kd, k - 1);
        assert(prev.push(cs.last()) =~= cs.subrange(k - 1 - kd, k));
        let t = prev.push(cs.last());
        if t.len() > max {
            assert(t.subrange(t.len() - max, t.len() as int) =~= cs.subrange(k - max, k));
        }
    } else {
        assert(cs.subrange(0, 0) =~= Seq::<Seq<char>>::empty());
    }
}

/// `c` is an ASCII decimal digit.
pub open spec fn is_digit(c: char) -> bool {
    '0' <= c && c <= '9'
}

/// The value of the decimal digits `s`.
pub open spec fn digits_value(s: Seq<char>) -> int
    decreases s.len(),
{
    if s.len() == 0 {
        0
    } else {
        digits_value(s.drop_last()) * 10 + (s.last() as int - '0' as int)
    }
}

/// `s` without one leading `+`.
pub open spec fn sign_stripped(s: Seq<char>) -> Seq<char> {
    if s.len() > 0 && s[0] == '+' { s.drop_first() } else { s }
}

/// What `str::parse::<usize>` accepts: an optional `+`, then at least one
/// ASCII digit, with a value that fits in `usize`.
pub open spec fn parsed_usize(s: Seq<char>) -> Option<int> {
    let d = sign_stripped(s);
    if d.len() > 0 && (forall|i: int| 0 <= i < d.len() ==> is_digit(#[trigger] d[i]))
        && digits_value(d) <= usize::MAX {
        Some(digits_value(d))
    } else {
        None
    }
}

/// The history depth configured by `value` (the text of a setting, if
/// set): its number when it is one, else the default of 10.
pub fn history_limit_from(value: Option<&str>) -> (r: usize)
    ensures
        r == match value {
            Some(v) => match parsed_usize(v@) {
                Some(n) => n,
                None => DEFAULT_MAX_UNDO_HISTORY as int,
            },
            None => DEFAULT_MAX_UNDO_HISTORY as int,
        },
{
    let v = match value {
        None => return DEFAULT_MAX_UNDO_HISTORY,
        Some(v) => v,
    };
    let s = chars_of(v);
    let start: usize = if s.len() > 0 && s[0] == '+' { 1 } else { 0 };
    let ghost d = sign_stripped(s@);
    assert(d =~= s@.skip(start as int));
    if start >= s.len() {
        return DEFAULT_MAX_UNDO_HISTORY;
    }
    let mut acc: u128 = 0;
    let mut over = false;
    let mut i: usize = start;
    assert(d.take(0) =~= Seq::<char>::empty());
    while i < s.len()
        invariant
            start <= i <= s.len(),
            s@ == v@,
            value == Some(v),
            d == sign_stripped(v@),
            d == s@.skip(start as int),
            forall|j: int| 0 <= j < i - start ==> is_digit(#[trigger] d[j]),
            over <==> digits_value(d.take(i - start)) > usize::MAX,
            !over ==> acc == digits_value(d.take(i - start)),
            digits_value(d.take(i - start)) >= 0,
        decreases s.len() - i,
    {
        let c = s[i];
        if !('0' <= c && c <= '9') {
            assert(d[i - start] == s@[i as int]);
            assert(!is_digit(d[i - start]));
            assert(!(forall|j: int| 0 <= j < d.len() ==> is_digit(#[trigger] d[j])));
            assert(parsed_usize(v@) is None);
            return DEFAULT_MAX_UNDO_HISTORY;
        }
        let ghost k = i - start;
        assert(d.take(k + 1).drop_last() =~= d.take(k));
        assert(d.take(k + 1).last() == c);
        let ghost prev = digits_value(d.take(k));
        let ghost next = digits_value(d.take(k + 1));
        assert(next == prev * 10 + (c as int - '0' as int));
        if !over {
            acc = acc * 10 + (c as u32 - '0' as u32) as u128;
            over = acc > usize::MAX as u128;
        } else {
            assert(next > usize::MAX) by (nonlinear_arith)
                requires
                    prev > usize::MAX,
                    next == prev * 10 + (c as int - '0' as int),
                    (c as int - '0' as int) >= 0,
            ;
        }
        i = i + 1;
    }
    assert(d.take(d.len() as int) =~= d);
    if over {
        DEFAULT_MAX_UNDO_HISTORY
    } else {
        acc as usize
    }
}

} // verus!
