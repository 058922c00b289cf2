//! Source positions and the span-aware AST wrapper.
//!
//! `Span` stores byte offsets only (`start` inclusive, `end` exclusive).
//! Line/column are derived on demand via [`LineIndex`].
use vstd::prelude::*;
use crate::text::{
    byte_len, byte_offset, char_width, lemma_byte_offset_full, lemma_byte_offset_mono,
    lemma_byte_offset_step, str_chars,
};

verus! {

/// Byte range in a source file. `start` is inclusive, `end` exclusive.
#[derive(Clone, Copy, Debug, PartialEq, Eq, Hash, Structural)]
pub struct Span {
    pub file_id: u32,
    pub start: u32,
    pub end: u32,
}

impl Span {
    pub fn new(file_id: u32, start: u32, end: u32) -> (r: Span)
        ensures
            r == (Span { file_id, start, end }),
    {
        Span { file_id, start, end }
    }

    /// Zero-length span at offset 0.
    pub fn unknown(file_id: u32) -> (r: Span)
        ensures
            r == (Span { file_id, start: 0, end: 0 }),
    {
        Span { file_id, start: 0, end: 0 }
    }

    pub open spec fn spec_merge(self, other: Span) -> Span {
        Span {
            file_id: self.file_id,
            start: if self.start <= other.start { self.start } else { other.start },
            end: if self.end >= other.end { self.end } else { other.end },
        }
    }

    /// Smallest span covering both `self` and `other` (keeps `self`'s file).
    pub fn merge(self, other: Span) -> (r: Span)
        ensures
            r == self.spec_merge(other),
    {
        Span {
            file_id: self.file_id,
            start: if self.start <= other.start { self.start } else { other.start },
            end: if self.end >= other.end { self.end } else { other.end },
        }
    }
}

/// Merging covers both spans, and is the smallest such span: its start is one
/// of the two starts and its end one of the two ends.
pub proof fn law_merge_covers(a: Span, b: Span)
    ensures
        a.spec_merge(b).start <= a.start,
        a.spec_merge(b).start <= b.start,
        a.spec_merge(b).end >= a.end,
        a.spec_merge(b).end >= b.end,
        a.spec_merge(b).start == a.start || a.spec_merge(b).start == b.start,
        a.spec_merge(b).end == a.end || a.spec_merge(b).end == b.end,
        a.spec_merge(b).file_id == a.file_id,
        a.start <= a.end && b.start <= b.end ==> a.spec_merge(b).start <= a.spec_merge(b).end,
{
}

/// A syntax node paired with the span it occupied in source.
#[derive(Clone, Debug)]
pub struct Spanned<T> {
    pub node: T,
    pub span: Span,
}

impl<T> Spanned<T> {
    /// Create a spanned node; the span must satisfy `start <= end` (a span
    /// that ends before it starts is a caller's error, asserted in debug
    /// builds).
    pub fn new(node: T, span: Span) -> (r: Self)
        requires
            span.start <= span.end,
        ensures
            r.node == node,
            r.span == span,
    {
        Spanned { node, span }
    }

    /// Apply a function to the inner node, keeping the span.
    pub fn map<U, F: FnOnce(T) -> U>(self, f: F) -> (r: Spanned<U>)
        requires
            call_requires(f, (self.node,)),
        ensures
            call_ensures(f, (self.node,), r.node),
            r.span == self.span,
    {
        Spanned { node: f(self.node), span: self.span }
    }

    pub fn as_ref(&self) -> (r: Spanned<&T>)
        ensures
            *r.node == self.node,
            r.span == self.span,
    {
        Spanned { node: &self.node, span: self.span }
    }
}

/// Byte offsets at which each line of `s` starts: line 1 at offset 0, and a
/// new line right after every `'\n'`.
pub open spec fn line_starts_of(s: Seq<char>) -> Seq<int>
    decreases s.len(),
{
    if s.len() == 0 {
        seq![0int]
    } else if s.last() == '\n' {
        line_starts_of(s.drop_last()).push(byte_len(s) as int)
    } else {
        line_starts_of(s.drop_last())
    }
}

/// Strictly increasing, starting at 0.
pub open spec fn starts_wf(ls: Seq<int>) -> bool {
    &&& ls.len() >= 1
    &&& ls[0] == 0
    &&& forall|a: int, b: int| 0 <= a < b < ls.len() ==> ls[a] < ls[b]
}

proof fn lemma_line_starts_wf(s: Seq<char>)
    ensures
        starts_wf(line_starts_of(s)),
        forall|k: int| 0 <= k < line_starts_of(s).len() ==> line_starts_of(s)[k] <= byte_len(s),
    decreases s.len(),
{
    if s.len() > 0 {
        lemma_line_starts_wf(s.drop_last());
    }
}

/// Whether line index `k` (0-based) is the line containing `off`: the last
/// line starting at or before it.
pub open spec fn is_line_of(ls: Seq<int>, off: int, k: int) -> bool {
    0 <= k < ls.len() && ls[k] <= off && (k + 1 == ls.len() || off < ls[k + 1])
}

/// 1-based `(line, column)` of byte offset `off`: the line is the last one
/// starting at or before `off`, the column is the byte distance from that
/// line's start plus one (capped at `usize::MAX`).
pub open spec fn line_col_of(ls: Seq<int>, off: int) -> (usize, usize) {
    let k = choose|k: int| is_line_of(ls, off, k);
    let col = off - ls[k] + 1;
    ((k + 1) as usize, if col <= usize::MAX { col as usize } else { usize::MAX })
}

proof fn lemma_line_unique(ls: Seq<int>, off: int, lo: int)
    requires
        starts_wf(ls),
        is_line_of(ls, off, lo),
    ensures
        (choose|k: int| is_line_of(ls, off, k)) == lo,
{
    let k = choose|k: int| is_line_of(ls, off, k);
    assert(is_line_of(ls, off, k));
    if k < lo {
        assert(ls[k + 1] <= ls[lo]);
    } else if k > lo {
        assert(ls[lo + 1] <= ls[k]);
    }
}

/// The number of `'\n'` characters in `s`.
pub open spec fn newline_count(s: Seq<char>) -> nat
    decreases s.len(),
{
    if s.len() == 0 {
        0
    } else if s.last() == '\n' {
        newline_count(s.drop_last()) + 1
    } else {
        newline_count(s.drop_last())
    }
}

/// A text has one line more than it has newlines: line 1 always starts at
/// offset 0, and a trailing newline opens an empty last line.
pub proof fn law_line_count_is_newlines_plus_one(s: Seq<char>)
    ensures
        line_starts_of(s).len() == newline_count(s) + 1,
    decreases s.len(),
{
    if s.len() > 0 {
        law_line_count_is_newlines_plus_one(s.drop_last());
    }
}

proof fn lemma_line_exists(ls: Seq<int>, off: int, k: int)
    requires
        starts_wf(ls),
        0 <= k < ls.len(),
        ls[k] <= off,
    ensures
        exists|j: int| k <= j && is_line_of(ls, off, j),
    decreases ls.len() - k,
{
    if k + 1 < ls.len() && ls[k + 1] <= off {
        lemma_line_exists(ls, off, k + 1);
    } else {
        assert(is_line_of(ls, off, k));
    }
}

/// The (line, column) of any offset of a text: the line is between 1 and the
/// number of lines and the column at least 1; a later offset never comes
/// earlier in (line, column) order; and an offset at or past the end of the
/// text lies on the last line.
pub proof fn law_line_col_ordered(s: Seq<char>, a: int, b: int)
    requires
        byte_len(s) < usize::MAX,
        0 <= a <= b,
    ensures
        1 <= line_col_of(line_starts_of(s), a).0 <= line_starts_of(s).len(),
        line_col_of(line_starts_of(s), a).1 >= 1,
        line_col_of(line_starts_of(s), a).0 < line_col_of(line_starts_of(s), b).0 || (
        line_col_of(line_starts_of(s), a).0 == line_col_of(line_starts_of(s), b).0
            && line_col_of(line_starts_of(s), a).1 <= line_col_of(line_starts_of(s), b).1),
        a >= byte_len(s) ==> line_col_of(line_starts_of(s), a).0 == line_starts_of(s).len(),
{
    let ls = line_starts_of(s);
    lemma_line_starts_wf(s);
    lemma_line_exists(ls, a, 0);
    lemma_line_exists(ls, b, 0);
    let ka = choose|k: int| is_line_of(ls, a, k);
    let kb = choose|k: int| is_line_of(ls, b, k);
    assert(is_line_of(ls, a, ka));
    assert(is_line_of(ls, b, kb));
    if kb < ka {
        assert(ls[kb + 1] <= ls[ka]);
    }
    if a >= byte_len(s) && ka + 1 < ls.len() {
        assert(ls[ka + 1] <= byte_len(s));
    }
    lemma_starts_grow(ls, ls.len() - 1);
}

proof fn lemma_starts_grow(ls: Seq<int>, k: int)
    requires
        starts_wf(ls),
        0 <= k < ls.len(),
    ensures
        ls[k] >= k,
    decreases k,
{
    if k > 0 {
        lemma_starts_grow(ls, k - 1);
    }
}

/// The line starts of a prefix of `s` (up to character `c`) are the first
/// line starts of `s`; every later one lies past the prefix.
proof fn lemma_starts_prefix(s: Seq<char>, c: int)
    requires
        0 <= c <= s.len(),
    ensures
        line_starts_of(s.take(c)).len() <= line_starts_of(s).len(),
        line_starts_of(s).take(line_starts_of(s.take(c)).len() as int) == line_starts_of(s.take(c)),
        forall|k: int|
            line_starts_of(s.take(c)).len() <= k < line_starts_of(s).len() ==> #[trigger] line_starts_of(
                s,
            )[k] > byte_offset(s, c),
    decreases s.len(),
{
    if c < s.len() {
        let t = s.drop_last();
        lemma_starts_prefix(t, c);
        assert(t.take(c) =~= s.take(c));
        lemma_byte_offset_mono(s, c, s.len() as int);
        lemma_byte_offset_full(s);
        let lt = line_starts_of(t);
        let m = line_starts_of(s.take(c)).len() as int;
        if s.last() == '\n' {
            assert(lt.push(byte_len(s) as int).take(m) =~= lt.take(m));
        }
    } else {
        assert(s.take(c) =~= s);
        assert(line_starts_of(s).take(line_starts_of(s).len() as int) =~= line_starts_of(s));
    }
}

/// At a character boundary of `s`, the line is one more than the number of
/// newlines before it, and the column counts bytes from the start of that
/// line (offset 0, or just after the last of those newlines) plus one.
pub proof fn law_line_col_counts_newlines(s: Seq<char>, c: int)
    requires
        byte_len(s) < usize::MAX,
        0 <= c <= s.len(),
    ensures
        line_col_of(line_starts_of(s), byte_offset(s, c) as int).0 == newline_count(s.take(c)) + 1,
        line_col_of(line_starts_of(s), byte_offset(s, c) as int).1 == byte_offset(s, c)
            - line_starts_of(s.take(c)).last() + 1,
{
    let ls = line_starts_of(s);
    let p = line_starts_of(s.take(c));
    let off = byte_offset(s, c) as int;
    lemma_starts_prefix(s, c);
    lemma_line_starts_wf(s);
    lemma_line_starts_wf(s.take(c));
    law_line_count_is_newlines_plus_one(s.take(c));
    let k = p.len() - 1;
    assert(ls[k] == p[k]);
    assert(p[k] <= byte_len(s.take(c)));
    if k + 1 < ls.len() {
        assert(ls[k + 1] > off);
    }
    assert(is_line_of(ls, off, k));
    lemma_line_unique(ls, off, k);
    lemma_starts_grow(ls, ls.len() - 1);
    lemma_byte_offset_mono(s, c, s.len() as int);
    lemma_byte_offset_full(s);
}

/// Index of line-start byte offsets, for converting a byte offset to a 1-based
/// `(line, col)`.
#[derive(Debug)]
pub struct LineIndex {
    line_starts: Vec<u32>,
}

impl LineIndex {
    #[verifier::type_invariant]
    spec fn inv(self) -> bool {
        starts_wf(self.line_starts@.map_values(|x: u32| x as int))
    }

    /// The byte offsets at which the lines start, in order.
    pub closed spec fn starts(self) -> Seq<int> {
        self.line_starts@.map_values(|x: u32| x as int)
    }

    pub fn new(source: &str) -> (r: Self)
        requires
            byte_len(source@) <= u32::MAX,
        ensures
            r.starts() == line_starts_of(source@),
    {
        let cs = str_chars(source);
        let mut line_starts: Vec<u32> = Vec::new();
        line_starts.push(0);
        let mut off: usize = 0;
        let mut i: usize = 0;
        proof {
            assert(cs@.take(0) =~= Seq::<char>::empty());
            assert(line_starts@.map_values(|x: u32| x as int) =~= line_starts_of(cs@.take(0)));
        }
        while i < cs.len()
            invariant
                cs@ == source@,
                byte_len(source@) <= u32::MAX,
                i <= cs.len(),
                off == byte_offset(cs@, i as int),
                line_starts@.map_values(|x: u32| x as int) == line_starts_of(cs@.take(i as int)),
            decreases cs.len() - i,
        {
            let ch = cs[i];
            proof {
                lemma_byte_offset_step(cs@, i as int);
                lemma_byte_offset_mono(cs@, i as int + 1, cs@.len() as int);
                lemma_byte_offset_full(cs@);
                assert(cs@.take(i as int + 1).drop_last() =~= cs@.take(i as int));
            }
            off = off + char_width(ch);
            i = i + 1;
            if ch == '\n' {
                line_starts.push(off as u32);
                assert(line_starts@.map_values(|x: u32| x as int) =~= line_starts_of(
                    cs@.take(i as int),
                ));
            }
        }
        proof {
            assert(cs@.take(cs@.len() as int) =~= cs@);
            lemma_line_starts_wf(cs@);
        }
        LineIndex { line_starts }
    }

    /// 1-based `(line, column)` for `byte_offset`: the line is the last one
    /// starting at or before the offset, the column counts bytes from that
    /// line's start plus one.
    pub fn line_col(&self, byte_offset: u32) -> (r: (usize, usize))
        ensures
            r == line_col_of(self.starts(), byte_offset as int),
    {
        proof {
            use_type_invariant(self);
        }
        let ghost ls = self.starts();
        // Find the last start <= byte_offset (line_starts[0] == 0).
        let mut lo: usize = 0;
        let mut hi: usize = self.line_starts.len();
        while lo + 1 < hi
            invariant
                ls == self.starts(),
                starts_wf(ls),
                ls.len() == self.line_starts.len(),
                0 <= lo < hi <= ls.len(),
                ls[lo as int] <= byte_offset,
                hi == ls.len() || byte_offset < ls[hi as int],
            decreases hi - lo,
        {
            let mid = lo + (hi - lo) / 2;
            if self.line_starts[mid] <= byte_offset {
                lo = mid;
            } else {
                hi = mid;
            }
        }
        let line_start = self.line_starts[lo];
        let diff = (byte_offset - line_start) as usize;
        let col = if diff < usize::MAX {
            diff + 1
        } else {
            diff
        };
        proof {
            lemma_line_unique(ls, byte_offset as int, lo as int);
        }
        (lo + 1, col)
    }

    pub fn line_count(&self) -> (r: usize)
        ensures
            r == self.starts().len(),
    {
        self.line_starts.len()
    }
}

} // verus!
