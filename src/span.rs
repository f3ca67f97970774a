use vstd::prelude::*;

use crate::error::{Error, ErrorCode};
use crate::fs::File;

verus! {

/// A line/column range in a source file: `start` and `end` are
/// `(line, column)` pairs.
#[derive(Debug, Clone, Copy)]
pub struct RangedPosition {
    pub start: (usize, usize),
    pub end: (usize, usize),
}

/// Lexicographic order on `(line, column)` pairs.
pub open spec fn pos_le(a: (usize, usize), b: (usize, usize)) -> bool {
    a.0 < b.0 || (a.0 == b.0 && a.1 <= b.1)
}

/// `p` is the earliest start among `s`.
pub open spec fn is_min_start(p: (usize, usize), s: Seq<RangedPosition>) -> bool {
    &&& exists|i: int| 0 <= i < s.len() && s[i].start == p
    &&& forall|i: int| 0 <= i < s.len() ==> pos_le(p, #[trigger] s[i].start)
}

/// `p` is the latest end among `s`.
pub open spec fn is_max_end(p: (usize, usize), s: Seq<RangedPosition>) -> bool {
    &&& exists|i: int| 0 <= i < s.len() && s[i].end == p
    &&& forall|i: int| 0 <= i < s.len() ==> pos_le(#[trigger] s[i].end, p)
}

/// The tightest range enclosing every range of `s`.
pub open spec fn is_merge_of(r: RangedPosition, s: Seq<RangedPosition>) -> bool {
    is_min_start(r.start, s) && is_max_end(r.end, s)
}

/// Merging is unique: the lexicographic order is total.
pub proof fn lemma_merge_unique(r1: RangedPosition, r2: RangedPosition, s: Seq<RangedPosition>)
    requires
        is_merge_of(r1, s),
        is_merge_of(r2, s),
    ensures
        r1 == r2,
{
    let i1 = choose|i: int| 0 <= i < s.len() && s[i].start == r1.start;
    let i2 = choose|i: int| 0 <= i < s.len() && s[i].start == r2.start;
    let j1 = choose|i: int| 0 <= i < s.len() && s[i].end == r1.end;
    let j2 = choose|i: int| 0 <= i < s.len() && s[i].end == r2.end;
    assert(pos_le(r1.start, s[i2].start));
    assert(pos_le(r2.start, s[i1].start));
    assert(pos_le(s[j2].end, r1.end));
    assert(pos_le(s[j1].end, r2.end));
}

impl RangedPosition {
    pub fn new(start: (usize, usize), end: (usize, usize)) -> (r: RangedPosition)
        ensures
            r.start == start,
            r.end == end,
    {
        RangedPosition { start, end }
    }
}

/// A value together with the place in a source file it was read from.
#[derive(Debug)]
pub struct Span<T> {
    pub range: RangedPosition,
    pub file: File,
    pub content: T,
}

/// A span whose content is boxed, as recursive AST nodes are.
pub type BoxedSpan<T> = Span<Box<T>>;

impl<T> Span<T> {
    pub fn new(range: RangedPosition, file: File, content: T) -> (r: Span<T>)
        ensures
            r.range == range,
            r.file == file,
            r.content == content,
    {
        Span { range, file, content }
    }

    /// A span covering all of `inner`: it starts at the earliest start and
    /// ends at the latest end.
    pub fn new_from_inner(inner: &[RangedPosition], file: File, content: T) -> (r: Span<T>)
        requires
            inner@.len() > 0,
        ensures
            is_merge_of(r.range, inner@),
            r.file == file,
            r.content == content,
    {
        let mut start = inner[0].start;
        let mut end = inner[0].end;
        let ghost mut si: int = 0;
        let ghost mut ei: int = 0;
        let mut i: usize = 1;
        while i < inner.len()
            invariant
                1 <= i <= inner@.len(),
                0 <= si < i,
                0 <= ei < i,
                inner@[si].start == start,
                inner@[ei].end == end,
                forall|j: int| 0 <= j < i ==> pos_le(start, #[trigger] inner@[j].start),
                forall|j: int| 0 <= j < i ==> pos_le(#[trigger] inner@[j].end, end),
            decreases inner@.len() - i,
        {
            let s = inner[i].start;
            if s.0 < start.0 || (s.0 == start.0 && s.1 <= start.1) {
                start = s;
                proof {
                    si = i as int;
                }
            }
            let e = inner[i].end;
            if e.0 > end.0 || (e.0 == end.0 && e.1 >= end.1) {
                end = e;
                proof {
                    ei = i as int;
                }
            }
            i = i + 1;
        }
        Span { range: RangedPosition { start, end }, file, content }
    }

    /// The same place, holding `f` applied to the content.
    pub fn map<U, F: FnOnce(T) -> U>(self, f: F) -> (r: Span<U>)
        requires
            f.requires((self.content,)),
        ensures
            r.range == self.range,
            r.file == self.file,
            f.ensures((self.content,), r.content),
    {
        let Span { range, file, content } = self;
        Span { content: f(content), range, file }
    }

    pub fn as_range(&self) -> (r: RangedPosition)
        ensures
            r == self.range,
    {
        self.range
    }

    pub fn content(&self) -> (r: &T)
        ensures
            *r == self.content,
    {
        &self.content
    }

    /// A diagnostic located at this span.
    pub fn as_error(&self, error_code: ErrorCode, message: String) -> (r: Error)
        ensures
            r.code == error_code,
            r.span.range == self.range,
            r.span.file == self.file,
            r.message == message,
    {
        Error::new(error_code, Span { content: (), range: self.range, file: self.file.clone() }, message)
    }

    /// A diagnostic located at this span, consuming it.
    pub fn into_error(self, error_code: ErrorCode, message: String) -> (r: Error)
        ensures
            r.code == error_code,
            r.span.range == self.range,
            r.span.file == self.file,
            r.message == message,
    {
        let Span { range, file, content: _ } = self;
        Error::new(error_code, Span { content: (), range, file }, message)
    }
}

impl<T> Span<Box<T>> {
    pub fn boxed(range: RangedPosition, file: File, content: T) -> (r: BoxedSpan<T>)
        ensures
            r.range == range,
            r.file == file,
            *r.content == content,
    {
        Span::new(range, file, Box::new(content))
    }

    pub fn boxed_from_inner(inner: &[RangedPosition], file: File, content: T) -> (r: BoxedSpan<T>)
        requires
            inner@.len() > 0,
        ensures
            is_merge_of(r.range, inner@),
            r.file == file,
            *r.content == content,
    {
        Span::new_from_inner(inner, file, Box::new(content))
    }
}

} // verus!
