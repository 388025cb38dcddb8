//! Places in source files: spans of text and positions a cursor stands at.
use vstd::prelude::*;

verus! {

/// A stretch of a source file, from `start` up to, and not including, `end`, counted in
/// characters from the head of the file.
pub struct Span {
    /// The path of the file.
    pub file: String,
    /// Where the stretch begins.
    pub start: usize,
    /// Where the stretch ends; the character at `end` lies outside it.
    pub end: usize,
}

/// The place a cursor stands at in a source file.
pub struct SourcePos {
    /// The path of the file.
    pub file: String,
    /// The number of characters before the cursor.
    pub pos: usize,
}

impl Clone for Span {
    fn clone(&self) -> (r: Self)
        ensures
            r == *self,
    {
        Span { file: self.file.clone(), start: self.start, end: self.end }
    }
}

impl Clone for SourcePos {
    fn clone(&self) -> (r: Self)
        ensures
            r == *self,
    {
        SourcePos { file: self.file.clone(), pos: self.pos }
    }
}

/// A copy of an optional span.
pub fn clone_span_opt(s: &Option<Span>) -> (r: Option<Span>)
    ensures
        r == *s,
{
    match s {
        None => None,
        Some(sp) => Some(sp.clone()),
    }
}

impl Span {
    /// Whether the cursor at `pos` stands on a character of this stretch.
    pub fn includes_pos(&self, pos: &SourcePos) -> (r: bool)
        ensures
            r == (self.file@ == pos.file@ && self.start <= pos.pos < self.end),
    {
        self.file == pos.file && self.start <= pos.pos && pos.pos < self.end
    }

    /// Whether the cursor at `pos` touches this stretch, the place just after its last character
    /// included, as an editor places a cursor at the end of a word it stands on.
    pub fn includes_pos_lsp(&self, pos: &SourcePos) -> (r: bool)
        ensures
            r == (self.file@ == pos.file@ && self.start <= pos.pos <= self.end),
    {
        self.file == pos.file && self.start <= pos.pos && pos.pos <= self.end
    }

    /// The smallest stretch covering both `self` and `other`, which lie in one file.
    pub fn unite(&self, other: &Span) -> (r: Span)
        ensures
            r.file == self.file,
            r.start == if self.start <= other.start { self.start } else { other.start },
            r.end == if self.end >= other.end { self.end } else { other.end },
    {
        Span {
            file: self.file.clone(),
            start: if self.start <= other.start { self.start } else { other.start },
            end: if self.end >= other.end { self.end } else { other.end },
        }
    }

    /// The smallest stretch covering the spans that are there; none where neither is.
    pub fn unite_opt(lhs: &Option<Span>, rhs: &Option<Span>) -> (r: Option<Span>)
        ensures
            match (*lhs, *rhs) {
                (None, None) => r.is_none(),
                (Some(a), None) => r == Some(a),
                (None, Some(b)) => r == Some(b),
                (Some(a), Some(b)) => r is Some && r->0.file == a.file
                    && r->0.start == (if a.start <= b.start { a.start } else { b.start })
                    && r->0.end == (if a.end >= b.end { a.end } else { b.end }),
            },
    {
        match (lhs, rhs) {
            (None, None) => None,
            (Some(a), None) => Some(a.clone()),
            (None, Some(b)) => Some(b.clone()),
            (Some(a), Some(b)) => Some(a.unite(b)),
        }
    }

    /// The stretch of the first character of this one.
    pub fn to_head_character(&self) -> (r: Span)
        requires
            self.start < usize::MAX,
        ensures
            r.file == self.file,
            r.start == self.start,
            r.end == self.start + 1,
    {
        Span { file: self.file.clone(), start: self.start, end: self.start + 1 }
    }
}

} // verus!
