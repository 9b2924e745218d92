//! Source positions and spans, shared with the tokenizer that sits upstream
//! of this crate.

use vstd::prelude::*;

verus! {

/// A position in a source file: a one-based line, and an offset within the
/// line when one is known.
#[derive(Clone, Copy, Debug, PartialEq, Eq, Structural)]
pub struct Position {
    pub line: u32,
    pub offset: Option<u32>,
}

/// An item together with the source range it was read from.
#[derive(Clone, Copy, Debug)]
pub struct Spanned<T> {
    pub item: T,
    pub from: Position,
    pub to: Position,
}

impl<T> Spanned<T> {
    pub fn new(item: T, from: Position, to: Position) -> (r: Spanned<T>)
        ensures
            r.item == item,
            r.from == from,
            r.to == to,
    {
        Spanned { item, from, to }
    }

    /// A span of nothing, pointing nowhere.
    pub fn empty() -> (r: Spanned<()>)
        ensures
            r.from == (Position { line: 0, offset: None }),
            r.to == (Position { line: 0, offset: None }),
    {
        Spanned {
            item: (),
            from: Position { line: 0, offset: None },
            to: Position { line: 0, offset: None },
        }
    }

    /// Wraps `item` in a span reaching from the start of `s1` to the end of
    /// `s2`.
    pub fn encompass<A, B>(item: T, s1: Spanned<A>, s2: Spanned<B>) -> (r: Spanned<T>)
        ensures
            r.item == item,
            r.from == s1.from,
            r.to == s2.to,
    {
        Spanned { item, from: s1.from, to: s2.to }
    }

    /// Applies `f` to the item, keeping the span.
    pub fn map<U, F: FnOnce(&T) -> U>(&self, f: F) -> (r: Spanned<U>)
        requires
            call_requires(f, (&self.item,)),
        ensures
            r.from == self.from,
            r.to == self.to,
            call_ensures(f, (&self.item,), r.item),
    {
        Spanned { from: self.from, to: self.to, item: f(&self.item) }
    }

    /// The span alone, with the item dropped.
    pub fn just_span(&self) -> (r: Spanned<()>)
        ensures
            r.from == self.from,
            r.to == self.to,
    {
        Spanned { from: self.from, to: self.to, item: () }
    }
}

/// A failure of tokenization.  The tokenizer itself lives outside this crate;
/// its error type is shared data so that downstream diagnostics can carry it.
#[derive(Clone, Copy, Debug)]
pub enum ScanningError {
    UnexpectedCharacter(Spanned<char>),
    InvalidLiteral(Spanned<()>),
    UnexpectedEndOfFile,
    UnexpectedEndOfFileWhileParsing { token_kind: &'static str, start_position: Position },
}

} // verus!
