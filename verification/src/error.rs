//! Source positions and the error value that every stage reports.

use vstd::prelude::*;

verus! {

/// A position in a named source buffer.
///
/// `line` and `column` count from 1, `offset` counts characters from 0.
#[derive(Clone, Copy, Debug, PartialEq, Eq)]
pub struct Location<'f> {
    pub source: &'f str,
    pub line: usize,
    pub column: usize,
    pub offset: usize,
}

impl<'f> Location<'f> {
    /// The first position of the buffer called `source`.
    pub fn origin(source: &'f str) -> (r: Location<'f>)
        ensures
            r == (Location { source, line: 1, column: 1, offset: 0 }),
    {
        Location { source, line: 1, column: 1, offset: 0 }
    }
}

/// The kinds of error the language knows. The scanner raises `LexicalError`,
/// the parser `SyntaxError`; the other two belong to evaluation.
#[derive(Clone, Copy, Debug, PartialEq, Eq, Structural)]
pub enum ErrorKind {
    LexicalError,
    SyntaxError,
    TypeError,
    ValueError,
}

/// An error with the span of source it is about.
#[derive(Debug)]
pub struct Error<'f> {
    pub kind: ErrorKind,
    pub start: Location<'f>,
    pub end: Location<'f>,
    pub message: String,
}

impl<'f> Error<'f> {
    /// Whether this error has the given kind, span and message text.
    pub open spec fn is(
        &self,
        kind: ErrorKind,
        start: Location<'f>,
        end: Location<'f>,
        message: Seq<char>,
    ) -> bool {
        &&& self.kind == kind
        &&& self.start == start
        &&& self.end == end
        &&& self.message@ == message
    }

    pub fn new(kind: ErrorKind, start: Location<'f>, end: Location<'f>, message: String) -> (r:
        Error<'f>)
        ensures
            r.is(kind, start, end, message@),
    {
        Error { kind, start, end, message }
    }

    /// The name of the error's kind, as it is shown to users.
    pub fn kind_name(&self) -> (r: &'static str)
        ensures
            r@ == kind_text(self.kind),
    {
        match self.kind {
            ErrorKind::LexicalError => "LexicalError",
            ErrorKind::SyntaxError => "SyntaxError",
            ErrorKind::TypeError => "TypeError",
            ErrorKind::ValueError => "ValueError",
        }
    }
}

/// The name of each kind of error.
pub open spec fn kind_text(kind: ErrorKind) -> Seq<char> {
    match kind {
        ErrorKind::LexicalError => "LexicalError"@,
        ErrorKind::SyntaxError => "SyntaxError"@,
        ErrorKind::TypeError => "TypeError"@,
        ErrorKind::ValueError => "ValueError"@,
    }
}

} // verus!
