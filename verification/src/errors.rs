//! Error values surfaced by the lexer, the parser, the type checker and the
//! evaluator. Errors are values, never panics; each carries its kind, its
//! message, and the span of query text it refers to as a pair of byte
//! offsets into the query string.

use crate::strutil::{chars_of, chars_to_string, dec_digits, push_u64_digits};
use vstd::prelude::*;

verus! {

/// The kind of a query error.
#[derive(Debug, Clone, Copy, PartialEq, Eq, Structural)]
pub enum JSONPathErrorType {
    LexerError,
    SyntaxError,
    TypeError,
    NameError,
    ExtError,
}

/// A query error: its kind, a rendered message, and the byte offsets of the
/// query text it refers to. An error that concerns no particular query text
/// (an evaluation error) carries the span `(0, 0)`; inside the parser, spans
/// count characters until the error is surfaced.
#[derive(Debug)]
pub struct JSONPathError {
    pub kind: JSONPathErrorType,
    pub msg: String,
    pub start: usize,
    pub end: usize,
}

impl JSONPathError {
    pub fn new(error: JSONPathErrorType, msg: String) -> (e: Self)
        ensures
            e.kind == error,
            e.msg@ == msg@,
            e.start == 0 && e.end == 0,
    {
        Self { kind: error, msg, start: 0, end: 0 }
    }

    pub fn syntax(msg: String) -> (e: Self)
        ensures
            e.kind == JSONPathErrorType::SyntaxError,
            e.msg@ == msg@,
            e.start == 0 && e.end == 0,
    {
        Self { kind: JSONPathErrorType::SyntaxError, msg, start: 0, end: 0 }
    }

    pub fn typ(msg: String) -> (e: Self)
        ensures
            e.kind == JSONPathErrorType::TypeError,
            e.msg@ == msg@,
            e.start == 0 && e.end == 0,
    {
        Self { kind: JSONPathErrorType::TypeError, msg, start: 0, end: 0 }
    }

    pub fn name(msg: String) -> (e: Self)
        ensures
            e.kind == JSONPathErrorType::NameError,
            e.msg@ == msg@,
            e.start == 0 && e.end == 0,
    {
        Self { kind: JSONPathErrorType::NameError, msg, start: 0, end: 0 }
    }

    pub fn ext(msg: String) -> (e: Self)
        ensures
            e.kind == JSONPathErrorType::ExtError,
            e.msg@ == msg@,
            e.start == 0 && e.end == 0,
    {
        Self { kind: JSONPathErrorType::ExtError, msg, start: 0, end: 0 }
    }

    /// The byte span of query text this error refers to.
    pub fn span(&self) -> (r: (usize, usize))
        ensures
            r == (self.start, self.end),
    {
        (self.start, self.end)
    }

    /// The rendered message.
    pub fn message(&self) -> (r: &str)
        ensures
            r@ == self.msg@,
    {
        self.msg.as_str()
    }
}

/// A message followed by the byte span it refers to: `<msg> (<start>..<end>)`.
pub open spec fn spanned(msg: Seq<char>, start: nat, end: nat) -> Seq<char> {
    msg + seq![' ', '('] + dec_digits(start) + seq!['.', '.'] + dec_digits(end) + seq![')']
}

/// Renders `msg (start..end)`.
pub fn render_spanned(msg: &str, start: usize, end: usize) -> (r: String)
    ensures
        r@ == spanned(msg@, start as nat, end as nat),
{
    let mut out = chars_of(msg);
    out.push(' ');
    out.push('(');
    push_u64_digits(start as u64, &mut out);
    out.push('.');
    out.push('.');
    push_u64_digits(end as u64, &mut out);
    out.push(')');
    proof {
        assert(out@ =~= spanned(msg@, start as nat, end as nat));
    }
    chars_to_string(out)
}

} // verus!
