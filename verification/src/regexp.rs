//! Regular-expression support for the `match` and `search` filter functions.
//!
//! What a regular expression accepts takes pages to state, so the outcome is
//! only named here: `regex_valid` names which patterns compile, and
//! `regex_found` names whether a pattern matches somewhere in a text. Both
//! depend on the pattern and the text alone.

use vstd::prelude::*;

verus! {

/// Whether `pattern` is a valid regular expression; names the success of
/// `regex::Regex::new`.
pub uninterp spec fn regex_valid(pattern: Seq<char>) -> bool;

/// Whether `pattern` matches anywhere in `text`; names the result of
/// `regex::Regex::is_match`.
pub uninterp spec fn regex_found(pattern: Seq<char>, text: Seq<char>) -> bool;

/// Relies on `regex::Regex::new` and `regex::Regex::is_match`: `new` accepts
/// exactly the valid patterns, and `is_match` reports whether the pattern
/// matches somewhere in the text, a function of pattern and text alone.
#[verifier::external_body]
pub fn regex_is_match(pattern: &str, text: &str) -> (r: Option<bool>)
    ensures
        r is Some <==> regex_valid(pattern@),
        r is Some ==> r->0 == regex_found(pattern@, text@),
{
    match regex::Regex::new(pattern) {
        Ok(re) => Some(re.is_match(text)),
        Err(_) => None,
    }
}

/// The pattern that accepts a text exactly when `pattern` accepts the whole
/// of it: `^(?:pattern)$`.
pub open spec fn anchored(pattern: Seq<char>) -> Seq<char> {
    seq!['^', '(', '?', ':'] + pattern + seq![')', '$']
}

/// Builds `^(?:pattern)$`.
pub fn anchor_pattern(pattern: &str) -> (r: String)
    ensures
        r@ == anchored(pattern@),
{
    let mut out: Vec<char> = Vec::new();
    out.push('^');
    out.push('(');
    out.push('?');
    out.push(':');
    let mut cs = crate::strutil::chars_of(pattern);
    out.append(&mut cs);
    out.push(')');
    out.push('$');
    proof {
        assert(out@ =~= anchored(pattern@));
    }
    crate::strutil::chars_to_string(out)
}

} // verus!
