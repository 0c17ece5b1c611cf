//! Lexical tokens produced by the query lexer, with character spans into
//! the original query string.

use crate::strutil::{chars_of, chars_to_string};
use vstd::prelude::*;

verus! {

broadcast use vstd::std_specs::vec::group_vec_axioms;

/// A lexical category, carrying the token's text where it is not fixed.
#[derive(Debug, PartialEq, Clone)]
pub enum TokenType {
    Eoq,
    Error { msg: String },

    Colon,
    Comma,
    CurrentKey,
    DoubleDot,
    Filter,
    Index { value: String },
    Key { value: String },
    KeyDoubleQuoted { value: String },
    KeySingleQuoted { value: String },
    Keys,
    KeysFilter,
    LBracket,
    Name { value: String },
    RBracket,
    Root,
    Wild,

    And,
    Current,
    DoubleQuoteString { value: String },
    Eq,
    False,
    Float { value: String },
    Function { name: String },
    Ge,
    Gt,
    Int { value: String },
    Le,
    LParen,
    Lt,
    Ne,
    Not,
    Null,
    Or,
    RParen,
    SingleQuoteString { value: String },
    True,
}

/// The display text of a lexical category: fixed syntax between backticks,
/// a carried token text between backticks (bare for number lexemes), and a
/// lexical fault as `error: ` followed by its message.
pub open spec fn token_kind_str(t: TokenType) -> Seq<char> {
    match t {
        TokenType::Eoq => "`end of query`"@,
        TokenType::Error { msg } => "error: "@ + msg@,
        TokenType::Colon => "`:`"@,
        TokenType::Comma => "`,`"@,
        TokenType::CurrentKey => "`#`"@,
        TokenType::DoubleDot => "`..`"@,
        TokenType::Filter => "`?`"@,
        TokenType::Index { value } => seq!['`'] + value@ + seq!['`'],
        TokenType::Key { value } => seq!['`', '~'] + value@ + seq!['`'],
        TokenType::KeyDoubleQuoted { value } => seq!['`'] + value@ + seq!['`'],
        TokenType::KeySingleQuoted { value } => seq!['`'] + value@ + seq!['`'],
        TokenType::Keys => "`~`"@,
        TokenType::KeysFilter => "`~?`"@,
        TokenType::LBracket => "`[`"@,
        TokenType::Name { value } => seq!['`'] + value@ + seq!['`'],
        TokenType::RBracket => "`]`"@,
        TokenType::Root => "`$`"@,
        TokenType::Wild => "`*`"@,
        TokenType::And => "`&&`"@,
        TokenType::Current => "`@`"@,
        TokenType::DoubleQuoteString { value } => seq!['`'] + value@ + seq!['`'],
        TokenType::Eq => "`==`"@,
        TokenType::False => "`false`"@,
        TokenType::Float { value } => value@,
        TokenType::Function { name } => seq!['`'] + name@ + seq!['`'],
        TokenType::Ge => "`>=`"@,
        TokenType::Gt => "`>`"@,
        TokenType::Int { value } => value@,
        TokenType::Le => "`<=`"@,
        TokenType::LParen => "`(`"@,
        TokenType::Lt => "`<`"@,
        TokenType::Ne => "`!=`"@,
        TokenType::Not => "`!`"@,
        TokenType::Null => "`null`"@,
        TokenType::Or => "`||`"@,
        TokenType::RParen => "`)`"@,
        TokenType::SingleQuoteString { value } => seq!['`'] + value@ + seq!['`'],
        TokenType::True => "`true`"@,
    }
}

/// Wraps a token's text in backticks, with `prefix` before it.
fn backticked(prefix: Option<char>, value: &String) -> (r: String)
    ensures
        match prefix {
            Option::Some(p) => r@ == seq!['`', p] + value@ + seq!['`'],
            Option::None => r@ == seq!['`'] + value@ + seq!['`'],
        },
{
    let mut out: Vec<char> = Vec::new();
    out.push('`');
    match prefix {
        Option::Some(p) => {
            out.push(p);
        },
        Option::None => {},
    }
    let mut vs = chars_of(value.as_str());
    out.append(&mut vs);
    out.push('`');
    proof {
        match prefix {
            Option::Some(p) => {
                assert(out@ =~= seq!['`', p] + value@ + seq!['`']);
            },
            Option::None => {
                assert(out@ =~= seq!['`'] + value@ + seq!['`']);
            },
        }
    }
    chars_to_string(out)
}

/// The display text of a lexical category.
pub fn token_kind_text(t: &TokenType) -> (r: String)
    ensures
        r@ == token_kind_str(*t),
{
    match t {
        TokenType::Eoq => "`end of query`".to_owned(),
        TokenType::Error { msg } => {
            let mut out = chars_of("error: ");
            let mut ms = chars_of(msg.as_str());
            out.append(&mut ms);
            proof {
                assert(out@ =~= "error: "@ + msg@);
            }
            chars_to_string(out)
        },
        TokenType::Colon => "`:`".to_owned(),
        TokenType::Comma => "`,`".to_owned(),
        TokenType::CurrentKey => "`#`".to_owned(),
        TokenType::DoubleDot => "`..`".to_owned(),
        TokenType::Filter => "`?`".to_owned(),
        TokenType::Index { value } => backticked(None, value),
        TokenType::Key { value } => backticked(Some('~'), value),
        TokenType::KeyDoubleQuoted { value } => backticked(None, value),
        TokenType::KeySingleQuoted { value } => backticked(None, value),
        TokenType::Keys => "`~`".to_owned(),
        TokenType::KeysFilter => "`~?`".to_owned(),
        TokenType::LBracket => "`[`".to_owned(),
        TokenType::Name { value } => backticked(None, value),
        TokenType::RBracket => "`]`".to_owned(),
        TokenType::Root => "`$`".to_owned(),
        TokenType::Wild => "`*`".to_owned(),
        TokenType::And => "`&&`".to_owned(),
        TokenType::Current => "`@`".to_owned(),
        TokenType::DoubleQuoteString { value } => backticked(None, value),
        TokenType::Eq => "`==`".to_owned(),
        TokenType::False => "`false`".to_owned(),
        TokenType::Float { value } => value.clone(),
        TokenType::Function { name } => backticked(None, name),
        TokenType::Ge => "`>=`".to_owned(),
        TokenType::Gt => "`>`".to_owned(),
        TokenType::Int { value } => value.clone(),
        TokenType::Le => "`<=`".to_owned(),
        TokenType::LParen => "`(`".to_owned(),
        TokenType::Lt => "`<`".to_owned(),
        TokenType::Ne => "`!=`".to_owned(),
        TokenType::Not => "`!`".to_owned(),
        TokenType::Null => "`null`".to_owned(),
        TokenType::Or => "`||`".to_owned(),
        TokenType::RParen => "`)`".to_owned(),
        TokenType::SingleQuoteString { value } => backticked(None, value),
        TokenType::True => "`true`".to_owned(),
    }
}

/// A JSONPath expression token, as produced by the lexer.
pub struct Token {
    pub kind: TokenType,
    pub span: (usize, usize),
}

impl Token {
    pub fn new(kind: TokenType, start: usize, end: usize) -> (t: Self)
        ensures
            t.kind == kind,
            t.span == (start, end),
    {
        Self { kind, span: (start, end) }
    }
}

} // verus!
