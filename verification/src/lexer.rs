//! The query lexer: turns a query string into tokens with spans. Two
//! implicit modes, driven by a small bracket stack: inside `[?` the lexer
//! recognizes literals, keywords and operators; elsewhere it recognizes
//! path syntax. Spans count characters from the start of the query.

use crate::strutil::{char_from_u32, chars_of, chars_to_string};
use crate::token::{Token, TokenType};
use vstd::prelude::*;

verus! {

broadcast use vstd::std_specs::vec::group_vec_axioms;

/// Whether `c` can start a member-name shorthand.
fn is_name_first(c: char) -> bool {
    c == '_' || (c >= 'a' && c <= 'z') || (c >= 'A' && c <= 'Z') || (c as u32) >= 0x80
}

/// Whether `c` can continue a member-name shorthand.
fn is_name_char(c: char) -> bool {
    is_name_first(c) || (c >= '0' && c <= '9')
}

fn is_digit(c: char) -> bool {
    c >= '0' && c <= '9'
}

/// The value of a hexadecimal digit.
fn hex_val(c: char) -> (r: Option<u32>)
    ensures
        r is Some ==> r->0 < 16,
{
    if c >= '0' && c <= '9' {
        Some(c as u32 - 48)
    } else if c >= 'a' && c <= 'f' {
        Some(c as u32 - 87)
    } else if c >= 'A' && c <= 'F' {
        Some(c as u32 - 55)
    } else {
        None
    }
}

/// Scans an identifier starting at `start`; returns the index past its end.
#[verifier::loop_isolation(false)]
fn scan_ident(cs: &Vec<char>, start: usize) -> (end: usize)
    requires
        start < cs@.len(),
        cs@.len() <= usize::MAX,
    ensures
        start < end <= cs@.len(),
{
    let mut i = start + 1;
    while i < cs.len()
        invariant
            start < i <= cs@.len(),
        decreases cs@.len() - i,
    {
        if !is_name_char(cs[i]) {
            return i;
        }
        i = i + 1;
    }
    i
}

/// Four hexadecimal digits starting at `at`, as one code unit.
fn hex4(cs: &Vec<char>, at: usize) -> (r: Option<u32>)
    requires
        at + 4 <= cs@.len(),
        cs@.len() <= usize::MAX,
    ensures
        r is Some ==> r->0 < 0x10000,
{
    match (hex_val(cs[at]), hex_val(cs[at + 1]), hex_val(cs[at + 2]), hex_val(cs[at + 3])) {
        (Option::Some(a), Option::Some(b), Option::Some(c), Option::Some(d)) => Some(
            a * 4096 + b * 256 + c * 16 + d,
        ),
        _ => None,
    }
}

/// Scans a quoted string starting just after the opening quote. Returns the
/// decoded text and the index past the closing quote, or an error message
/// and position.
#[verifier::loop_isolation(false)]
fn scan_quoted(cs: &Vec<char>, start: usize, quote: char) -> (r: Result<
    (String, usize),
    (String, usize),
>)
    requires
        start <= cs@.len(),
        cs@.len() <= usize::MAX,
    ensures
        r is Ok ==> start < r->Ok_0.1 <= cs@.len(),
        r is Err ==> start <= r->Err_0.1 <= cs@.len(),
{
    let mut out: Vec<char> = Vec::new();
    let mut i = start;
    while i < cs.len()
        invariant
            start <= i <= cs@.len(),
        decreases cs@.len() - i,
    {
        let c = cs[i];
        if c == quote {
            return Ok((chars_to_string(out), i + 1));
        }
        if c == '\\' {
            if i + 1 >= cs.len() {
                return Err(("unterminated string".to_owned(), i));
            }
            let e = cs[i + 1];
            if e == 'n' {
                out.push('\n');
                i = i + 2;
            } else if e == 't' {
                out.push('\t');
                i = i + 2;
            } else if e == 'r' {
                out.push('\r');
                i = i + 2;
            } else if e == 'b' {
                out.push('\u{0008}');
                i = i + 2;
            } else if e == 'f' {
                out.push('\u{000C}');
                i = i + 2;
            } else if e == '/' {
                out.push('/');
                i = i + 2;
            } else if e == '\\' {
                out.push('\\');
                i = i + 2;
            } else if e == quote {
                out.push(quote);
                i = i + 2;
            } else if e == 'u' {
                if cs.len() - i < 6 {
                    return Err(("incomplete unicode escape".to_owned(), i));
                }
                let cu: u32;
                match hex4(cs, i + 2) {
                    Option::Some(v) => {
                        cu = v;
                    },
                    Option::None => {
                        return Err(("malformed unicode escape".to_owned(), i));
                    },
                }
                if cu >= 0xD800 && cu <= 0xDBFF {
                    // A high surrogate: a low surrogate must follow.
                    if cs.len() - i < 12 || cs[i + 6] != '\\' || cs[i + 7] != 'u' {
                        return Err(("lone high surrogate".to_owned(), i));
                    }
                    let lo: u32;
                    match hex4(cs, i + 8) {
                        Option::Some(v) => {
                            lo = v;
                        },
                        Option::None => {
                            return Err(("malformed low surrogate".to_owned(), i));
                        },
                    }
                    if lo < 0xDC00 || lo > 0xDFFF {
                        return Err(("malformed low surrogate".to_owned(), i));
                    }
                    let cp: u32 = 0x10000 + (cu - 0xD800) * 0x400 + (lo - 0xDC00);
                    match char_from_u32(cp) {
                        Option::Some(ch) => {
                            out.push(ch);
                        },
                        Option::None => {
                            return Err(("invalid code point".to_owned(), i));
                        },
                    }
                    i = i + 12;
                } else {
                    match char_from_u32(cu) {
                        Option::Some(ch) => {
                            out.push(ch);
                        },
                        Option::None => {
                            return Err(("lone low surrogate".to_owned(), i));
                        },
                    }
                    i = i + 6;
                }
            } else {
                return Err(("unknown escape".to_owned(), i));
            }
        } else if (c as u32) < 0x20 {
            return Err(("unescaped control character".to_owned(), i));
        } else {
            out.push(c);
            i = i + 1;
        }
    }
    Err(("unterminated string".to_owned(), i))
}

/// Scans a number starting at `start` (a `-` or a digit). Returns the
/// lexeme, whether it is a float, and the index past its end.
#[verifier::loop_isolation(false)]
fn scan_number(cs: &Vec<char>, start: usize) -> (r: (String, bool, usize))
    requires
        start < cs@.len(),
        cs@.len() <= usize::MAX,
    ensures
        start < r.2 <= cs@.len(),
{
    let mut out: Vec<char> = Vec::new();
    let mut i = start;
    let mut is_float = false;
    if cs[i] == '-' {
        out.push('-');
        proof {
            assert(i < cs@.len());
        }
        i = i + 1;
    }
    while i < cs.len()
        invariant
            start <= i <= cs@.len(),
        decreases cs@.len() - i,
    {
        if !is_digit(cs[i]) {
            break;
        }
        out.push(cs[i]);
        i = i + 1;
    }
    if i < cs.len() && cs[i] == '.' && i + 1 < cs.len() && is_digit(cs[i + 1]) {
        is_float = true;
        out.push('.');
        i = i + 1;
        while i < cs.len()
            invariant
                start <= i <= cs@.len(),
            decreases cs@.len() - i,
        {
            if !is_digit(cs[i]) {
                break;
            }
            out.push(cs[i]);
            i = i + 1;
        }
    }
    if i < cs.len() && (cs[i] == 'e' || cs[i] == 'E') {
        let mut j = i + 1;
        if j < cs.len() && (cs[j] == '+' || cs[j] == '-') {
            j = j + 1;
        }
        if j < cs.len() && is_digit(cs[j]) {
            is_float = true;
            out.push('e');
            if cs[i + 1] == '+' || cs[i + 1] == '-' {
                out.push(cs[i + 1]);
            }
            i = j;
            while i < cs.len()
                invariant
                    start <= i <= cs@.len(),
                decreases cs@.len() - i,
            {
                if !is_digit(cs[i]) {
                    break;
                }
                out.push(cs[i]);
                i = i + 1;
            }
        }
    }
    if i == start || (i == start + 1 && cs[start] == '-') {
        // A lone minus: leave one character consumed so the caller reports it.
        return (chars_to_string(out), false, start + 1);
    }
    (chars_to_string(out), is_float, i)
}

/// Splits a query string into tokens. The token list always ends with
/// either an `Eoq` token or a single `Error` token describing the first
/// lexical fault; no other token is an `Eoq` or an `Error`. Each token's
/// span lies within the query and starts no earlier than the previous
/// token's end; a final `Eoq` stands exactly at the end of the query.
/// Spans count characters.
#[verifier::loop_isolation(false)]
pub fn lex(query: &str) -> (r: Vec<Token>)
    ensures
        r@.len() >= 1,
        r@.last().kind is Eoq || r@.last().kind is Error,
        forall|k: int|
            0 <= k < r@.len() - 1 ==> !((#[trigger] r@[k]).kind is Eoq) && !(r@[k].kind
                is Error),
        r@.last().kind is Eoq ==> r@.last().span.0 == query@.len() && r@.last().span.1
            == query@.len(),
        forall|k: int|
            0 <= k < r@.len() ==> (#[trigger] r@[k]).span.0 <= r@[k].span.1 <= query@.len(),
        forall|k: int| 0 <= k < r@.len() - 1 ==> (#[trigger] r@[k]).span.1 <= r@[k + 1].span.0,
{
    let cs = chars_of(query);
    let total_len = cs.len();
    proof {
        assert(cs@.len() <= usize::MAX);
    }
    let mut tokens: Vec<Token> = Vec::new();
    // Bracket contexts: `true` for a bracket that has seen its `?`.
    let mut stack: Vec<bool> = Vec::new();
    let mut i: usize = 0;
    while i < cs.len()
        invariant
            0 <= i <= cs@.len(),
            cs@ == query@,
            forall|k: int|
                0 <= k < tokens@.len() ==> !((#[trigger] tokens@[k]).kind is Eoq) && !(
                tokens@[k].kind is Error),
            forall|k: int|
                0 <= k < tokens@.len() ==> (#[trigger] tokens@[k]).span.0 <= tokens@[k].span.1
                    <= i,
            forall|k: int|
                0 <= k < tokens@.len() - 1 ==> (#[trigger] tokens@[k]).span.1 <= tokens@[k
                    + 1].span.0,
        decreases cs@.len() - i,
    {
        let c = cs[i];
        let in_filter = stack.len() > 0 && stack[stack.len() - 1];
        if c == ' ' || c == '\t' || c == '\n' || c == '\r' {
            i = i + 1;
        } else if c == '$' {
            tokens.push(Token::new(TokenType::Root, i, i + 1));
            i = i + 1;
        } else if c == '@' {
            tokens.push(Token::new(TokenType::Current, i, i + 1));
            i = i + 1;
        } else if c == '*' {
            tokens.push(Token::new(TokenType::Wild, i, i + 1));
            i = i + 1;
        } else if c == '[' {
            tokens.push(Token::new(TokenType::LBracket, i, i + 1));
            stack.push(false);
            i = i + 1;
        } else if c == ']' {
            tokens.push(Token::new(TokenType::RBracket, i, i + 1));
            if stack.len() > 0 {
                stack.pop();
            }
            i = i + 1;
        } else if c == ',' {
            tokens.push(Token::new(TokenType::Comma, i, i + 1));
            i = i + 1;
        } else if c == ':' {
            tokens.push(Token::new(TokenType::Colon, i, i + 1));
            i = i + 1;
        } else if c == '?' {
            tokens.push(Token::new(TokenType::Filter, i, i + 1));
            if stack.len() > 0 {
                let top = stack.len() - 1;
                stack.set(top, true);
            }
            i = i + 1;
        } else if c == '#' {
            tokens.push(Token::new(TokenType::CurrentKey, i, i + 1));
            i = i + 1;
        } else if c == '(' {
            tokens.push(Token::new(TokenType::LParen, i, i + 1));
            i = i + 1;
        } else if c == ')' {
            tokens.push(Token::new(TokenType::RParen, i, i + 1));
            i = i + 1;
        } else if c == '.' {
            if i + 1 < cs.len() && cs[i + 1] == '.' {
                tokens.push(Token::new(TokenType::DoubleDot, i, i + 2));
                i = i + 2;
            } else if i + 1 < cs.len() && cs[i + 1] == '*' {
                tokens.push(Token::new(TokenType::Wild, i, i + 2));
                i = i + 2;
            } else if i + 1 < cs.len() && is_name_first(cs[i + 1]) {
                let end = scan_ident(&cs, i + 1);
                let mut name: Vec<char> = Vec::new();
                let mut k = i + 1;
                while k < end
                    invariant
                        i + 1 <= k <= end,
                        end <= cs@.len(),
                    decreases end - k,
                {
                    name.push(cs[k]);
                    k = k + 1;
                }
                tokens.push(Token::new(TokenType::Name { value: chars_to_string(name) }, i, end));
                i = end;
            } else {
                tokens.push(
                    Token::new(
                        TokenType::Error { msg: "expected a name after `.`".to_owned() },
                        i,
                        i + 1,
                    ),
                );
                return tokens;
            }
        } else if c == '~' {
            if i + 1 < cs.len() && cs[i + 1] == '?' {
                tokens.push(Token::new(TokenType::KeysFilter, i, i + 2));
                if stack.len() > 0 {
                    let top = stack.len() - 1;
                    stack.set(top, true);
                }
                i = i + 2;
            } else if i + 1 < cs.len() && (cs[i + 1] == '\'' || cs[i + 1] == '"') {
                let quote = cs[i + 1];
                match scan_quoted(&cs, i + 2, quote) {
                    Result::Ok((text, end)) => {
                        if quote == '\'' {
                            tokens.push(
                                Token::new(TokenType::KeySingleQuoted { value: text }, i, end),
                            );
                        } else {
                            tokens.push(
                                Token::new(TokenType::KeyDoubleQuoted { value: text }, i, end),
                            );
                        }
                        i = end;
                    },
                    Result::Err((msg, at)) => {
                        tokens.push(Token::new(TokenType::Error { msg }, at, at));
                        return tokens;
                    },
                }
            } else if i + 1 < cs.len() && is_name_first(cs[i + 1]) {
                let end = scan_ident(&cs, i + 1);
                let mut name: Vec<char> = Vec::new();
                let mut k = i + 1;
                while k < end
                    invariant
                        i + 1 <= k <= end,
                        end <= cs@.len(),
                    decreases end - k,
                {
                    name.push(cs[k]);
                    k = k + 1;
                }
                tokens.push(Token::new(TokenType::Key { value: chars_to_string(name) }, i, end));
                i = end;
            } else {
                tokens.push(Token::new(TokenType::Keys, i, i + 1));
                i = i + 1;
            }
        } else if c == '\'' || c == '"' {
            match scan_quoted(&cs, i + 1, c) {
                Result::Ok((text, end)) => {
                    if c == '\'' {
                        tokens.push(Token::new(TokenType::SingleQuoteString { value: text }, i, end));
                    } else {
                        tokens.push(Token::new(TokenType::DoubleQuoteString { value: text }, i, end));
                    }
                    i = end;
                },
                Result::Err((msg, at)) => {
                    tokens.push(Token::new(TokenType::Error { msg }, at, at));
                    return tokens;
                },
            }
        } else if c == '!' {
            if i + 1 < cs.len() && cs[i + 1] == '=' {
                tokens.push(Token::new(TokenType::Ne, i, i + 2));
                i = i + 2;
            } else {
                tokens.push(Token::new(TokenType::Not, i, i + 1));
                i = i + 1;
            }
        } else if c == '=' {
            if i + 1 < cs.len() && cs[i + 1] == '=' {
                tokens.push(Token::new(TokenType::Eq, i, i + 2));
                i = i + 2;
            } else {
                tokens.push(
                    Token::new(TokenType::Error { msg: "expected `==`".to_owned() }, i, i + 1),
                );
                return tokens;
            }
        } else if c == '<' {
            if i + 1 < cs.len() && cs[i + 1] == '=' {
                tokens.push(Token::new(TokenType::Le, i, i + 2));
                i = i + 2;
            } else {
                tokens.push(Token::new(TokenType::Lt, i, i + 1));
                i = i + 1;
            }
        } else if c == '>' {
            if i + 1 < cs.len() && cs[i + 1] == '=' {
                tokens.push(Token::new(TokenType::Ge, i, i + 2));
                i = i + 2;
            } else {
                tokens.push(Token::new(TokenType::Gt, i, i + 1));
                i = i + 1;
            }
        } else if c == '&' {
            if i + 1 < cs.len() && cs[i + 1] == '&' {
                tokens.push(Token::new(TokenType::And, i, i + 2));
                i = i + 2;
            } else {
                tokens.push(
                    Token::new(TokenType::Error { msg: "expected `&&`".to_owned() }, i, i + 1),
                );
                return tokens;
            }
        } else if c == '|' {
            if i + 1 < cs.len() && cs[i + 1] == '|' {
                tokens.push(Token::new(TokenType::Or, i, i + 2));
                i = i + 2;
            } else {
                tokens.push(
                    Token::new(TokenType::Error { msg: "expected `||`".to_owned() }, i, i + 1),
                );
                return tokens;
            }
        } else if is_digit(c) || c == '-' {
            let (lexeme, is_float, end) = scan_number(&cs, i);
            if end == i + 1 && c == '-' {
                tokens.push(
                    Token::new(TokenType::Error { msg: "expected a number".to_owned() }, i, end),
                );
                return tokens;
            }
            if in_filter {
                if is_float {
                    tokens.push(Token::new(TokenType::Float { value: lexeme }, i, end));
                } else {
                    tokens.push(Token::new(TokenType::Int { value: lexeme }, i, end));
                }
            } else {
                if is_float {
                    tokens.push(
                        Token::new(
                            TokenType::Error { msg: "an index must be an integer".to_owned() },
                            i,
                            end,
                        ),
                    );
                    return tokens;
                }
                tokens.push(Token::new(TokenType::Index { value: lexeme }, i, end));
            }
            i = end;
        } else if is_name_first(c) {
            let end = scan_ident(&cs, i);
            let mut name: Vec<char> = Vec::new();
            let mut k = i;
            while k < end
                invariant
                    i <= k <= end,
                    end <= cs@.len(),
                decreases end - k,
            {
                name.push(cs[k]);
                k = k + 1;
            }
            let text = chars_to_string(name);
            if in_filter {
                if text.eq(&"true".to_owned()) {
                    tokens.push(Token::new(TokenType::True, i, end));
                } else if text.eq(&"false".to_owned()) {
                    tokens.push(Token::new(TokenType::False, i, end));
                } else if text.eq(&"null".to_owned()) {
                    tokens.push(Token::new(TokenType::Null, i, end));
                } else if end < cs.len() && cs[end] == '(' {
                    tokens.push(Token::new(TokenType::Function { name: text }, i, end));
                } else {
                    tokens.push(
                        Token::new(
                            TokenType::Error { msg: "unexpected identifier".to_owned() },
                            i,
                            end,
                        ),
                    );
                    return tokens;
                }
            } else {
                // A bare name: the parser accepts it inside brackets when
                // strict mode is off, and rejects it otherwise.
                tokens.push(Token::new(TokenType::Name { value: text }, i, end));
            }
            i = end;
        } else {
            tokens.push(
                Token::new(TokenType::Error { msg: "unexpected character".to_owned() }, i, i + 1),
            );
            return tokens;
        }
    }
    tokens.push(Token::new(TokenType::Eoq, i, i));
    tokens
}

} // verus!
