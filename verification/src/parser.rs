//! The recursive-descent query parser: turns a token stream into a typed
//! `Query`, enforcing RFC 9535's grammar, the configured index range, and —
//! through the type checker — the filter type system.

use crate::errors::{JSONPathError, JSONPathErrorType};
use crate::filter::{ComparisonOperator, FilterExpression, LogicalOperator};
use crate::lexer::lex;
use crate::num::Decimal;
use crate::query::Query;
use crate::segment::Segment;
use crate::selector::Selector;
use crate::strutil::chars_of;
use crate::token::{Token, TokenType};
use crate::typecheck::{check_query, wt_query};
use crate::FunctionSignature;
use vstd::prelude::*;

verus! {

broadcast use vstd::std_specs::vec::group_vec_axioms;

/// The parser's configuration: the accepted index range, the registered
/// filter function signatures, and whether non-standard syntax is rejected.
pub struct JSONPathParser {
    pub index_min: i64,
    pub index_max: i64,
    pub function_signatures: Vec<(String, FunctionSignature)>,
    pub strict: bool,
}

/// Whether `c` is a decimal digit.
pub open spec fn is_digit_char(c: char) -> bool {
    '0' <= c && c <= '9'
}

/// The value of a decimal digit character.
pub open spec fn digit_val(c: char) -> int {
    (c as u32) as int - 48
}

/// The truncating scan of integer-part digits from `i`: each digit folds
/// into the mantissa while it stays below ten to the sixteenth; after that
/// each digit only raises the exponent, which saturates at `2^30`. Yields
/// the mantissa, the exponent and the index past the digits.
pub open spec fn dec_scan_int(s: Seq<char>, i: int, m: int, e: int) -> (int, int, int)
    decreases s.len() - i,
{
    if i < 0 || i >= s.len() || !is_digit_char(s[i]) {
        (m, e, i)
    } else if m < 0x002386_f26f_c10000 {
        dec_scan_int(s, i + 1, m * 10 + digit_val(s[i]), e)
    } else if e < 0x4000_0000 {
        dec_scan_int(s, i + 1, m, e + 1)
    } else {
        dec_scan_int(s, i + 1, m, e)
    }
}

/// The truncating scan of fraction digits from `i`: each digit folds into
/// the mantissa and lowers the exponent while the mantissa stays below ten
/// to the sixteenth and the exponent above `-2^30`; further digits are
/// dropped.
pub open spec fn dec_scan_frac(s: Seq<char>, i: int, m: int, e: int) -> (int, int, int)
    decreases s.len() - i,
{
    if i < 0 || i >= s.len() || !is_digit_char(s[i]) {
        (m, e, i)
    } else if m < 0x002386_f26f_c10000 && e > -0x4000_0000 {
        dec_scan_frac(s, i + 1, m * 10 + digit_val(s[i]), e - 1)
    } else {
        dec_scan_frac(s, i + 1, m, e)
    }
}

/// The scan of explicit-exponent digits from `i`, saturating at `2^30`.
pub open spec fn dec_scan_exp(s: Seq<char>, i: int, e: int) -> (int, int)
    decreases s.len() - i,
{
    if i < 0 || i >= s.len() || !is_digit_char(s[i]) {
        (e, i)
    } else if e < 0x4000_0000 {
        let e2 = e * 10 + digit_val(s[i]);
        dec_scan_exp(s, i + 1, if e2 > 0x4000_0000 { 0x4000_0000 } else { e2 })
    } else {
        dec_scan_exp(s, i + 1, e)
    }
}

/// The exact decimal a float lexeme denotes: an optional sign, integer-part
/// digits, an optional fraction after `.`, and an optional explicit
/// exponent after `e` or `E`, the mantissa truncated beyond sixteen
/// significant digits.
pub open spec fn dec_of(s: Seq<char>) -> Decimal {
    let neg = s.len() > 0 && s[0] == '-';
    let start = if neg {
        1int
    } else {
        0int
    };
    let (m1, e1, i1) = dec_scan_int(s, start, 0, 0);
    let (m2, e2, i2) = if i1 < s.len() && s[i1] == '.' {
        dec_scan_frac(s, i1 + 1, m1, e1)
    } else {
        (m1, e1, i1)
    };
    let e3 = if i2 < s.len() && (s[i2] == 'e' || s[i2] == 'E') {
        let eneg = i2 + 1 < s.len() && s[i2 + 1] == '-';
        let esign = i2 + 1 < s.len() && (s[i2 + 1] == '-' || s[i2 + 1] == '+');
        let estart = if esign {
            i2 + 2
        } else {
            i2 + 1
        };
        let (ev, _ei) = dec_scan_exp(s, estart, 0);
        if eneg {
            e2 - ev
        } else {
            e2 + ev
        }
    } else {
        e2
    };
    Decimal {
        mantissa: (if neg {
            -m2
        } else {
            m2
        }) as i64,
        exp: e3 as i64,
    }
}

/// A syntax error at a token, its span still counted in characters.
fn syntax_at(msg: &str, t: &Token) -> (e: JSONPathError)
    ensures
        e.kind == JSONPathErrorType::SyntaxError,
{
    let start = t.span.0;
    let end = if t.span.1 < start {
        start
    } else {
        t.span.1
    };
    JSONPathError { kind: JSONPathErrorType::SyntaxError, msg: msg.to_owned(), start, end }
}

/// A lexical error lifted from an `Error` token, its span still counted in
/// characters.
fn lexer_err_at(msg: &String, t: &Token) -> (e: JSONPathError)
    ensures
        e.kind == JSONPathErrorType::LexerError,
{
    let start = t.span.0;
    let end = if t.span.1 < start {
        start
    } else {
        t.span.1
    };
    JSONPathError { kind: JSONPathErrorType::LexerError, msg: msg.clone(), start, end }
}

/// Turns an error's span into byte offsets into `query` and renders the
/// message with it. An error reported without a location gets the whole
/// query's span.
fn locate_error(e: JSONPathError, query: &str) -> (r: JSONPathError)
    ensures
        r.kind == e.kind,
        r.start <= r.end,
        r.end as nat <= crate::strutil::utf8_len(query@),
{
    let n = crate::strutil::byte_len(query);
    let bs: usize;
    let mut be: usize;
    if e.start == 0 && e.end == 0 {
        bs = 0;
        be = n;
    } else {
        bs = crate::strutil::byte_offset(query, e.start);
        be = crate::strutil::byte_offset(query, e.end);
    }
    if be < bs {
        be = bs;
    }
    let msg = crate::errors::render_spanned(e.msg.as_str(), bs, be);
    JSONPathError { kind: e.kind, msg, start: bs, end: be }
}

impl JSONPathParser {
    /// Registers a filter function signature under `name`.
    pub fn add_function(
        &mut self,
        name: String,
        params: Vec<crate::ExpressionType>,
        returns: crate::ExpressionType,
    )
        ensures
            final(self).function_signatures@ == old(self).function_signatures@.push(
                (name, FunctionSignature { param_types: params, return_type: returns }),
            ),
            final(self).index_min == old(self).index_min,
            final(self).index_max == old(self).index_max,
            final(self).strict == old(self).strict,
    {
        self.function_signatures.push(
            (name, FunctionSignature { param_types: params, return_type: returns }),
        );
    }

    /// Compiles a query string. A query that parses either type-checks or
    /// is rejected with a `TypeError` or `NameError`; the result of a
    /// successful compilation is always well-typed. A rejection carries the
    /// span of the offending query text as byte offsets into `query` (the
    /// whole query where the fault has no single location), and a message
    /// rendered with that span.
    pub fn parse(&self, query: &str) -> (r: Result<Query, JSONPathError>)
        ensures
            r is Ok ==> wt_query(r->Ok_0, self.function_signatures@),
            r is Err ==> (r->Err_0.kind == JSONPathErrorType::LexerError || r->Err_0.kind
                == JSONPathErrorType::SyntaxError || r->Err_0.kind == JSONPathErrorType::TypeError
                || r->Err_0.kind == JSONPathErrorType::NameError),
            r is Err ==> r->Err_0.start <= r->Err_0.end && r->Err_0.end as nat
                <= crate::strutil::utf8_len(query@),
    {
        match self.parse_main(query) {
            Result::Ok(q) => Ok(q),
            Result::Err(e) => Err(locate_error(e, query)),
        }
    }

    /// Parses and type-checks a query; error spans still count characters.
    fn parse_main(&self, query: &str) -> (r: Result<Query, JSONPathError>)
        ensures
            r is Ok ==> wt_query(r->Ok_0, self.function_signatures@),
            r is Err ==> (r->Err_0.kind == JSONPathErrorType::LexerError || r->Err_0.kind
                == JSONPathErrorType::SyntaxError || r->Err_0.kind == JSONPathErrorType::TypeError
                || r->Err_0.kind == JSONPathErrorType::NameError),
    {
        let tokens = lex(query);
        let mut pos: usize = 0;
        match &tokens[0].kind {
            TokenType::Root => {
                pos = 1;
            },
            TokenType::Error { msg } => {
                return Err(lexer_err_at(msg, &tokens[0]));
            },
            _ => {
                if self.strict {
                    return Err(syntax_at("a query must start with `$`", &tokens[0]));
                }
            },
        }
        let (segments, p2) = self.parse_segments(&tokens, pos)?;
        if p2 < tokens.len() {
            match &tokens[p2].kind {
                TokenType::Eoq => {},
                TokenType::Error { msg } => {
                    return Err(lexer_err_at(msg, &tokens[p2]));
                },
                _ => {
                    return Err(syntax_at("unexpected token", &tokens[p2]));
                },
            }
        }
        let q = Query::new(segments);
        check_query(&q, &self.function_signatures)?;
        Ok(q)
    }

    /// Parses zero or more segments.
    fn parse_segments(&self, ts: &Vec<Token>, pos: usize) -> (r: Result<
        (Vec<Segment>, usize),
        JSONPathError,
    >)
        requires
            pos <= ts@.len(),
        ensures
            r is Ok ==> pos <= r->Ok_0.1 <= ts@.len(),
            r is Err ==> (r->Err_0.kind == JSONPathErrorType::LexerError || r->Err_0.kind
                == JSONPathErrorType::SyntaxError),
        decreases ts@.len() - pos, 12int,
    {
        let mut segments: Vec<Segment> = Vec::new();
        let mut p = pos;
        while p < ts.len()
            invariant
                pos <= p <= ts@.len(),
            decreases ts@.len() - p,
        {
            match &ts[p].kind {
                TokenType::Name { value } => {
                    let mut sels: Vec<Selector> = Vec::new();
                    sels.push(Selector::Name { name: value.clone() });
                    segments.push(Segment::Child { selectors: sels });
                    p = p + 1;
                },
                TokenType::Wild => {
                    let mut sels: Vec<Selector> = Vec::new();
                    sels.push(Selector::Wild);
                    segments.push(Segment::Child { selectors: sels });
                    p = p + 1;
                },
                TokenType::Keys => {
                    if self.strict {
                        return Err(
                            syntax_at("the keys selector is not standard syntax", &ts[p]),
                        );
                    }
                    let mut sels: Vec<Selector> = Vec::new();
                    sels.push(Selector::Keys);
                    segments.push(Segment::Child { selectors: sels });
                    p = p + 1;
                },
                TokenType::Key { value } => {
                    if self.strict {
                        return Err(
                            syntax_at("the key selector is not standard syntax", &ts[p]),
                        );
                    }
                    let mut sels: Vec<Selector> = Vec::new();
                    sels.push(Selector::Key { name: value.clone() });
                    segments.push(Segment::Child { selectors: sels });
                    p = p + 1;
                },
                TokenType::LBracket => {
                    let (sels, p2) = self.parse_bracketed(ts, p + 1)?;
                    segments.push(Segment::Child { selectors: sels });
                    p = p2;
                },
                TokenType::DoubleDot => {
                    if p + 1 >= ts.len() {
                        return Err(syntax_at("a segment must follow `..`", &ts[p]));
                    }
                    match &ts[p + 1].kind {
                        TokenType::Name { value } => {
                            let mut sels: Vec<Selector> = Vec::new();
                            sels.push(Selector::Name { name: value.clone() });
                            segments.push(Segment::Recursive { selectors: sels });
                            p = p + 2;
                        },
                        TokenType::Wild => {
                            let mut sels: Vec<Selector> = Vec::new();
                            sels.push(Selector::Wild);
                            segments.push(Segment::Recursive { selectors: sels });
                            p = p + 2;
                        },
                        TokenType::LBracket => {
                            let (sels, p2) = self.parse_bracketed(ts, p + 2)?;
                            segments.push(Segment::Recursive { selectors: sels });
                            p = p2;
                        },
                        _ => {
                            return Err(
                                syntax_at("expected a name, `*` or `[` after `..`", &ts[p + 1]),
                            );
                        },
                    }
                },
                _ => {
                    break;
                },
            }
        }
        Ok((segments, p))
    }

    /// Parses a comma-separated selector list after `[`, through `]`.
    fn parse_bracketed(&self, ts: &Vec<Token>, pos: usize) -> (r: Result<
        (Vec<Selector>, usize),
        JSONPathError,
    >)
        requires
            pos <= ts@.len(),
        ensures
            r is Ok ==> pos <= r->Ok_0.1 <= ts@.len(),
            r is Err ==> (r->Err_0.kind == JSONPathErrorType::LexerError || r->Err_0.kind
                == JSONPathErrorType::SyntaxError),
        decreases ts@.len() - pos, 11int,
    {
        let mut sels: Vec<Selector> = Vec::new();
        let (first, mut p) = self.parse_selector(ts, pos)?;
        sels.push(first);
        while p < ts.len()
            invariant
                pos <= p <= ts@.len(),
            decreases ts@.len() - p,
        {
            match &ts[p].kind {
                TokenType::RBracket => {
                    return Ok((sels, p + 1));
                },
                TokenType::Comma => {
                    let (sel, p2) = self.parse_selector(ts, p + 1)?;
                    sels.push(sel);
                    p = p2;
                },
                _ => {
                    return Err(syntax_at("expected `,` or `]`", &ts[p]));
                },
            }
        }
        if p < ts.len() {
            Err(syntax_at("unterminated bracketed selection", &ts[p]))
        } else {
            Err(JSONPathError::syntax("unterminated bracketed selection".to_owned()))
        }
    }

    /// Parses one selector.
    fn parse_selector(&self, ts: &Vec<Token>, pos: usize) -> (r: Result<
        (Selector, usize),
        JSONPathError,
    >)
        requires
            pos <= ts@.len(),
        ensures
            r is Ok ==> pos < r->Ok_0.1 <= ts@.len(),
            r is Err ==> (r->Err_0.kind == JSONPathErrorType::LexerError || r->Err_0.kind
                == JSONPathErrorType::SyntaxError),
        decreases ts@.len() - pos, 10int,
    {
        if pos >= ts.len() {
            return Err(JSONPathError::syntax("unexpected end of query".to_owned()));
        }
        match &ts[pos].kind {
            TokenType::SingleQuoteString { value } => Ok(
                (Selector::Name { name: value.clone() }, pos + 1),
            ),
            TokenType::DoubleQuoteString { value } => Ok(
                (Selector::Name { name: value.clone() }, pos + 1),
            ),
            TokenType::Index { value } => {
                if pos + 1 < ts.len() && matches!(&ts[pos + 1].kind, TokenType::Colon) {
                    let start = self.parse_int_token(value, &ts[pos])?;
                    self.parse_slice(ts, pos + 1, Some(start))
                } else {
                    let idx = self.parse_int_token(value, &ts[pos])?;
                    Ok((Selector::Index { index: idx }, pos + 1))
                }
            },
            TokenType::Colon => self.parse_slice(ts, pos, None),
            TokenType::Wild => Ok((Selector::Wild, pos + 1)),
            TokenType::Filter => {
                let (e, p2) = self.parse_or(ts, pos + 1)?;
                Ok((Selector::Filter { expression: Box::new(e) }, p2))
            },
            TokenType::Keys => {
                if self.strict {
                    Err(syntax_at("the keys selector is not standard syntax", &ts[pos]))
                } else {
                    Ok((Selector::Keys, pos + 1))
                }
            },
            TokenType::KeysFilter => {
                if self.strict {
                    Err(syntax_at("the keys filter is not standard syntax", &ts[pos]))
                } else {
                    let (e, p2) = self.parse_or(ts, pos + 1)?;
                    Ok((Selector::KeysFilter { expression: Box::new(e) }, p2))
                }
            },
            TokenType::Key { value } => {
                if self.strict {
                    Err(syntax_at("the key selector is not standard syntax", &ts[pos]))
                } else {
                    Ok((Selector::Key { name: value.clone() }, pos + 1))
                }
            },
            TokenType::KeySingleQuoted { value } => {
                if self.strict {
                    Err(syntax_at("the key selector is not standard syntax", &ts[pos]))
                } else {
                    Ok((Selector::Key { name: value.clone() }, pos + 1))
                }
            },
            TokenType::KeyDoubleQuoted { value } => {
                if self.strict {
                    Err(syntax_at("the key selector is not standard syntax", &ts[pos]))
                } else {
                    Ok((Selector::Key { name: value.clone() }, pos + 1))
                }
            },
            TokenType::Name { value } => {
                if self.strict {
                    Err(syntax_at("a name selector must be quoted", &ts[pos]))
                } else {
                    Ok((Selector::Name { name: value.clone() }, pos + 1))
                }
            },
            TokenType::Error { msg } => Err(lexer_err_at(msg, &ts[pos])),
            _ => Err(syntax_at("unexpected token in a bracketed selection", &ts[pos])),
        }
    }

    /// Parses the rest of a slice, starting at its first `:`.
    fn parse_slice(&self, ts: &Vec<Token>, pos: usize, start: Option<i64>) -> (r: Result<
        (Selector, usize),
        JSONPathError,
    >)
        requires
            pos <= ts@.len(),
        ensures
            r is Ok ==> pos < r->Ok_0.1 <= ts@.len(),
            r is Err ==> (r->Err_0.kind == JSONPathErrorType::LexerError || r->Err_0.kind
                == JSONPathErrorType::SyntaxError),
        decreases ts@.len() - pos, 9int,
    {
        if pos >= ts.len() || !matches!(&ts[pos].kind, TokenType::Colon) {
            return Err(JSONPathError::syntax("expected `:` in a slice".to_owned()));
        }
        let mut p = pos + 1;
        let mut stop: Option<i64> = None;
        let mut step: Option<i64> = None;
        if p < ts.len() {
            match &ts[p].kind {
                TokenType::Index { value } => {
                    stop = Some(self.parse_int_token(value, &ts[p])?);
                    p = p + 1;
                },
                _ => {},
            }
        }
        if p < ts.len() && matches!(&ts[p].kind, TokenType::Colon) {
            p = p + 1;
            if p < ts.len() {
                match &ts[p].kind {
                    TokenType::Index { value } => {
                        step = Some(self.parse_int_token(value, &ts[p])?);
                        p = p + 1;
                    },
                    _ => {},
                }
            }
        }
        Ok((Selector::Slice { start, stop, step }, p))
    }

    /// Reads a signed integer lexeme, enforcing the configured index range.
    fn parse_int_token(&self, lexeme: &String, t: &Token) -> (r: Result<i64, JSONPathError>)
        ensures
            r is Err ==> r->Err_0.kind == JSONPathErrorType::SyntaxError,
    {
        let cs = chars_of(lexeme.as_str());
        let mut i: usize = 0;
        let mut neg = false;
        if cs.len() > 0 && cs[0] == '-' {
            neg = true;
            i = 1;
        }
        if i >= cs.len() {
            return Err(syntax_at("expected digits", t));
        }
        let mut acc: i128 = 0;
        while i < cs.len()
            invariant
                0 <= i <= cs@.len(),
                0 <= acc <= 0x7fff_ffff_ffff_ffff,
            decreases cs@.len() - i,
        {
            let c = cs[i];
            if c < '0' || c > '9' {
                return Err(syntax_at("malformed integer", t));
            }
            let d = (c as u32) - 48;
            acc = acc * 10 + d as i128;
            if acc > 0x7fff_ffff_ffff_ffff {
                return Err(syntax_at("an index is out of range", t));
            }
            i = i + 1;
        }
        let v: i64 = if neg {
            -(acc as i64)
        } else {
            acc as i64
        };
        if v < self.index_min || v > self.index_max {
            return Err(syntax_at("an index is out of range", t));
        }
        Ok(v)
    }

    /// Reads a float lexeme as an exact decimal: exactly the value of the
    /// truncating scan `dec_of` over its characters.
    #[verifier::loop_isolation(false)]
    fn parse_decimal_token(&self, lexeme: &String) -> (d: Decimal)
        ensures
            d == dec_of(lexeme@),
    {
        let cs = chars_of(lexeme.as_str());
        let ghost s = lexeme@;
        let mut i: usize = 0;
        let mut neg = false;
        if cs.len() > 0 && cs[0] == '-' {
            neg = true;
            i = 1;
        }
        let ghost start0 = i as int;
        let mut m: i64 = 0;
        let mut exp10: i64 = 0;
        while i < cs.len() && cs[i] >= '0' && cs[i] <= '9'
            invariant
                start0 <= i <= cs@.len(),
                0 <= m < 0x0de0_b6b3_a764_0000,
                0 <= exp10 <= 0x4000_0000,
                dec_scan_int(s, start0, 0, 0) == dec_scan_int(s, i as int, m as int, exp10 as int),
            decreases cs@.len() - i,
        {
            let c = cs[i];
            let ghost pre = (i as int, m as int, exp10 as int);
            if m < 0x002386_f26f_c10000 {
                m = m * 10 + ((c as u32) - 48) as i64;
            } else if exp10 < 0x4000_0000 {
                exp10 = exp10 + 1;
            }
            i = i + 1;
            proof {
                assert(is_digit_char(s[pre.0]));
                assert(dec_scan_int(s, pre.0, pre.1, pre.2) == dec_scan_int(
                    s,
                    i as int,
                    m as int,
                    exp10 as int,
                ));
            }
        }
        proof {
            assert(dec_scan_int(s, i as int, m as int, exp10 as int) == (
                m as int,
                exp10 as int,
                i as int,
            ));
        }
        let ghost after_int = (m as int, exp10 as int, i as int);
        if i < cs.len() && cs[i] == '.' {
            i = i + 1;
            while i < cs.len() && cs[i] >= '0' && cs[i] <= '9'
                invariant
                    0 <= i <= cs@.len(),
                    0 <= m < 0x0de0_b6b3_a764_0000,
                    -0x4000_0000 <= exp10 <= 0x4000_0000,
                    dec_scan_frac(s, after_int.2 + 1, after_int.0, after_int.1) == dec_scan_frac(
                        s,
                        i as int,
                        m as int,
                        exp10 as int,
                    ),
                decreases cs@.len() - i,
            {
                let c = cs[i];
                let ghost pre = (i as int, m as int, exp10 as int);
                if m < 0x002386_f26f_c10000 && exp10 > -0x4000_0000 {
                    m = m * 10 + ((c as u32) - 48) as i64;
                    exp10 = exp10 - 1;
                }
                i = i + 1;
                proof {
                    assert(is_digit_char(s[pre.0]));
                    assert(dec_scan_frac(s, pre.0, pre.1, pre.2) == dec_scan_frac(
                        s,
                        i as int,
                        m as int,
                        exp10 as int,
                    ));
                }
            }
            proof {
                assert(dec_scan_frac(s, i as int, m as int, exp10 as int) == (
                    m as int,
                    exp10 as int,
                    i as int,
                ));
            }
        }
        let ghost after_frac = (m as int, exp10 as int, i as int);
        if i < cs.len() && (cs[i] == 'e' || cs[i] == 'E') {
            i = i + 1;
            let mut eneg = false;
            if i < cs.len() && (cs[i] == '+' || cs[i] == '-') {
                eneg = cs[i] == '-';
                i = i + 1;
            }
            let ghost estart = i as int;
            let mut e: i64 = 0;
            while i < cs.len() && cs[i] >= '0' && cs[i] <= '9'
                invariant
                    estart <= i <= cs@.len(),
                    0 <= e <= 0x4000_0000,
                    dec_scan_exp(s, estart, 0) == dec_scan_exp(s, i as int, e as int),
                decreases cs@.len() - i,
            {
                let c = cs[i];
                let ghost pre = (i as int, e as int);
                if e < 0x4000_0000 {
                    e = e * 10 + ((c as u32) - 48) as i64;
                    if e > 0x4000_0000 {
                        e = 0x4000_0000;
                    }
                }
                i = i + 1;
                proof {
                    assert(is_digit_char(s[pre.0]));
                    assert(dec_scan_exp(s, pre.0, pre.1) == dec_scan_exp(s, i as int, e as int));
                }
            }
            proof {
                assert(dec_scan_exp(s, i as int, e as int) == (e as int, i as int));
            }
            if eneg {
                exp10 = exp10 - e;
            } else {
                exp10 = exp10 + e;
            }
        }
        let mantissa: i64 = if neg {
            -m
        } else {
            m
        };
        proof {
            assert(dec_of(s) == Decimal { mantissa, exp: exp10 });
        }
        Decimal { mantissa, exp: exp10 }
    }

    /// Parses a logical-or expression.
    fn parse_or(&self, ts: &Vec<Token>, pos: usize) -> (r: Result<
        (FilterExpression, usize),
        JSONPathError,
    >)
        requires
            pos <= ts@.len(),
        ensures
            r is Ok ==> pos < r->Ok_0.1 <= ts@.len(),
            r is Err ==> (r->Err_0.kind == JSONPathErrorType::LexerError || r->Err_0.kind
                == JSONPathErrorType::SyntaxError),
        decreases ts@.len() - pos, 8int,
    {
        let (first, mut p) = self.parse_and(ts, pos)?;
        let mut acc = first;
        while p < ts.len()
            invariant
                pos < p <= ts@.len(),
            decreases ts@.len() - p,
        {
            if matches!(&ts[p].kind, TokenType::Or) {
                let (rhs, p2) = self.parse_and(ts, p + 1)?;
                acc = FilterExpression::Logical {
                    left: Box::new(acc),
                    operator: LogicalOperator::Or,
                    right: Box::new(rhs),
                };
                p = p2;
            } else {
                break;
            }
        }
        Ok((acc, p))
    }

    /// Parses a logical-and expression.
    fn parse_and(&self, ts: &Vec<Token>, pos: usize) -> (r: Result<
        (FilterExpression, usize),
        JSONPathError,
    >)
        requires
            pos <= ts@.len(),
        ensures
            r is Ok ==> pos < r->Ok_0.1 <= ts@.len(),
            r is Err ==> (r->Err_0.kind == JSONPathErrorType::LexerError || r->Err_0.kind
                == JSONPathErrorType::SyntaxError),
        decreases ts@.len() - pos, 7int,
    {
        let (first, mut p) = self.parse_comparison(ts, pos)?;
        let mut acc = first;
        while p < ts.len()
            invariant
                pos < p <= ts@.len(),
            decreases ts@.len() - p,
        {
            if matches!(&ts[p].kind, TokenType::And) {
                let (rhs, p2) = self.parse_comparison(ts, p + 1)?;
                acc = FilterExpression::Logical {
                    left: Box::new(acc),
                    operator: LogicalOperator::And,
                    right: Box::new(rhs),
                };
                p = p2;
            } else {
                break;
            }
        }
        Ok((acc, p))
    }

    /// Parses a comparison, or a bare test expression. A second comparison
    /// operator after a comparison is a syntax error.
    fn parse_comparison(&self, ts: &Vec<Token>, pos: usize) -> (r: Result<
        (FilterExpression, usize),
        JSONPathError,
    >)
        requires
            pos <= ts@.len(),
        ensures
            r is Ok ==> pos < r->Ok_0.1 <= ts@.len(),
            r is Err ==> (r->Err_0.kind == JSONPathErrorType::LexerError || r->Err_0.kind
                == JSONPathErrorType::SyntaxError),
        decreases ts@.len() - pos, 6int,
    {
        let (left, p) = self.parse_unary(ts, pos)?;
        if p < ts.len() {
            let op = match &ts[p].kind {
                TokenType::Eq => Some(ComparisonOperator::Eq),
                TokenType::Ne => Some(ComparisonOperator::Ne),
                TokenType::Le => Some(ComparisonOperator::Le),
                TokenType::Lt => Some(ComparisonOperator::Lt),
                TokenType::Ge => Some(ComparisonOperator::Ge),
                TokenType::Gt => Some(ComparisonOperator::Gt),
                _ => None,
            };
            match op {
                Option::Some(operator) => {
                    let (right, p2) = self.parse_unary(ts, p + 1)?;
                    if p2 < ts.len() {
                        match &ts[p2].kind {
                            TokenType::Eq | TokenType::Ne | TokenType::Le | TokenType::Lt
                                | TokenType::Ge | TokenType::Gt => {
                                return Err(
                                    syntax_at("comparisons do not chain", &ts[p2]),
                                );
                            },
                            _ => {},
                        }
                    }
                    return Ok(
                        (
                            FilterExpression::Comparison {
                                left: Box::new(left),
                                operator,
                                right: Box::new(right),
                            },
                            p2,
                        ),
                    );
                },
                Option::None => {},
            }
        }
        Ok((left, p))
    }

    /// Parses a unary expression: `!` applications over a primary.
    fn parse_unary(&self, ts: &Vec<Token>, pos: usize) -> (r: Result<
        (FilterExpression, usize),
        JSONPathError,
    >)
        requires
            pos <= ts@.len(),
        ensures
            r is Ok ==> pos < r->Ok_0.1 <= ts@.len(),
            r is Err ==> (r->Err_0.kind == JSONPathErrorType::LexerError || r->Err_0.kind
                == JSONPathErrorType::SyntaxError),
        decreases ts@.len() - pos, 5int,
    {
        if pos < ts.len() && matches!(&ts[pos].kind, TokenType::Not) {
            let (inner, p2) = self.parse_unary(ts, pos + 1)?;
            Ok((FilterExpression::Not { expression: Box::new(inner) }, p2))
        } else {
            self.parse_primary(ts, pos)
        }
    }

    /// Parses a primary expression: a parenthesized expression, a literal,
    /// an embedded query, a function call, or the current key.
    fn parse_primary(&self, ts: &Vec<Token>, pos: usize) -> (r: Result<
        (FilterExpression, usize),
        JSONPathError,
    >)
        requires
            pos <= ts@.len(),
        ensures
            r is Ok ==> pos < r->Ok_0.1 <= ts@.len(),
            r is Err ==> (r->Err_0.kind == JSONPathErrorType::LexerError || r->Err_0.kind
                == JSONPathErrorType::SyntaxError),
        decreases ts@.len() - pos, 4int,
    {
        if pos >= ts.len() {
            return Err(JSONPathError::syntax("unexpected end of query".to_owned()));
        }
        match &ts[pos].kind {
            TokenType::LParen => {
                let (inner, p2) = self.parse_or(ts, pos + 1)?;
                if p2 < ts.len() && matches!(&ts[p2].kind, TokenType::RParen) {
                    Ok((inner, p2 + 1))
                } else if p2 < ts.len() {
                    Err(syntax_at("expected `)`", &ts[p2]))
                } else {
                    Err(JSONPathError::syntax("expected `)`".to_owned()))
                }
            },
            TokenType::True => Ok((FilterExpression::True_, pos + 1)),
            TokenType::False => Ok((FilterExpression::False_, pos + 1)),
            TokenType::Null => Ok((FilterExpression::Null, pos + 1)),
            TokenType::Int { value } => {
                let v = self.parse_int_token(value, &ts[pos])?;
                Ok((FilterExpression::Int { value: v }, pos + 1))
            },
            TokenType::Float { value } => {
                let d = self.parse_decimal_token(value);
                Ok((FilterExpression::Float { value: d }, pos + 1))
            },
            TokenType::SingleQuoteString { value } => Ok(
                (FilterExpression::StringLiteral { value: value.clone() }, pos + 1),
            ),
            TokenType::DoubleQuoteString { value } => Ok(
                (FilterExpression::StringLiteral { value: value.clone() }, pos + 1),
            ),
            TokenType::Current => {
                let (segments, p2) = self.parse_segments(ts, pos + 1)?;
                Ok(
                    (
                        FilterExpression::RelativeQuery {
                            query: Box::new(Query { segments }),
                        },
                        p2,
                    ),
                )
            },
            TokenType::Root => {
                let (segments, p2) = self.parse_segments(ts, pos + 1)?;
                Ok((FilterExpression::RootQuery { query: Box::new(Query { segments }) }, p2))
            },
            TokenType::CurrentKey => {
                if self.strict {
                    Err(syntax_at("the current key is not standard syntax", &ts[pos]))
                } else {
                    Ok((FilterExpression::CurrentKey, pos + 1))
                }
            },
            TokenType::Function { name } => {
                if pos + 1 >= ts.len() || !matches!(&ts[pos + 1].kind, TokenType::LParen) {
                    return Err(syntax_at("expected `(` after a function name", &ts[pos]));
                }
                let fname = name.clone();
                let mut args: Vec<FilterExpression> = Vec::new();
                let mut p = pos + 2;
                if p < ts.len() && matches!(&ts[p].kind, TokenType::RParen) {
                    return Ok(
                        (FilterExpression::Function { name: fname, args }, p + 1),
                    );
                }
                let (first, p2) = self.parse_or(ts, p)?;
                args.push(first);
                p = p2;
                while p < ts.len()
                    invariant
                        pos < p <= ts@.len(),
                    decreases ts@.len() - p,
                {
                    match &ts[p].kind {
                        TokenType::RParen => {
                            return Ok(
                                (FilterExpression::Function { name: fname, args }, p + 1),
                            );
                        },
                        TokenType::Comma => {
                            let (a, p3) = self.parse_or(ts, p + 1)?;
                            args.push(a);
                            p = p3;
                        },
                        _ => {
                            return Err(syntax_at("expected `,` or `)`", &ts[p]));
                        },
                    }
                }
                Err(JSONPathError::syntax("unterminated function call".to_owned()))
            },
            TokenType::Error { msg } => Err(lexer_err_at(msg, &ts[pos])),
            _ => Err(syntax_at("unexpected token in a filter expression", &ts[pos])),
        }
    }
}

} // verus!
