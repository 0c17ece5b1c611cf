//! Canonical query text: renders a compiled query back to a string, with
//! member names quoted and escaped.

use crate::filter::{ComparisonOperator, FilterExpression, LogicalOperator};
use crate::num::Decimal;
use crate::query::Query;
use crate::segment::Segment;
use crate::selector::Selector;
use crate::strutil::{chars_of, chars_to_string, digit_char, int_str, push_i64_digits};
use vstd::prelude::*;

verus! {

broadcast use vstd::std_specs::vec::group_vec_axioms;

/// The character for one hexadecimal digit.
pub open spec fn hex_digit(d: nat) -> char {
    if d < 10 {
        digit_char(d)
    } else if d == 10 {
        'a'
    } else if d == 11 {
        'b'
    } else if d == 12 {
        'c'
    } else if d == 13 {
        'd'
    } else if d == 14 {
        'e'
    } else {
        'f'
    }
}

fn hex_digit_exec(d: u32) -> (c: char)
    requires
        d < 16,
    ensures
        c == hex_digit(d as nat),
{
    if d == 0 {
        '0'
    } else if d == 1 {
        '1'
    } else if d == 2 {
        '2'
    } else if d == 3 {
        '3'
    } else if d == 4 {
        '4'
    } else if d == 5 {
        '5'
    } else if d == 6 {
        '6'
    } else if d == 7 {
        '7'
    } else if d == 8 {
        '8'
    } else if d == 9 {
        '9'
    } else if d == 10 {
        'a'
    } else if d == 11 {
        'b'
    } else if d == 12 {
        'c'
    } else if d == 13 {
        'd'
    } else if d == 14 {
        'e'
    } else {
        'f'
    }
}

/// The escape of one character inside a quoted string.
pub open spec fn esc_char(c: char) -> Seq<char> {
    if c == '\\' {
        seq!['\\', '\\']
    } else if c == '\'' {
        seq!['\\', '\'']
    } else if c == '\n' {
        seq!['\\', 'n']
    } else if c == '\t' {
        seq!['\\', 't']
    } else if c == '\r' {
        seq!['\\', 'r']
    } else if c == '\u{0008}' {
        seq!['\\', 'b']
    } else if c == '\u{000C}' {
        seq!['\\', 'f']
    } else if (c as u32) < 0x20 {
        seq!['\\', 'u', '0', '0', hex_digit(((c as u32) / 16) as nat), hex_digit(
            ((c as u32) % 16) as nat,
        )]
    } else {
        seq![c]
    }
}

/// A string escaped for single quotes.
pub open spec fn esc_str(s: Seq<char>) -> Seq<char>
    decreases s.len(),
{
    if s.len() == 0 {
        Seq::empty()
    } else {
        esc_str(s.drop_last()) + esc_char(s.last())
    }
}

/// The text of an optional slice bound.
pub open spec fn opt_int_str(v: Option<i64>) -> Seq<char> {
    match v {
        Option::Some(i) => int_str(i as int),
        Option::None => Seq::empty(),
    }
}

/// The text of one selector.
pub open spec fn sel_str(sel: Selector) -> Seq<char>
    decreases sel, 3int,
{
    match sel {
        Selector::Name { name } => seq!['\''] + esc_str(name@) + seq!['\''],
        Selector::Index { index } => int_str(index as int),
        Selector::Slice { start, stop, step } => opt_int_str(start) + seq![':'] + opt_int_str(
            stop,
        ) + seq![':'] + opt_int_str(step),
        Selector::Wild => seq!['*'],
        Selector::Filter { expression } => seq!['?'] + expr_str(*expression),
        Selector::Key { name } => seq!['~', '\''] + esc_str(name@) + seq!['\''],
        Selector::Keys => seq!['~'],
        Selector::KeysFilter { expression } => seq!['~', '?'] + expr_str(*expression),
    }
}

/// The comma-joined text of a selector list.
pub open spec fn sels_str(sels: Seq<Selector>) -> Seq<char>
    decreases sels, 4int,
{
    if sels.len() == 0 {
        Seq::empty()
    } else if sels.len() == 1 {
        sel_str(sels[0])
    } else {
        sels_str(sels.drop_last()) + seq![',', ' '] + sel_str(sels.last())
    }
}

/// The text of one segment.
pub open spec fn seg_str(seg: Segment) -> Seq<char>
    decreases seg, 5int,
{
    match seg {
        Segment::Child { selectors } => seq!['['] + sels_str(selectors@) + seq![']'],
        Segment::Recursive { selectors } => seq!['.', '.', '['] + sels_str(selectors@) + seq![
            ']',
        ],
    }
}

/// The concatenated text of a segment list.
pub open spec fn segs_str(segs: Seq<Segment>) -> Seq<char>
    decreases segs, 6int,
{
    if segs.len() == 0 {
        Seq::empty()
    } else {
        segs_str(segs.drop_last()) + seg_str(segs.last())
    }
}

/// The text of a whole query: `$` followed by its segments.
pub open spec fn query_str(q: Query) -> Seq<char>
    decreases q, 7int,
{
    seq!['$'] + segs_str(q.segments@)
}

/// The text of a comparison operator.
pub open spec fn comp_op_str(op: ComparisonOperator) -> Seq<char> {
    match op {
        ComparisonOperator::Eq => seq!['=', '='],
        ComparisonOperator::Ne => seq!['!', '='],
        ComparisonOperator::Ge => seq!['>', '='],
        ComparisonOperator::Gt => seq!['>'],
        ComparisonOperator::Le => seq!['<', '='],
        ComparisonOperator::Lt => seq!['<'],
    }
}

/// The text of a filter expression.
pub open spec fn expr_str(e: FilterExpression) -> Seq<char>
    decreases e, 2int,
{
    match e {
        FilterExpression::True_ => seq!['t', 'r', 'u', 'e'],
        FilterExpression::False_ => seq!['f', 'a', 'l', 's', 'e'],
        FilterExpression::Null => seq!['n', 'u', 'l', 'l'],
        FilterExpression::StringLiteral { value } => seq!['\''] + esc_str(value@) + seq!['\''],
        FilterExpression::Int { value } => int_str(value as int),
        FilterExpression::Float { value } => int_str(value.mantissa as int) + seq!['e'] + int_str(
            value.exp as int,
        ),
        FilterExpression::Not { expression } => seq!['!'] + expr_str(*expression),
        FilterExpression::Logical { left, operator, right } => seq!['('] + expr_str(*left) + (
        match operator {
            LogicalOperator::And => seq![' ', '&', '&', ' '],
            LogicalOperator::Or => seq![' ', '|', '|', ' '],
        }) + expr_str(*right) + seq![')'],
        FilterExpression::Comparison { left, operator, right } => expr_str(*left) + seq![' ']
            + comp_op_str(operator) + seq![' '] + expr_str(*right),
        FilterExpression::RelativeQuery { query } => seq!['@'] + segs_str(query.segments@),
        FilterExpression::RootQuery { query } => seq!['$'] + segs_str(query.segments@),
        FilterExpression::Function { name, args } => name@ + seq!['('] + args_str(args@) + seq![
            ')',
        ],
        FilterExpression::CurrentKey => seq!['#'],
    }
}

/// The comma-joined text of a function argument list.
pub open spec fn args_str(args: Seq<FilterExpression>) -> Seq<char>
    decreases args, 3int,
{
    if args.len() == 0 {
        Seq::empty()
    } else if args.len() == 1 {
        expr_str(args[0])
    } else {
        args_str(args.drop_last()) + seq![',', ' '] + expr_str(args.last())
    }
}

/// Appends a string, escaped for single quotes, to `out`.
#[verifier::loop_isolation(false)]
#[verifier::rlimit(100)]
pub(crate) fn push_escaped(s: &String, out: &mut Vec<char>)
    ensures
        final(out)@ == old(out)@ + esc_str(s@),
{
    let cs = chars_of(s.as_str());
    proof {
        assert('\u{0008}' as u32 == 8);
        assert('\u{000C}' as u32 == 12);
        assert('\n' as u32 == 10);
        assert('\t' as u32 == 9);
        assert('\r' as u32 == 13);
        assert(s@.take(0) =~= Seq::<char>::empty());
        assert(out@ + esc_str(s@.take(0)) =~= out@);
    }
    let mut i: usize = 0;
    while i < cs.len()
        invariant
            0 <= i <= cs@.len(),
            cs@ == s@,
            out@ == old(out)@ + esc_str(s@.take(i as int)),
        decreases cs@.len() - i,
    {
        let c = cs[i];
        let u = c as u32;
        proof {
            assert(c == s@[i as int]);
        }
        if c == '\\' {
            proof {
                assert(esc_char(c) =~= seq!['\\', '\\']);
            }
            out.push('\\');
            out.push('\\');
        } else if c == '\'' {
            proof {
                assert(esc_char(c) =~= seq!['\\', '\'']);
            }
            out.push('\\');
            out.push('\'');
        } else if c == '\n' {
            proof {
                assert(esc_char(c) =~= seq!['\\', 'n']);
            }
            out.push('\\');
            out.push('n');
        } else if c == '\t' {
            proof {
                assert(esc_char(c) =~= seq!['\\', 't']);
            }
            out.push('\\');
            out.push('t');
        } else if c == '\r' {
            proof {
                assert(esc_char(c) =~= seq!['\\', 'r']);
            }
            out.push('\\');
            out.push('r');
        } else if c == '\u{0008}' {
            proof {
                assert(esc_char(c) =~= seq!['\\', 'b']);
            }
            out.push('\\');
            out.push('b');
        } else if c == '\u{000C}' {
            proof {
                assert(esc_char(c) =~= seq!['\\', 'f']);
            }
            out.push('\\');
            out.push('f');
        } else if u < 0x20 {
            out.push('\\');
            out.push('u');
            out.push('0');
            out.push('0');
            let h1 = hex_digit_exec(u / 16);
            out.push(h1);
            let h2 = hex_digit_exec(u % 16);
            out.push(h2);
            proof {
                assert(esc_char(c) =~= seq!['\\', 'u', '0', '0', hex_digit(((c as u32) / 16) as nat), hex_digit(((c as u32) % 16) as nat)]);
            }
        } else {
            proof {
                assert(esc_char(c) =~= seq![c]);
            }
            out.push(c);
        }
        proof {
            assert(s@.take(i + 1).drop_last() =~= s@.take(i as int));
            assert(s@.take(i + 1).last() == s@[i as int]);
            assert(out@ =~= old(out)@ + esc_str(s@.take(i as int)) + esc_char(s@[i as int]));
            assert(out@ =~= old(out)@ + esc_str(s@.take(i + 1)));
        }
        i = i + 1;
    }
    proof {
        assert(s@.take(s@.len() as int) =~= s@);
    }
}

/// Appends an optional slice bound to `out`.
fn push_opt_int(v: &Option<i64>, out: &mut Vec<char>)
    ensures
        final(out)@ == old(out)@ + opt_int_str(*v),
{
    match v {
        Option::Some(i) => {
            push_i64_digits(*i, out);
        },
        Option::None => {
            proof {
                assert(out@ =~= out@ + opt_int_str(*v));
            }
        },
    }
}

/// Appends the text of one selector to `out`.
#[verifier::loop_isolation(false)]
fn push_selector(sel: &Selector, out: &mut Vec<char>)
    ensures
        final(out)@ == old(out)@ + sel_str(*sel),
    decreases *sel, 3int,
{
    match sel {
        Selector::Name { name } => {
            out.push('\'');
            push_escaped(name, out);
            out.push('\'');
            proof {
                assert(out@ =~= old(out)@ + sel_str(*sel));
            }
        },
        Selector::Index { index } => {
            push_i64_digits(*index, out);
        },
        Selector::Slice { start, stop, step } => {
            push_opt_int(start, out);
            out.push(':');
            push_opt_int(stop, out);
            out.push(':');
            push_opt_int(step, out);
            proof {
                assert(out@ =~= old(out)@ + sel_str(*sel));
            }
        },
        Selector::Wild => {
            out.push('*');
            proof {
                assert(out@ =~= old(out)@ + sel_str(*sel));
            }
        },
        Selector::Filter { expression } => {
            out.push('?');
            push_expr(expression, out);
            proof {
                assert(out@ =~= old(out)@ + sel_str(*sel));
            }
        },
        Selector::Key { name } => {
            out.push('~');
            out.push('\'');
            push_escaped(name, out);
            out.push('\'');
            proof {
                assert(out@ =~= old(out)@ + sel_str(*sel));
            }
        },
        Selector::Keys => {
            out.push('~');
            proof {
                assert(out@ =~= old(out)@ + sel_str(*sel));
            }
        },
        Selector::KeysFilter { expression } => {
            out.push('~');
            out.push('?');
            push_expr(expression, out);
            proof {
                assert(out@ =~= old(out)@ + sel_str(*sel));
            }
        },
    }
}

/// Appends the comma-joined text of a selector list to `out`.
#[verifier::loop_isolation(false)]
fn push_selectors(sels: &Vec<Selector>, out: &mut Vec<char>)
    ensures
        final(out)@ == old(out)@ + sels_str(sels@),
    decreases *sels, 4int,
{
    let mut i: usize = 0;
    proof {
        assert(sels@.take(0) =~= Seq::<Selector>::empty());
        assert(out@ + sels_str(sels@.take(0)) =~= out@);
    }
    while i < sels.len()
        invariant
            0 <= i <= sels@.len(),
            out@ == old(out)@ + sels_str(sels@.take(i as int)),
        decreases sels@.len() - i,
    {
        if i > 0 {
            out.push(',');
            out.push(' ');
        }
        push_selector(&sels[i], out);
        proof {
            assert(sels@.take(i + 1).drop_last() =~= sels@.take(i as int));
            assert(sels@.take(i + 1).last() == sels@[i as int]);
            assert(out@ =~= old(out)@ + sels_str(sels@.take(i + 1)));
        }
        i = i + 1;
    }
    proof {
        assert(sels@.take(sels@.len() as int) =~= sels@);
    }
}

/// Appends the text of one segment to `out`.
#[verifier::loop_isolation(false)]
fn push_segment(seg: &Segment, out: &mut Vec<char>)
    ensures
        final(out)@ == old(out)@ + seg_str(*seg),
    decreases *seg, 5int,
{
    match seg {
        Segment::Child { selectors } => {
            out.push('[');
            push_selectors(selectors, out);
            out.push(']');
            proof {
                assert(out@ =~= old(out)@ + seg_str(*seg));
            }
        },
        Segment::Recursive { selectors } => {
            out.push('.');
            out.push('.');
            out.push('[');
            push_selectors(selectors, out);
            out.push(']');
            proof {
                assert(out@ =~= old(out)@ + seg_str(*seg));
            }
        },
    }
}

/// Appends the concatenated text of a segment list to `out`.
#[verifier::loop_isolation(false)]
fn push_segments(segs: &Vec<Segment>, out: &mut Vec<char>)
    ensures
        final(out)@ == old(out)@ + segs_str(segs@),
    decreases *segs, 6int,
{
    let mut i: usize = 0;
    proof {
        assert(segs@.take(0) =~= Seq::<Segment>::empty());
        assert(out@ + segs_str(segs@.take(0)) =~= out@);
    }
    while i < segs.len()
        invariant
            0 <= i <= segs@.len(),
            out@ == old(out)@ + segs_str(segs@.take(i as int)),
        decreases segs@.len() - i,
    {
        push_segment(&segs[i], out);
        proof {
            assert(segs@.take(i + 1).drop_last() =~= segs@.take(i as int));
            assert(segs@.take(i + 1).last() == segs@[i as int]);
            assert(out@ =~= old(out)@ + segs_str(segs@.take(i + 1)));
        }
        i = i + 1;
    }
    proof {
        assert(segs@.take(segs@.len() as int) =~= segs@);
    }
}

/// Appends the text of a filter expression to `out`.
#[verifier::loop_isolation(false)]
#[verifier::rlimit(100)]
fn push_expr(e: &FilterExpression, out: &mut Vec<char>)
    ensures
        final(out)@ == old(out)@ + expr_str(*e),
    decreases *e, 2int,
{
    match e {
        FilterExpression::True_ => {
            out.push('t');
            out.push('r');
            out.push('u');
            out.push('e');
            proof {
                assert(out@ =~= old(out)@ + expr_str(*e));
            }
        },
        FilterExpression::False_ => {
            out.push('f');
            out.push('a');
            out.push('l');
            out.push('s');
            out.push('e');
            proof {
                assert(out@ =~= old(out)@ + expr_str(*e));
            }
        },
        FilterExpression::Null => {
            out.push('n');
            out.push('u');
            out.push('l');
            out.push('l');
            proof {
                assert(out@ =~= old(out)@ + expr_str(*e));
            }
        },
        FilterExpression::StringLiteral { value } => {
            out.push('\'');
            push_escaped(value, out);
            out.push('\'');
            proof {
                assert(out@ =~= old(out)@ + expr_str(*e));
            }
        },
        FilterExpression::Int { value } => {
            push_i64_digits(*value, out);
        },
        FilterExpression::Float { value } => {
            push_i64_digits(value.mantissa, out);
            out.push('e');
            push_i64_digits(value.exp, out);
            proof {
                assert(out@ =~= old(out)@ + expr_str(*e));
            }
        },
        FilterExpression::Not { expression } => {
            out.push('!');
            push_expr(expression, out);
            proof {
                assert(out@ =~= old(out)@ + expr_str(*e));
            }
        },
        FilterExpression::Logical { left, operator, right } => {
            out.push('(');
            push_expr(left, out);
            match operator {
                LogicalOperator::And => {
                    out.push(' ');
                    out.push('&');
                    out.push('&');
                    out.push(' ');
                },
                LogicalOperator::Or => {
                    out.push(' ');
                    out.push('|');
                    out.push('|');
                    out.push(' ');
                },
            }
            push_expr(right, out);
            out.push(')');
            proof {
                assert(out@ =~= old(out)@ + expr_str(*e));
            }
        },
        FilterExpression::Comparison { left, operator, right } => {
            push_expr(left, out);
            out.push(' ');
            match operator {
                ComparisonOperator::Eq => {
                    out.push('=');
                    out.push('=');
                },
                ComparisonOperator::Ne => {
                    out.push('!');
                    out.push('=');
                },
                ComparisonOperator::Ge => {
                    out.push('>');
                    out.push('=');
                },
                ComparisonOperator::Gt => {
                    out.push('>');
                },
                ComparisonOperator::Le => {
                    out.push('<');
                    out.push('=');
                },
                ComparisonOperator::Lt => {
                    out.push('<');
                },
            }
            out.push(' ');
            push_expr(right, out);
            proof {
                assert(out@ =~= old(out)@ + expr_str(*e));
            }
        },
        FilterExpression::RelativeQuery { query } => {
            out.push('@');
            push_segments(&query.segments, out);
            proof {
                assert(out@ =~= old(out)@ + expr_str(*e));
            }
        },
        FilterExpression::RootQuery { query } => {
            out.push('$');
            push_segments(&query.segments, out);
            proof {
                assert(out@ =~= old(out)@ + expr_str(*e));
            }
        },
        FilterExpression::Function { name, args } => {
            let mut cs = chars_of(name.as_str());
            out.append(&mut cs);
            out.push('(');
            let mut i: usize = 0;
            proof {
                assert(args@.take(0) =~= Seq::<FilterExpression>::empty());
                assert(out@ =~= old(out)@ + name@ + seq!['(']);
                assert(out@ + args_str(args@.take(0)) =~= out@);
            }
            while i < args.len()
                invariant
                    0 <= i <= args@.len(),
                    out@ == old(out)@ + name@ + seq!['('] + args_str(args@.take(i as int)),
                decreases args@.len() - i,
            {
                if i > 0 {
                    out.push(',');
                    out.push(' ');
                }
                push_expr(&args[i], out);
                proof {
                    assert(args@.take(i + 1).drop_last() =~= args@.take(i as int));
                    assert(args@.take(i + 1).last() == args@[i as int]);
                    assert(out@ =~= old(out)@ + name@ + seq!['('] + args_str(args@.take(i + 1)));
                }
                i = i + 1;
            }
            out.push(')');
            proof {
                assert(args@.take(args@.len() as int) =~= args@);
                assert(out@ =~= old(out)@ + expr_str(*e));
            }
        },
        FilterExpression::CurrentKey => {
            out.push('#');
            proof {
                assert(out@ =~= old(out)@ + expr_str(*e));
            }
        },
    }
}

impl Query {
    /// This query as canonical query text.
    pub fn to_query_string(&self) -> (r: String)
        ensures
            r@ == query_str(*self),
    {
        let mut out: Vec<char> = Vec::new();
        out.push('$');
        push_segments(&self.segments, &mut out);
        proof {
            assert(out@ =~= query_str(*self));
        }
        chars_to_string(out)
    }
}

impl FilterExpression {
    /// This expression as canonical filter text.
    pub fn to_expr_string(&self) -> (r: String)
        ensures
            r@ == expr_str(*self),
    {
        let mut out: Vec<char> = Vec::new();
        push_expr(self, &mut out);
        proof {
            assert(out@ =~= expr_str(*self));
        }
        chars_to_string(out)
    }
}

impl Segment {
    /// This segment as canonical query text.
    pub fn to_segment_string(&self) -> (r: String)
        ensures
            r@ == seg_str(*self),
    {
        let mut out: Vec<char> = Vec::new();
        push_segment(self, &mut out);
        proof {
            assert(out@ =~= seg_str(*self));
        }
        chars_to_string(out)
    }
}

impl Selector {
    /// This selector as canonical query text.
    pub fn to_selector_string(&self) -> (r: String)
        ensures
            r@ == sel_str(*self),
    {
        let mut out: Vec<char> = Vec::new();
        push_selector(self, &mut out);
        proof {
            assert(out@ =~= sel_str(*self));
        }
        chars_to_string(out)
    }
}

} // verus!
