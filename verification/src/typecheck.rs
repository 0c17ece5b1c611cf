//! The filter type checker: validates filter expressions against RFC 9535's
//! type system. A comparison side must be comparable — a literal, a
//! singular query, the current key, or a function returning a value — and a
//! function call must match its registered signature.

use crate::errors::{JSONPathError, JSONPathErrorType};
use crate::filter::FilterExpression;
use crate::query::{is_singular_query, Query};
use crate::segment::Segment;
use crate::selector::Selector;
use crate::{ExpressionType, FunctionSignature};
use vstd::prelude::*;

verus! {

broadcast use vstd::std_specs::vec::group_vec_axioms;

/// The signature registered under `name`, searching from `i`.
pub open spec fn sig_lookup_from(
    sigs: Seq<(String, FunctionSignature)>,
    name: Seq<char>,
    i: int,
) -> Option<FunctionSignature>
    decreases sigs.len() - i,
{
    if i < 0 || i >= sigs.len() {
        None
    } else if sigs[i].0@ == name {
        Some(sigs[i].1)
    } else {
        sig_lookup_from(sigs, name, i + 1)
    }
}

/// The signature registered under `name`, if any.
pub open spec fn sig_lookup(sigs: Seq<(String, FunctionSignature)>, name: Seq<char>) -> Option<
    FunctionSignature,
> {
    sig_lookup_from(sigs, name, 0)
}

/// Whether an expression may stand on a comparison side: a literal, the
/// current key, a singular query, or a function returning a value.
pub open spec fn comparable(e: FilterExpression, sigs: Seq<(String, FunctionSignature)>) -> bool {
    match e {
        FilterExpression::RelativeQuery { query } => is_singular_query(*query),
        FilterExpression::RootQuery { query } => is_singular_query(*query),
        FilterExpression::Function { name, args } => match sig_lookup(sigs, name@) {
            Option::Some(sig) => sig.return_type == ExpressionType::Value,
            Option::None => false,
        },
        FilterExpression::CurrentKey => true,
        _ => e.is_literal_spec(),
    }
}

/// Whether an expression is well-typed against the registered signatures.
pub open spec fn wt_expr(e: FilterExpression, sigs: Seq<(String, FunctionSignature)>) -> bool
    decreases e, 0int,
{
    match e {
        FilterExpression::Not { expression } => wt_expr(*expression, sigs),
        FilterExpression::Logical { left, operator, right } => wt_expr(*left, sigs) && wt_expr(
            *right,
            sigs,
        ),
        FilterExpression::Comparison { left, operator, right } => comparable(*left, sigs)
            && comparable(*right, sigs) && wt_expr(*left, sigs) && wt_expr(*right, sigs),
        FilterExpression::RelativeQuery { query } => wt_query(*query, sigs),
        FilterExpression::RootQuery { query } => wt_query(*query, sigs),
        FilterExpression::Function { name, args } => match sig_lookup(sigs, name@) {
            Option::Some(sig) => args@.len() == sig.param_types@.len() && wt_args(
                args@,
                sig.param_types@,
                sigs,
            ),
            Option::None => false,
        },
        _ => true,
    }
}

/// Whether each argument is well-typed and fits its declared parameter
/// type: a `Value` slot takes a comparable, a `Nodes` slot a query or a
/// function returning nodes, a `Logical` slot any expression.
pub open spec fn wt_args(
    args: Seq<FilterExpression>,
    params: Seq<ExpressionType>,
    sigs: Seq<(String, FunctionSignature)>,
) -> bool
    decreases args, 1int,
{
    if args.len() == 0 {
        true
    } else {
        wt_expr(args[0], sigs) && (if params.len() > 0 {
            arg_fits(args[0], params[0], sigs)
        } else {
            false
        }) && wt_args(args.drop_first(), params.drop_first(), sigs)
    }
}

/// Whether one argument fits one declared parameter type.
pub open spec fn arg_fits(
    e: FilterExpression,
    t: ExpressionType,
    sigs: Seq<(String, FunctionSignature)>,
) -> bool {
    match t {
        ExpressionType::Value => comparable(e, sigs),
        ExpressionType::Nodes => match e {
            FilterExpression::RelativeQuery { .. } => true,
            FilterExpression::RootQuery { .. } => true,
            FilterExpression::Function { name, .. } => match sig_lookup(sigs, name@) {
                Option::Some(sig) => sig.return_type == ExpressionType::Nodes,
                Option::None => false,
            },
            _ => false,
        },
        ExpressionType::Logical => true,
    }
}

/// Whether every filter inside a query is well-typed.
pub open spec fn wt_query(q: Query, sigs: Seq<(String, FunctionSignature)>) -> bool
    decreases q, 2int,
{
    wt_segments(q.segments@, sigs)
}

pub open spec fn wt_segments(segs: Seq<Segment>, sigs: Seq<(String, FunctionSignature)>) -> bool
    decreases segs, 1int,
{
    if segs.len() == 0 {
        true
    } else {
        wt_segment(segs[0], sigs) && wt_segments(segs.drop_first(), sigs)
    }
}

pub open spec fn wt_segment(seg: Segment, sigs: Seq<(String, FunctionSignature)>) -> bool
    decreases seg, 1int,
{
    match seg {
        Segment::Child { selectors } => wt_selectors(selectors@, sigs),
        Segment::Recursive { selectors } => wt_selectors(selectors@, sigs),
    }
}

pub open spec fn wt_selectors(sels: Seq<Selector>, sigs: Seq<(String, FunctionSignature)>) -> bool
    decreases sels, 1int,
{
    if sels.len() == 0 {
        true
    } else {
        wt_selector(sels[0], sigs) && wt_selectors(sels.drop_first(), sigs)
    }
}

pub open spec fn wt_selector(sel: Selector, sigs: Seq<(String, FunctionSignature)>) -> bool
    decreases sel, 1int,
{
    match sel {
        Selector::Filter { expression } => wt_expr(*expression, sigs),
        Selector::KeysFilter { expression } => wt_expr(*expression, sigs),
        _ => true,
    }
}

/// The signature registered under `name`, if any.
#[verifier::loop_isolation(false)]
pub fn find_signature<'a>(sigs: &'a Vec<(String, FunctionSignature)>, name: &String) -> (r:
    Option<&'a FunctionSignature>)
    ensures
        match r {
            Option::Some(sig) => sig_lookup(sigs@, name@) == Some(*sig),
            Option::None => sig_lookup(sigs@, name@) is None,
        },
{
    let mut i: usize = 0;
    while i < sigs.len()
        invariant
            0 <= i <= sigs@.len(),
            sig_lookup(sigs@, name@) == sig_lookup_from(sigs@, name@, i as int),
        decreases sigs@.len() - i,
    {
        if sigs[i].0.eq(name) {
            return Some(&sigs[i].1);
        }
        i = i + 1;
    }
    None
}

/// Checks that an expression may stand on a comparison side.
fn check_comparable(
    e: &FilterExpression,
    sigs: &Vec<(String, FunctionSignature)>,
) -> (r: Result<(), JSONPathError>)
    ensures
        r is Ok <==> comparable(*e, sigs@),
        r is Err ==> r->Err_0.kind == JSONPathErrorType::TypeError || r->Err_0.kind
            == JSONPathErrorType::NameError,
{
    match e {
        FilterExpression::RelativeQuery { query } => {
            if query.is_singular() {
                Ok(())
            } else {
                Err(JSONPathError::typ("a comparison needs a singular query".to_owned()))
            }
        },
        FilterExpression::RootQuery { query } => {
            if query.is_singular() {
                Ok(())
            } else {
                Err(JSONPathError::typ("a comparison needs a singular query".to_owned()))
            }
        },
        FilterExpression::Function { name, args } => match find_signature(sigs, name) {
            Option::Some(sig) => match sig.return_type {
                ExpressionType::Value => Ok(()),
                _ => Err(
                    JSONPathError::typ(
                        "a comparison needs a function returning a value".to_owned(),
                    ),
                ),
            },
            Option::None => Err(JSONPathError::name("unknown filter function".to_owned())),
        },
        FilterExpression::CurrentKey => Ok(()),
        _ => {
            if e.is_literal() {
                Ok(())
            } else {
                Err(JSONPathError::typ("this expression is not comparable".to_owned()))
            }
        },
    }
}

/// Checks an expression against the registered signatures: `Ok` exactly for
/// the well-typed ones.
#[verifier::loop_isolation(false)]
pub fn check_expr(e: &FilterExpression, sigs: &Vec<(String, FunctionSignature)>) -> (r: Result<
    (),
    JSONPathError,
>)
    ensures
        r is Ok <==> wt_expr(*e, sigs@),
        r is Err ==> r->Err_0.kind == JSONPathErrorType::TypeError || r->Err_0.kind
            == JSONPathErrorType::NameError,
    decreases *e, 0int,
{
    match e {
        FilterExpression::Not { expression } => check_expr(expression, sigs),
        FilterExpression::Logical { left, operator, right } => {
            check_expr(left, sigs)?;
            check_expr(right, sigs)
        },
        FilterExpression::Comparison { left, operator, right } => {
            check_comparable(left, sigs)?;
            check_comparable(right, sigs)?;
            check_expr(left, sigs)?;
            check_expr(right, sigs)
        },
        FilterExpression::RelativeQuery { query } => check_query(query, sigs),
        FilterExpression::RootQuery { query } => check_query(query, sigs),
        FilterExpression::Function { name, args } => {
            let params: Vec<ExpressionType>;
            match find_signature(sigs, name) {
                Option::Some(sig) => {
                    params = sig.param_types.clone();
                },
                Option::None => {
                    return Err(JSONPathError::name("unknown filter function".to_owned()));
                },
            }
            if args.len() != params.len() {
                return Err(
                    JSONPathError::typ("wrong number of filter function arguments".to_owned()),
                );
            }
            let ghost sig0 = sig_lookup(sigs@, name@)->Some_0;
            proof {
                assert(args@.skip(0) =~= args@);
                assert(params@.skip(0) =~= params@);
            }
            let mut i: usize = 0;
            while i < args.len()
                invariant
                    0 <= i <= args@.len(),
                    args@.len() == params@.len(),
                    params@ == sig0.param_types@,
                    sig_lookup(sigs@, name@) == Some(sig0),
                    wt_args(args@, params@, sigs@) == wt_args(
                        args@.skip(i as int),
                        params@.skip(i as int),
                        sigs@,
                    ),
                decreases args@.len() - i,
            {
                proof {
                    assert(args@.skip(i as int)[0] == args@[i as int]);
                    assert(args@.skip(i as int).drop_first() =~= args@.skip(i + 1));
                    assert(params@.skip(i as int)[0] == params@[i as int]);
                    assert(params@.skip(i as int).drop_first() =~= params@.skip(i + 1));
                }
                check_expr(&args[i], sigs)?;
                let fits = match params[i] {
                    ExpressionType::Value => match check_comparable(&args[i], sigs) {
                        Result::Ok(_) => true,
                        Result::Err(_) => false,
                    },
                    ExpressionType::Nodes => match &args[i] {
                        FilterExpression::RelativeQuery { .. } => true,
                        FilterExpression::RootQuery { .. } => true,
                        FilterExpression::Function { name: inner, .. } => match find_signature(
                            sigs,
                            inner,
                        ) {
                            Option::Some(s2) => match s2.return_type {
                                ExpressionType::Nodes => true,
                                _ => false,
                            },
                            Option::None => false,
                        },
                        _ => false,
                    },
                    ExpressionType::Logical => true,
                };
                if !fits {
                    return Err(
                        JSONPathError::typ(
                            "a filter function argument has the wrong type".to_owned(),
                        ),
                    );
                }
                i = i + 1;
            }
            proof {
                assert(args@.skip(args@.len() as int) =~= Seq::<FilterExpression>::empty());
            }
            Ok(())
        },
        _ => Ok(()),
    }
}

/// Checks every filter inside a query.
#[verifier::loop_isolation(false)]
pub fn check_query(q: &Query, sigs: &Vec<(String, FunctionSignature)>) -> (r: Result<
    (),
    JSONPathError,
>)
    ensures
        r is Ok <==> wt_query(*q, sigs@),
        r is Err ==> r->Err_0.kind == JSONPathErrorType::TypeError || r->Err_0.kind
            == JSONPathErrorType::NameError,
    decreases *q, 2int,
{
    let ghost segs = q.segments@;
    proof {
        assert(segs.skip(0) =~= segs);
    }
    let mut i: usize = 0;
    while i < q.segments.len()
        invariant
            0 <= i <= segs.len(),
            segs == q.segments@,
            wt_segments(segs, sigs@) == wt_segments(segs.skip(i as int), sigs@),
        decreases segs.len() - i,
    {
        proof {
            assert(segs.skip(i as int)[0] == segs[i as int]);
            assert(segs.skip(i as int).drop_first() =~= segs.skip(i + 1));
        }
        check_segment(&q.segments[i], sigs)?;
        i = i + 1;
    }
    proof {
        assert(segs.skip(segs.len() as int) =~= Seq::<Segment>::empty());
    }
    Ok(())
}

/// Checks every filter inside a segment.
#[verifier::loop_isolation(false)]
fn check_segment(seg: &Segment, sigs: &Vec<(String, FunctionSignature)>) -> (r: Result<
    (),
    JSONPathError,
>)
    ensures
        r is Ok <==> wt_segment(*seg, sigs@),
        r is Err ==> r->Err_0.kind == JSONPathErrorType::TypeError || r->Err_0.kind
            == JSONPathErrorType::NameError,
    decreases *seg, 1int,
{
    let selectors = match seg {
        Segment::Child { selectors } => selectors,
        Segment::Recursive { selectors } => selectors,
    };
    let ghost sels = selectors@;
    proof {
        assert(sels.skip(0) =~= sels);
        assert(wt_segment(*seg, sigs@) == wt_selectors(sels, sigs@));
    }
    let mut i: usize = 0;
    while i < selectors.len()
        invariant
            0 <= i <= sels.len(),
            sels == selectors@,
            wt_selectors(sels, sigs@) == wt_selectors(sels.skip(i as int), sigs@),
        decreases sels.len() - i,
    {
        proof {
            assert(sels.skip(i as int)[0] == sels[i as int]);
            assert(sels.skip(i as int).drop_first() =~= sels.skip(i + 1));
        }
        match &selectors[i] {
            Selector::Filter { expression } => {
                proof {
                    assert(wt_selector(sels[i as int], sigs@) == wt_expr(**expression, sigs@));
                }
                check_expr(expression, sigs)?;
            },
            Selector::KeysFilter { expression } => {
                proof {
                    assert(wt_selector(sels[i as int], sigs@) == wt_expr(**expression, sigs@));
                }
                check_expr(expression, sigs)?;
            },
            _ => {
                proof {
                    assert(wt_selector(sels[i as int], sigs@));
                }
            },
        }
        i = i + 1;
    }
    proof {
        assert(sels.skip(sels.len() as int) =~= Seq::<Selector>::empty());
    }
    Ok(())
}

} // verus!
