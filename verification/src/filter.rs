//! Filter expressions: the abstract syntax of `[?...]` selectors, their
//! evaluation, and the result type evaluation produces.

use crate::errors::JSONPathError;
use crate::node::{nodes_model, NodeList};
use crate::num::Decimal;
use crate::query::Query;
use crate::regexp::{anchor_pattern, regex_is_match};
use crate::semantics::{
    apply_function, args_eval, coerce_arg, expr_eval, length_sem, match_sem, scompare,
    search_sem, sres_eq, sres_lt, sres_truthy, sval_size, unwrap_single, SFilterRes,
};
use crate::value::{val_eq, JsonValue};
use crate::ExpressionType;
use crate::QueryContext;
use vstd::prelude::*;
use vstd::string::{StrSliceExecFns, StringExecFns};

verus! {

broadcast use vstd::std_specs::vec::group_vec_axioms;

/// `&&` or `||` in a filter expression.
#[derive(Debug, Clone, PartialEq, Eq, Structural)]
pub enum LogicalOperator {
    And,
    Or,
}

/// A comparison operator in a filter expression.
#[derive(Debug, Clone, PartialEq, Eq, Structural)]
pub enum ComparisonOperator {
    Eq,
    Ne,
    Ge,
    Gt,
    Le,
    Lt,
}

/// A filter expression tree. Every recursive payload is an owned indirection;
/// no cycles exist.
#[derive(Debug, PartialEq)]
pub enum FilterExpression {
    True_,
    False_,
    Null,
    StringLiteral { value: String },
    Int { value: i64 },
    Float { value: Decimal },
    Not { expression: Box<FilterExpression> },
    Logical {
        left: Box<FilterExpression>,
        operator: LogicalOperator,
        right: Box<FilterExpression>,
    },
    Comparison {
        left: Box<FilterExpression>,
        operator: ComparisonOperator,
        right: Box<FilterExpression>,
    },
    RelativeQuery { query: Box<Query> },
    RootQuery { query: Box<Query> },
    Function { name: String, args: Vec<FilterExpression> },
    CurrentKey,
}

/// What a filter subexpression evaluates to: a single value, a node list
/// from a sub-query, or the distinguished "no value" sentinel.
#[derive(Debug)]
pub enum FilterExpressionResult {
    Value(JsonValue),
    Nodes(NodeList),
    Nothing,
}

impl View for FilterExpressionResult {
    type V = SFilterRes;

    open spec fn view(&self) -> SFilterRes {
        match self {
            FilterExpressionResult::Value(v) => SFilterRes::Val(v@),
            FilterExpressionResult::Nodes(nl) => SFilterRes::Nodes(nodes_model(nl@)),
            FilterExpressionResult::Nothing => SFilterRes::Nothing,
        }
    }
}

/// The shape of an optional current key.
pub open spec fn key_model(key: Option<&JsonValue>) -> Option<crate::value::JsonVal> {
    match key {
        Option::Some(k) => Some(k@),
        Option::None => None,
    }
}

/// The shapes of a list of filter results.
pub open spec fn results_model(rs: Seq<FilterExpressionResult>) -> Seq<SFilterRes> {
    rs.map(|i: int, r: FilterExpressionResult| r@)
}

/// Whether a filter result counts as true.
pub fn is_truthy(rv: &FilterExpressionResult) -> (r: bool)
    ensures
        r == sres_truthy(rv@),
{
    match rv {
        FilterExpressionResult::Nothing => false,
        FilterExpressionResult::Nodes(nodes) => nodes.len() > 0,
        FilterExpressionResult::Value(v) => v.truthy(),
    }
}

/// Unwraps a node list of length one to its single value.
fn nodes_or_singular(rv: FilterExpressionResult) -> (r: FilterExpressionResult)
    ensures
        r@ == unwrap_single(rv@),
{
    match rv {
        FilterExpressionResult::Nodes(mut nodes) => {
            if nodes.len() == 1 {
                let ghost orig = nodes@;
                let node = nodes.pop().unwrap();
                proof {
                    assert(nodes_model(orig)[0] == orig[0]@);
                }
                FilterExpressionResult::Value(node.value)
            } else {
                FilterExpressionResult::Nodes(nodes)
            }
        },
        _ => rv,
    }
}

/// Equality of two comparison sides.
#[verifier::loop_isolation(false)]
fn eq(left: &FilterExpressionResult, right: &FilterExpressionResult) -> (r: bool)
    ensures
        r == sres_eq(left@, right@),
{
    match (left, right) {
        (FilterExpressionResult::Nodes(l), FilterExpressionResult::Nodes(r)) => {
            if l.len() != r.len() {
                return false;
            }
            let mut i: usize = 0;
            while i < l.len()
                invariant
                    0 <= i <= l@.len(),
                    l@.len() == r@.len(),
                    forall|k: int|
                        0 <= k < i ==> val_eq(
                            (#[trigger] nodes_model(l@)[k]).val,
                            nodes_model(r@)[k].val,
                        ),
                decreases l@.len() - i,
            {
                proof {
                    assert(nodes_model(l@)[i as int] == l@[i as int]@);
                    assert(nodes_model(r@)[i as int] == r@[i as int]@);
                }
                if !l[i].value.deep_eq(&r[i].value) {
                    return false;
                }
                i = i + 1;
            }
            true
        },
        (FilterExpressionResult::Nodes(ns), FilterExpressionResult::Nothing) => ns.len() == 0,
        (FilterExpressionResult::Nothing, FilterExpressionResult::Nodes(ns)) => ns.len() == 0,
        (FilterExpressionResult::Nodes(ns), FilterExpressionResult::Value(v)) => ns.len() == 1
            && v.deep_eq(&ns[0].value),
        (FilterExpressionResult::Value(v), FilterExpressionResult::Nodes(ns)) => ns.len() == 1
            && v.deep_eq(&ns[0].value),
        (FilterExpressionResult::Nothing, FilterExpressionResult::Nothing) => true,
        (FilterExpressionResult::Nothing, FilterExpressionResult::Value(_)) => false,
        (FilterExpressionResult::Value(_), FilterExpressionResult::Nothing) => false,
        (FilterExpressionResult::Value(l), FilterExpressionResult::Value(r)) => l.deep_eq(r),
    }
}

/// Strict order of two comparison sides.
fn lt(left: &FilterExpressionResult, right: &FilterExpressionResult) -> (r: bool)
    ensures
        r == sres_lt(left@, right@),
{
    match (left, right) {
        (FilterExpressionResult::Value(l), FilterExpressionResult::Value(r)) => l.deep_lt(r),
        _ => false,
    }
}

/// The outcome of a comparison: singular node lists unwrap to their value
/// first.
fn compare(
    left: FilterExpressionResult,
    op: &ComparisonOperator,
    right: FilterExpressionResult,
) -> (r: bool)
    ensures
        r == scompare(left@, *op, right@),
{
    let l = nodes_or_singular(left);
    let r = nodes_or_singular(right);
    match op {
        ComparisonOperator::Eq => eq(&l, &r),
        ComparisonOperator::Ne => !eq(&l, &r),
        ComparisonOperator::Lt => lt(&l, &r),
        ComparisonOperator::Gt => lt(&r, &l),
        ComparisonOperator::Ge => lt(&r, &l) || eq(&l, &r),
        ComparisonOperator::Le => lt(&l, &r) || eq(&l, &r),
    }
}

/// Coerces an evaluated argument to its declared parameter type.
fn unpack_result(rv: FilterExpressionResult, t: ExpressionType) -> (r: FilterExpressionResult)
    ensures
        r@ == coerce_arg(rv@, t),
{
    match t {
        ExpressionType::Nodes => rv,
        ExpressionType::Value => match rv {
            FilterExpressionResult::Nodes(mut nodes) => {
                if nodes.len() == 1 {
                    let ghost orig = nodes@;
                    let node = nodes.pop().unwrap();
                    proof {
                        assert(nodes_model(orig)[0] == orig[0]@);
                    }
                    FilterExpressionResult::Value(node.value)
                } else {
                    FilterExpressionResult::Nothing
                }
            },
            _ => rv,
        },
        ExpressionType::Logical => {
            let t = is_truthy(&rv);
            FilterExpressionResult::Value(JsonValue::Bool(t))
        },
    }
}

/// The length of a string, array or object value; nothing otherwise.
fn length_exec(rv: FilterExpressionResult) -> (r: FilterExpressionResult)
    ensures
        r@ == length_sem(rv@),
{
    match rv {
        FilterExpressionResult::Value(JsonValue::Str(s)) => {
            let n = s.as_str().unicode_len();
            FilterExpressionResult::Value(
                JsonValue::Num(Decimal { mantissa: #[verifier::truncate] (n as i64), exp: 0 }),
            )
        },
        FilterExpressionResult::Value(JsonValue::Array(a)) => {
            proof {
                crate::value::lemma_arr_model_len(a@);
            }
            FilterExpressionResult::Value(
                JsonValue::Num(Decimal { mantissa: #[verifier::truncate] (a.len() as i64), exp: 0 }),
            )
        },
        FilterExpressionResult::Value(JsonValue::Object(m)) => {
            proof {
                crate::value::lemma_obj_model_len(m@);
            }
            FilterExpressionResult::Value(
                JsonValue::Num(Decimal { mantissa: #[verifier::truncate] (m.len() as i64), exp: 0 }),
            )
        },
        _ => FilterExpressionResult::Nothing,
    }
}

/// Applies a pattern to a text, as a whole-text match or a substring search.
fn regex_apply(a: FilterExpressionResult, b: FilterExpressionResult, full: bool) -> (r:
    FilterExpressionResult)
    ensures
        full ==> r@ == match_sem(a@, b@),
        !full ==> r@ == search_sem(a@, b@),
{
    match (a, b) {
        (
            FilterExpressionResult::Value(JsonValue::Str(s)),
            FilterExpressionResult::Value(JsonValue::Str(p)),
        ) => {
            let found: bool;
            if full {
                let ap = anchor_pattern(p.as_str());
                found = match regex_is_match(ap.as_str(), s.as_str()) {
                    Option::Some(b) => b,
                    Option::None => false,
                };
            } else {
                found = match regex_is_match(p.as_str(), s.as_str()) {
                    Option::Some(b) => b,
                    Option::None => false,
                };
            }
            FilterExpressionResult::Value(JsonValue::Bool(found))
        },
        _ => FilterExpressionResult::Value(JsonValue::Bool(false)),
    }
}

/// Applies a built-in filter function to its evaluated arguments. Any other
/// name needs a host callable, which the engine reports as an extension
/// error.
fn apply_function_exec(name: &String, args: Vec<FilterExpressionResult>) -> (r: Result<
    FilterExpressionResult,
    JSONPathError,
>)
    ensures
        match apply_function(name@, results_model(args@)) {
            Option::Some(res) => r is Ok && r->Ok_0@ == res,
            Option::None => r is Err && r->Err_0.kind == crate::errors::JSONPathErrorType::ExtError,
        },
{
    let ghost rs = results_model(args@);
    if name.eq(&"length".to_owned()) {
        if args.len() == 1 {
            let mut args = args;
            let a0 = args.pop().unwrap();
            proof {
                assert(a0@ == rs[0]);
            }
            return Ok(length_exec(unpack_result(a0, ExpressionType::Value)));
        }
    } else if name.eq(&"count".to_owned()) {
        if args.len() == 1 {
            let mut args = args;
            let a0 = args.pop().unwrap();
            proof {
                assert(a0@ == rs[0]);
            }
            match a0 {
                FilterExpressionResult::Nodes(ns) => {
                    return Ok(
                        FilterExpressionResult::Value(
                            JsonValue::Num(
                                Decimal {
                                    mantissa: #[verifier::truncate] (ns.len() as i64),
                                    exp: 0,
                                },
                            ),
                        ),
                    );
                },
                _ => {
                    return Err(
                        JSONPathError::ext(String::from_str("count() takes a node list")),
                    );
                },
            }
        }
    } else if name.eq(&"value".to_owned()) {
        if args.len() == 1 {
            let mut args = args;
            let a0 = args.pop().unwrap();
            proof {
                assert(a0@ == rs[0]);
            }
            match a0 {
                FilterExpressionResult::Nodes(mut ns) => {
                    if ns.len() == 1 {
                        let ghost orig = ns@;
                        let node = ns.pop().unwrap();
                        proof {
                            assert(nodes_model(orig)[0] == orig[0]@);
                        }
                        return Ok(FilterExpressionResult::Value(node.value));
                    } else {
                        return Ok(FilterExpressionResult::Nothing);
                    }
                },
                _ => {
                    return Err(
                        JSONPathError::ext(String::from_str("value() takes a node list")),
                    );
                },
            }
        }
    } else if name.eq(&"match".to_owned()) {
        if args.len() == 2 {
            let mut args = args;
            let a1 = args.pop().unwrap();
            let a0 = args.pop().unwrap();
            proof {
                assert(a0@ == rs[0]);
                assert(a1@ == rs[1]);
            }
            return Ok(
                regex_apply(
                    unpack_result(a0, ExpressionType::Value),
                    unpack_result(a1, ExpressionType::Value),
                    true,
                ),
            );
        }
    } else if name.eq(&"search".to_owned()) {
        if args.len() == 2 {
            let mut args = args;
            let a1 = args.pop().unwrap();
            let a0 = args.pop().unwrap();
            proof {
                assert(a0@ == rs[0]);
                assert(a1@ == rs[1]);
            }
            return Ok(
                regex_apply(
                    unpack_result(a0, ExpressionType::Value),
                    unpack_result(a1, ExpressionType::Value),
                    false,
                ),
            );
        }
    }
    Err(JSONPathError::ext(String::from_str("filter function needs a host callable")))
}

impl FilterExpression {
    /// Whether this expression is a literal.
    pub fn is_literal(&self) -> (r: bool)
        ensures
            r == self.is_literal_spec(),
    {
        match self {
            FilterExpression::True_ => true,
            FilterExpression::False_ => true,
            FilterExpression::Null => true,
            FilterExpression::StringLiteral { .. } => true,
            FilterExpression::Int { .. } => true,
            FilterExpression::Float { .. } => true,
            _ => false,
        }
    }

    /// Whether this expression is a literal.
    pub open spec fn is_literal_spec(&self) -> bool {
        match self {
            FilterExpression::True_ => true,
            FilterExpression::False_ => true,
            FilterExpression::Null => true,
            FilterExpression::StringLiteral { .. } => true,
            FilterExpression::Int { .. } => true,
            FilterExpression::Float { .. } => true,
            _ => false,
        }
    }

    /// The value of this expression on the current node: exactly the
    /// mathematical evaluation, with an extension error where that needs a
    /// host callable.
    #[verifier::loop_isolation(false)]
    pub fn evaluate(
        &self,
        current: &JsonValue,
        key: Option<&JsonValue>,
        context: &QueryContext,
    ) -> (r: Result<FilterExpressionResult, JSONPathError>)
        ensures
            match expr_eval(*self, current@, key_model(key), context.root@) {
                Option::Some(res) => r is Ok && r->Ok_0@ == res,
                Option::None => r is Err && r->Err_0.kind
                    == crate::errors::JSONPathErrorType::ExtError,
            },
        decreases *self, sval_size(current@), 0int,
    {
        match self {
            FilterExpression::True_ => Ok(FilterExpressionResult::Value(JsonValue::Bool(true))),
            FilterExpression::False_ => Ok(FilterExpressionResult::Value(JsonValue::Bool(false))),
            FilterExpression::Null => Ok(FilterExpressionResult::Value(JsonValue::Null)),
            FilterExpression::StringLiteral { value } => Ok(
                FilterExpressionResult::Value(JsonValue::Str(value.clone())),
            ),
            FilterExpression::Int { value } => Ok(
                FilterExpressionResult::Value(JsonValue::Num(Decimal { mantissa: *value, exp: 0 })),
            ),
            FilterExpression::Float { value } => Ok(
                FilterExpressionResult::Value(JsonValue::Num(*value)),
            ),
            FilterExpression::Not { expression } => {
                let inner = expression.evaluate(current, key, context)?;
                let t = is_truthy(&inner);
                Ok(FilterExpressionResult::Value(JsonValue::Bool(!t)))
            },
            FilterExpression::Logical { left, operator, right } => {
                let l = left.evaluate(current, key, context)?;
                let l_true = is_truthy(&l);
                match operator {
                    LogicalOperator::And => {
                        if !l_true {
                            Ok(FilterExpressionResult::Value(JsonValue::Bool(false)))
                        } else {
                            let r = right.evaluate(current, key, context)?;
                            let r_true = is_truthy(&r);
                            Ok(FilterExpressionResult::Value(JsonValue::Bool(r_true)))
                        }
                    },
                    LogicalOperator::Or => {
                        if l_true {
                            Ok(FilterExpressionResult::Value(JsonValue::Bool(true)))
                        } else {
                            let r = right.evaluate(current, key, context)?;
                            let r_true = is_truthy(&r);
                            Ok(FilterExpressionResult::Value(JsonValue::Bool(r_true)))
                        }
                    },
                }
            },
            FilterExpression::Comparison { left, operator, right } => {
                let l = left.evaluate(current, key, context)?;
                let r = right.evaluate(current, key, context)?;
                let c = compare(l, operator, r);
                Ok(FilterExpressionResult::Value(JsonValue::Bool(c)))
            },
            FilterExpression::RelativeQuery { query } => {
                proof {
                    assert(crate::semantics::query_nodes_boxed(*query, current@)
                        == crate::semantics::query_nodes(**query, current@));
                }
                let nodes = query.resolve(current, context.env)?;
                Ok(FilterExpressionResult::Nodes(nodes))
            },
            FilterExpression::RootQuery { query } => {
                proof {
                    assert(crate::semantics::query_nodes_boxed(*query, context.root@)
                        == crate::semantics::query_nodes(**query, context.root@));
                }
                let nodes = query.resolve(context.root, context.env)?;
                Ok(FilterExpressionResult::Nodes(nodes))
            },
            FilterExpression::Function { name, args } => {
                let mut results: Vec<FilterExpressionResult> = Vec::new();
                proof {
                    assert(args@.skip(0) =~= args@);
                    assert(results_model(results@) =~= Seq::<SFilterRes>::empty());
                }
                let mut i: usize = 0;
                while i < args.len()
                    invariant
                        0 <= i <= args@.len(),
                        results@.len() == i,
                        args_eval(args@, current@, key_model(key), context.root@) == (match
                            args_eval(args@.skip(i as int), current@, key_model(key), context.root@) {
                            Option::Some(rest) => Some(results_model(results@) + rest),
                            Option::None => None::<Seq<SFilterRes>>,
                        }),
                    decreases args@.len() - i,
                {
                    proof {
                        assert(args@.skip(i as int)[0] == args@[i as int]);
                        assert(args@.skip(i as int).drop_first() =~= args@.skip(i + 1));
                    }
                    let ghost results_before = results@;
                    let rv = args[i].evaluate(current, key, context)?;
                    results.push(rv);
                    proof {
                        assert(results_model(results@) =~= results_model(results_before).push(
                            results@[i as int]@,
                        ));
                    }
                    i = i + 1;
                }
                proof {
                    assert(args@.skip(args@.len() as int) =~= Seq::<FilterExpression>::empty());
                    assert(results_model(results@) + Seq::<SFilterRes>::empty() =~= results_model(
                        results@,
                    ));
                }
                apply_function_exec(name, results)
            },
            FilterExpression::CurrentKey => match key {
                Option::Some(k) => Ok(FilterExpressionResult::Value(k.deep_clone())),
                Option::None => Ok(FilterExpressionResult::Nothing),
            },
        }
    }
}

} // verus!
