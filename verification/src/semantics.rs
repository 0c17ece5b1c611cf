//! The mathematical semantics of query evaluation: what resolving a query
//! against a document yields, stated over the ghost shapes of documents and
//! nodes. The executable evaluator is proved equal to these functions.
//!
//! Every evaluation function returns `Option`: `None` means evaluation
//! reached a filter function that is not one of the built-in five, whose
//! callable lives with the host; the executable evaluator reports that as an
//! extension error.

use crate::filter::{ComparisonOperator, FilterExpression, LogicalOperator};
use crate::node::{PathEl, SNode};
use crate::num::{dec_eq, dec_lt, Decimal};
use crate::query::Query;
use crate::regexp::{anchored, regex_found, regex_valid};
use crate::segment::Segment;
use crate::selector::Selector;
use crate::value::{obj_lookup, val_eq, val_lt, val_truthy, JsonVal};
use crate::ExpressionType;
use vstd::prelude::*;

verus! {

// ---------------------------------------------------------------------------
// Size measures, used for termination of the evaluation functions.
// ---------------------------------------------------------------------------
/// The size of a value: one for the value itself, plus its contents.
pub open spec fn sval_size(v: JsonVal) -> nat
    decreases v,
{
    match v {
        JsonVal::Arr(a) => 1 + vals_size(a),
        JsonVal::Obj(m) => 1 + mems_size(m),
        _ => 1,
    }
}

/// The summed sizes of a sequence of values, one extra per element.
pub open spec fn vals_size(s: Seq<JsonVal>) -> nat
    decreases s,
{
    if s.len() == 0 {
        0
    } else {
        1 + sval_size(s[0]) + vals_size(s.drop_first())
    }
}

/// The summed sizes of an object's member values, one extra per member.
pub open spec fn mems_size(m: Seq<(Seq<char>, JsonVal)>) -> nat
    decreases m,
{
    if m.len() == 0 {
        0
    } else {
        1 + sval_size(m[0].1) + mems_size(m.drop_first())
    }
}

/// The summed sizes of the values of a node list, one extra per node.
pub open spec fn snodes_size(ns: Seq<SNode>) -> nat
    decreases ns,
{
    if ns.len() == 0 {
        0
    } else {
        1 + sval_size(ns[0].val) + snodes_size(ns.drop_first())
    }
}

/// Node-list size depends only on the values the nodes hold.
pub proof fn lemma_snodes_size_vals(ns: Seq<SNode>, vs: Seq<JsonVal>)
    requires
        ns.len() == vs.len(),
        forall|i: int| 0 <= i < ns.len() ==> (#[trigger] ns[i]).val == vs[i],
    ensures
        snodes_size(ns) == vals_size(vs),
    decreases ns.len(),
{
    if ns.len() > 0 {
        assert(ns.drop_first().len() == vs.drop_first().len());
        assert forall|i: int| 0 <= i < ns.drop_first().len() implies (#[trigger] ns.drop_first()[i]).val
            == vs.drop_first()[i] by {
            assert(ns.drop_first()[i] == ns[i + 1]);
        }
        lemma_snodes_size_vals(ns.drop_first(), vs.drop_first());
    }
}

/// Node-list size against the member values the nodes were built from.
pub proof fn lemma_snodes_size_mems(ns: Seq<SNode>, m: Seq<(Seq<char>, JsonVal)>)
    requires
        ns.len() == m.len(),
        forall|i: int| 0 <= i < ns.len() ==> (#[trigger] ns[i]).val == m[i].1,
    ensures
        snodes_size(ns) == mems_size(m),
    decreases ns.len(),
{
    if ns.len() > 0 {
        assert forall|i: int| 0 <= i < ns.drop_first().len() implies (#[trigger] ns.drop_first()[i]).val
            == m.drop_first()[i].1 by {
            assert(ns.drop_first()[i] == ns[i + 1]);
        }
        lemma_snodes_size_mems(ns.drop_first(), m.drop_first());
    }
}

/// An element of a sequence weighs no more than the whole sequence.
pub proof fn lemma_vals_size_index(s: Seq<JsonVal>, i: int)
    requires
        0 <= i < s.len(),
    ensures
        sval_size(s[i]) < vals_size(s),
    decreases s.len(),
{
    if i == 0 {
    } else {
        lemma_vals_size_index(s.drop_first(), i - 1);
        assert(s.drop_first()[i - 1] == s[i]);
    }
}

/// A member's value weighs no more than the whole member list.
pub proof fn lemma_mems_size_index(m: Seq<(Seq<char>, JsonVal)>, i: int)
    requires
        0 <= i < m.len(),
    ensures
        sval_size(m[i].1) < mems_size(m),
    decreases m.len(),
{
    if i == 0 {
    } else {
        lemma_mems_size_index(m.drop_first(), i - 1);
        assert(m.drop_first()[i - 1] == m[i]);
    }
}

// ---------------------------------------------------------------------------
// Filter results and their coercions.
// ---------------------------------------------------------------------------
/// What a filter subexpression evaluates to.
pub ghost enum SFilterRes {
    Val(JsonVal),
    Nodes(Seq<SNode>),
    Nothing,
}

/// Truthiness of a filter result: nothing is false, a node list is true when
/// non-empty, a value by its own truthiness.
pub open spec fn sres_truthy(r: SFilterRes) -> bool {
    match r {
        SFilterRes::Nothing => false,
        SFilterRes::Nodes(ns) => ns.len() > 0,
        SFilterRes::Val(v) => val_truthy(v),
    }
}

/// A node list of length one stands for its single value in a comparison.
pub open spec fn unwrap_single(r: SFilterRes) -> SFilterRes {
    match r {
        SFilterRes::Nodes(ns) => if ns.len() == 1 {
            SFilterRes::Val(ns[0].val)
        } else {
            r
        },
        _ => r,
    }
}

/// Equality of two comparison sides, after unwrapping singular node lists.
pub open spec fn sres_eq(a: SFilterRes, b: SFilterRes) -> bool {
    match (a, b) {
        (SFilterRes::Nodes(l), SFilterRes::Nodes(r)) => l.len() == r.len() && (forall|i: int|
            0 <= i < l.len() ==> val_eq((#[trigger] l[i]).val, r[i].val)),
        (SFilterRes::Nodes(ns), SFilterRes::Nothing) => ns.len() == 0,
        (SFilterRes::Nothing, SFilterRes::Nodes(ns)) => ns.len() == 0,
        (SFilterRes::Nodes(ns), SFilterRes::Val(v)) => ns.len() == 1 && val_eq(v, ns[0].val),
        (SFilterRes::Val(v), SFilterRes::Nodes(ns)) => ns.len() == 1 && val_eq(v, ns[0].val),
        (SFilterRes::Nothing, SFilterRes::Nothing) => true,
        (SFilterRes::Nothing, SFilterRes::Val(_)) => false,
        (SFilterRes::Val(_), SFilterRes::Nothing) => false,
        (SFilterRes::Val(l), SFilterRes::Val(r)) => val_eq(l, r),
    }
}

/// Strict order of two comparison sides: only two single values can be
/// ordered.
pub open spec fn sres_lt(a: SFilterRes, b: SFilterRes) -> bool {
    match (a, b) {
        (SFilterRes::Val(l), SFilterRes::Val(r)) => val_lt(l, r),
        _ => false,
    }
}

/// The outcome of a comparison, per RFC 9535: singular node lists unwrap to
/// their value first.
pub open spec fn scompare(a: SFilterRes, op: ComparisonOperator, b: SFilterRes) -> bool {
    let l = unwrap_single(a);
    let r = unwrap_single(b);
    match op {
        ComparisonOperator::Eq => sres_eq(l, r),
        ComparisonOperator::Ne => !sres_eq(l, r),
        ComparisonOperator::Lt => sres_lt(l, r),
        ComparisonOperator::Gt => sres_lt(r, l),
        ComparisonOperator::Ge => sres_lt(r, l) || sres_eq(l, r),
        ComparisonOperator::Le => sres_lt(l, r) || sres_eq(l, r),
    }
}

/// Coercion of an argument to its declared parameter type: a `Nodes` slot
/// takes the node list as it is; a `Value` slot takes the single value of a
/// length-one node list and `Nothing` otherwise; a `Logical` slot takes the
/// argument's truthiness.
pub open spec fn coerce_arg(r: SFilterRes, t: ExpressionType) -> SFilterRes {
    match t {
        ExpressionType::Nodes => r,
        ExpressionType::Value => match r {
            SFilterRes::Nodes(ns) => if ns.len() == 1 {
                SFilterRes::Val(ns[0].val)
            } else {
                SFilterRes::Nothing
            },
            _ => r,
        },
        ExpressionType::Logical => SFilterRes::Val(JsonVal::Bool(sres_truthy(r))),
    }
}

// ---------------------------------------------------------------------------
// The built-in filter functions.
// ---------------------------------------------------------------------------
/// `length(v)`: the length of a string in characters, of an array in
/// elements, of an object in members; nothing otherwise.
pub open spec fn length_sem(r: SFilterRes) -> SFilterRes {
    match r {
        SFilterRes::Val(JsonVal::Str(s)) => SFilterRes::Val(
            JsonVal::Num(Decimal { mantissa: s.len() as i64, exp: 0 }),
        ),
        SFilterRes::Val(JsonVal::Arr(a)) => SFilterRes::Val(
            JsonVal::Num(Decimal { mantissa: a.len() as i64, exp: 0 }),
        ),
        SFilterRes::Val(JsonVal::Obj(m)) => SFilterRes::Val(
            JsonVal::Num(Decimal { mantissa: m.len() as i64, exp: 0 }),
        ),
        _ => SFilterRes::Nothing,
    }
}

/// `match(s, p)`: whether `p`, taken as a whole-text pattern, accepts `s`.
/// False when either side is not a string or the pattern is invalid.
pub open spec fn match_sem(a: SFilterRes, b: SFilterRes) -> SFilterRes {
    match (a, b) {
        (SFilterRes::Val(JsonVal::Str(s)), SFilterRes::Val(JsonVal::Str(p))) => SFilterRes::Val(
            JsonVal::Bool(regex_valid(anchored(p)) && regex_found(anchored(p), s)),
        ),
        _ => SFilterRes::Val(JsonVal::Bool(false)),
    }
}

/// `search(s, p)`: whether `p` matches somewhere in `s`. False when either
/// side is not a string or the pattern is invalid.
pub open spec fn search_sem(a: SFilterRes, b: SFilterRes) -> SFilterRes {
    match (a, b) {
        (SFilterRes::Val(JsonVal::Str(s)), SFilterRes::Val(JsonVal::Str(p))) => SFilterRes::Val(
            JsonVal::Bool(regex_valid(p) && regex_found(p, s)),
        ),
        _ => SFilterRes::Val(JsonVal::Bool(false)),
    }
}

/// Applies a built-in function to its evaluated arguments, coercions
/// included. `None` for any other name or a wrong argument count: those
/// calls belong to host extensions.
pub open spec fn apply_function(name: Seq<char>, rs: Seq<SFilterRes>) -> Option<SFilterRes> {
    if name == "length"@ {
        if rs.len() == 1 {
            Some(length_sem(coerce_arg(rs[0], ExpressionType::Value)))
        } else {
            None
        }
    } else if name == "count"@ {
        if rs.len() == 1 {
            match rs[0] {
                SFilterRes::Nodes(ns) => Some(
                    SFilterRes::Val(JsonVal::Num(Decimal { mantissa: ns.len() as i64, exp: 0 })),
                ),
                _ => None,
            }
        } else {
            None
        }
    } else if name == "value"@ {
        if rs.len() == 1 {
            match rs[0] {
                SFilterRes::Nodes(ns) => Some(
                    if ns.len() == 1 {
                        SFilterRes::Val(ns[0].val)
                    } else {
                        SFilterRes::Nothing
                    },
                ),
                _ => None,
            }
        } else {
            None
        }
    } else if name == "match"@ {
        if rs.len() == 2 {
            Some(
                match_sem(
                    coerce_arg(rs[0], ExpressionType::Value),
                    coerce_arg(rs[1], ExpressionType::Value),
                ),
            )
        } else {
            None
        }
    } else if name == "search"@ {
        if rs.len() == 2 {
            Some(
                search_sem(
                    coerce_arg(rs[0], ExpressionType::Value),
                    coerce_arg(rs[1], ExpressionType::Value),
                ),
            )
        } else {
            None
        }
    } else {
        None
    }
}

// ---------------------------------------------------------------------------
// Selector arithmetic: index normalization and slice bounds.
// ---------------------------------------------------------------------------
/// A negative index counts from the end.
pub open spec fn norm_idx(i: int, len: int) -> int {
    if i < 0 {
        len + i
    } else {
        i
    }
}

/// The effective start of a slice, clamped per RFC 9535.
pub open spec fn slice_start(start: Option<i64>, len: int, step: int) -> int {
    match start {
        Option::None => if step < 0 {
            len - 1
        } else {
            0
        },
        Option::Some(s) => if s < 0 {
            let low = if step < 0 {
                -1
            } else {
                0
            };
            if len + s > low {
                len + s
            } else {
                low
            }
        } else {
            let high = if step < 0 {
                len - 1
            } else {
                len
            };
            if s < high {
                s as int
            } else {
                high
            }
        },
    }
}

/// The effective stop of a slice, clamped per RFC 9535.
pub open spec fn slice_stop(stop: Option<i64>, len: int, step: int) -> int {
    match stop {
        Option::None => if step < 0 {
            -1
        } else {
            len
        },
        Option::Some(s) => if s < 0 {
            if len + s > -1 {
                len + s
            } else {
                -1
            }
        } else {
            if s < len {
                s as int
            } else {
                len
            }
        },
    }
}

/// The indices `from, from+step, ...` strictly below `to`.
pub open spec fn range_up(from: int, to: int, step: int) -> Seq<int>
    decreases (if to - from > 0 { to - from } else { 0 }) when step >= 1
{
    if from >= to {
        Seq::empty()
    } else {
        seq![from] + range_up(from + step, to, step)
    }
}

/// The indices `from, from+step, ...` strictly above `to`.
pub open spec fn range_down(from: int, to: int, step: int) -> Seq<int>
    decreases (if from - to > 0 { from - to } else { 0 }) when step <= -1
{
    if from <= to {
        Seq::empty()
    } else {
        seq![from] + range_down(from + step, to, step)
    }
}

/// The indices a slice selects from an array of length `len`.
pub open spec fn slice_indices(
    len: int,
    start: Option<i64>,
    stop: Option<i64>,
    step: Option<i64>,
) -> Seq<int> {
    let step_eff: int = match step {
        Option::Some(s) => s as int,
        Option::None => 1,
    };
    if step_eff == 0 {
        Seq::empty()
    } else {
        let lo = slice_start(start, len, step_eff);
        let hi = slice_stop(stop, len, step_eff);
        if step_eff > 0 {
            range_up(lo, hi, step_eff)
        } else {
            range_down(lo, hi, step_eff)
        }
    }
}

/// Every index a slice selects lies within the array.
pub proof fn lemma_range_up_bounds(from: int, to: int, step: int, lo: int, hi: int)
    requires
        step >= 1,
        from >= lo,
        to <= hi,
    ensures
        forall|i: int|
            0 <= i < range_up(from, to, step).len() ==> lo <= #[trigger] range_up(
                from,
                to,
                step,
            )[i] < hi,
    decreases (if to - from > 0 { to - from } else { 0 }),
{
    if from < to {
        lemma_range_up_bounds(from + step, to, step, lo, hi);
        assert forall|i: int| 0 <= i < range_up(from, to, step).len() implies lo <= #[trigger] range_up(
            from,
            to,
            step,
        )[i] < hi by {
            if i > 0 {
                assert(range_up(from, to, step)[i] == range_up(from + step, to, step)[i - 1]);
            }
        }
    }
}

/// Every index a descending slice selects lies within the array.
pub proof fn lemma_range_down_bounds(from: int, to: int, step: int, lo: int, hi: int)
    requires
        step <= -1,
        from < hi,
        to >= lo - 1,
    ensures
        forall|i: int|
            0 <= i < range_down(from, to, step).len() ==> lo <= #[trigger] range_down(
                from,
                to,
                step,
            )[i] < hi,
    decreases (if from - to > 0 { from - to } else { 0 }),
{
    if from > to {
        lemma_range_down_bounds(from + step, to, step, lo, hi);
        assert forall|i: int| 0 <= i < range_down(from, to, step).len() implies lo
            <= #[trigger] range_down(from, to, step)[i] < hi by {
            if i > 0 {
                assert(range_down(from, to, step)[i] == range_down(from + step, to, step)[i - 1]);
            }
        }
    }
}

// ---------------------------------------------------------------------------
// Children of a node, for wildcards, filters and descent.
// ---------------------------------------------------------------------------
/// The element nodes of an array value at `path`.
pub open spec fn arr_children(path: Seq<PathEl>, a: Seq<JsonVal>) -> Seq<SNode> {
    Seq::new(a.len(), |i: int| SNode { path: path.push(PathEl::Index(i)), val: a[i] })
}

/// The member nodes of an object value at `path`, in insertion order.
pub open spec fn obj_children(path: Seq<PathEl>, m: Seq<(Seq<char>, JsonVal)>) -> Seq<SNode> {
    Seq::new(m.len(), |i: int| SNode { path: path.push(PathEl::Name(m[i].0)), val: m[i].1 })
}

/// The nodes an index sequence selects from an array value at `path`.
pub open spec fn slice_nodes(path: Seq<PathEl>, a: Seq<JsonVal>, idx: Seq<int>) -> Seq<SNode> {
    Seq::new(idx.len(), |i: int| SNode { path: path.push(PathEl::Index(idx[i])), val: a[idx[i]] })
}

/// The child nodes of a node: array elements in index order, object members
/// in insertion order, none for a scalar.
pub open spec fn children_of(node: SNode) -> Seq<SNode> {
    match node.val {
        JsonVal::Arr(a) => arr_children(node.path, a),
        JsonVal::Obj(m) => obj_children(node.path, m),
        _ => Seq::empty(),
    }
}

/// The children of an array value, element by element.
pub proof fn lemma_arr_model_children(path: Seq<PathEl>, a: Seq<JsonVal>)
    ensures
        arr_children(path, a).len() == a.len(),
        forall|k: int|
            0 <= k < a.len() ==> #[trigger] arr_children(path, a)[k] == (SNode {
                path: path.push(PathEl::Index(k)),
                val: a[k],
            }),
{
}

/// The children of an object value, member by member.
pub proof fn lemma_obj_model_children(path: Seq<PathEl>, m: Seq<(Seq<char>, JsonVal)>)
    ensures
        obj_children(path, m).len() == m.len(),
        forall|k: int|
            0 <= k < m.len() ==> #[trigger] obj_children(path, m)[k] == (SNode {
                path: path.push(PathEl::Name(m[k].0)),
                val: m[k].1,
            }),
{
}

/// Concatenation of two optional node lists; `None` wins.
pub open spec fn opt_concat(a: Option<Seq<SNode>>, b: Option<Seq<SNode>>) -> Option<Seq<SNode>> {
    match (a, b) {
        (Option::Some(x), Option::Some(y)) => Some(x + y),
        _ => None,
    }
}

// ---------------------------------------------------------------------------
// The evaluation functions.
// ---------------------------------------------------------------------------
/// The nodes a whole query yields on `root`.
pub open spec fn query_nodes(q: Query, root: JsonVal) -> Option<Seq<SNode>> {
    segs_eval(q.segments@, seq![SNode { path: Seq::empty(), val: root }], root)
}

/// Folds the segments over the node list, left to right.
pub open spec fn segs_eval(segs: Seq<Segment>, nodes: Seq<SNode>, root: JsonVal) -> Option<
    Seq<SNode>,
>
    decreases segs, 0nat, 0int,
{
    if segs.len() == 0 {
        Some(nodes)
    } else {
        match seg_eval(segs[0], nodes, root) {
            Option::None => None,
            Option::Some(next) => segs_eval(segs.drop_first(), next, root),
        }
    }
}

/// The nodes one segment yields from a node list.
pub open spec fn seg_eval(seg: Segment, nodes: Seq<SNode>, root: JsonVal) -> Option<Seq<SNode>>
    decreases seg, 0nat, 0int,
{
    match seg {
        Segment::Child { selectors } => child_nodes_eval(selectors@, nodes, root),
        Segment::Recursive { selectors } => visit_list(selectors@, nodes, root),
    }
}

/// A child segment: for each input node in order, every selector's results.
pub open spec fn child_nodes_eval(sels: Seq<Selector>, nodes: Seq<SNode>, root: JsonVal) -> Option<
    Seq<SNode>,
>
    decreases sels, snodes_size(nodes), 1int,
{
    if nodes.len() == 0 {
        Some(Seq::empty())
    } else {
        opt_concat(
            sels_eval(sels, nodes[0], root),
            child_nodes_eval(sels, nodes.drop_first(), root),
        )
    }
}

/// All selectors of a segment applied to one node, results in selector
/// order.
pub open spec fn sels_eval(sels: Seq<Selector>, node: SNode, root: JsonVal) -> Option<Seq<SNode>>
    decreases sels, sval_size(node.val), 0int,
{
    if sels.len() == 0 {
        Some(Seq::empty())
    } else {
        opt_concat(sel_eval(sels[0], node, root), sels_eval(sels.drop_first(), node, root))
    }
}

/// One selector applied to one node.
pub open spec fn sel_eval(sel: Selector, node: SNode, root: JsonVal) -> Option<Seq<SNode>>
    decreases sel, sval_size(node.val), 0int,
{
    match sel {
        Selector::Name { name } => Some(
            match node.val {
                JsonVal::Obj(m) => match obj_lookup(m, name@) {
                    Option::Some(v) => seq![
                        SNode { path: node.path.push(PathEl::Name(name@)), val: v },
                    ],
                    Option::None => Seq::empty(),
                },
                _ => Seq::empty(),
            },
        ),
        Selector::Index { index } => Some(
            match node.val {
                JsonVal::Arr(a) => {
                    let n = norm_idx(index as int, a.len() as int);
                    if 0 <= n < a.len() {
                        seq![SNode { path: node.path.push(PathEl::Index(n)), val: a[n] }]
                    } else {
                        Seq::empty()
                    }
                },
                _ => Seq::empty(),
            },
        ),
        Selector::Slice { start, stop, step } => Some(
            match node.val {
                JsonVal::Arr(a) => slice_nodes(
                    node.path,
                    a,
                    slice_indices(a.len() as int, start, stop, step),
                ),
                _ => Seq::empty(),
            },
        ),
        Selector::Wild => Some(children_of(node)),
        Selector::Filter { expression } => match node.val {
            JsonVal::Arr(a) => filter_arr(*expression, node.path, a, 0, root),
            JsonVal::Obj(m) => filter_obj(*expression, node.path, m, root),
            _ => Some(Seq::empty()),
        },
        Selector::Key { name } => Some(
            match node.val {
                JsonVal::Obj(m) => match obj_lookup(m, name@) {
                    Option::Some(_) => seq![
                        SNode {
                            path: node.path.push(PathEl::Key(name@)),
                            val: JsonVal::Str(name@),
                        },
                    ],
                    Option::None => Seq::empty(),
                },
                _ => Seq::empty(),
            },
        ),
        Selector::Keys => Some(
            match node.val {
                JsonVal::Obj(m) => Seq::new(
                    m.len(),
                    |i: int|
                        SNode {
                            path: node.path.push(PathEl::Key(m[i].0)),
                            val: JsonVal::Str(m[i].0),
                        },
                ),
                _ => Seq::empty(),
            },
        ),
        Selector::KeysFilter { expression } => match node.val {
            JsonVal::Obj(m) => keys_filter_obj(*expression, node.path, m, root),
            _ => Some(Seq::empty()),
        },
    }
}

/// A filter over the elements of an array: keeps, in order, each element on
/// which the expression is true. `base` is the index of `a[0]` in the
/// original array.
pub open spec fn filter_arr(
    e: FilterExpression,
    path: Seq<PathEl>,
    a: Seq<JsonVal>,
    base: int,
    root: JsonVal,
) -> Option<Seq<SNode>>
    decreases e, vals_size(a), 1int,
{
    if a.len() == 0 {
        Some(Seq::empty())
    } else {
        match expr_eval(
            e,
            a[0],
            Some(JsonVal::Num(Decimal { mantissa: base as i64, exp: 0 })),
            root,
        ) {
            Option::None => None,
            Option::Some(r) => match filter_arr(e, path, a.drop_first(), base + 1, root) {
                Option::None => None,
                Option::Some(tail) => Some(
                    if sres_truthy(r) {
                        seq![SNode { path: path.push(PathEl::Index(base)), val: a[0] }] + tail
                    } else {
                        tail
                    },
                ),
            },
        }
    }
}

/// A filter over the members of an object: keeps, in insertion order, each
/// member whose value satisfies the expression.
pub open spec fn filter_obj(
    e: FilterExpression,
    path: Seq<PathEl>,
    m: Seq<(Seq<char>, JsonVal)>,
    root: JsonVal,
) -> Option<Seq<SNode>>
    decreases e, mems_size(m), 1int,
{
    if m.len() == 0 {
        Some(Seq::empty())
    } else {
        match expr_eval(e, m[0].1, Some(JsonVal::Str(m[0].0)), root) {
            Option::None => None,
            Option::Some(r) => match filter_obj(e, path, m.drop_first(), root) {
                Option::None => None,
                Option::Some(tail) => Some(
                    if sres_truthy(r) {
                        seq![SNode { path: path.push(PathEl::Name(m[0].0)), val: m[0].1 }] + tail
                    } else {
                        tail
                    },
                ),
            },
        }
    }
}

/// A key filter over the members of an object: keeps the key node of each
/// member whose value satisfies the expression.
pub open spec fn keys_filter_obj(
    e: FilterExpression,
    path: Seq<PathEl>,
    m: Seq<(Seq<char>, JsonVal)>,
    root: JsonVal,
) -> Option<Seq<SNode>>
    decreases e, mems_size(m), 1int,
{
    if m.len() == 0 {
        Some(Seq::empty())
    } else {
        match expr_eval(e, m[0].1, Some(JsonVal::Str(m[0].0)), root) {
            Option::None => None,
            Option::Some(r) => match keys_filter_obj(e, path, m.drop_first(), root) {
                Option::None => None,
                Option::Some(tail) => Some(
                    if sres_truthy(r) {
                        seq![
                            SNode {
                                path: path.push(PathEl::Key(m[0].0)),
                                val: JsonVal::Str(m[0].0),
                            },
                        ] + tail
                    } else {
                        tail
                    },
                ),
            },
        }
    }
}

/// Pre-order descent from one node: the selectors' results on the node
/// itself, then, for each child in order, the same descent.
pub open spec fn visit(sels: Seq<Selector>, node: SNode, root: JsonVal) -> Option<Seq<SNode>>
    decreases sels, sval_size(node.val), 1int,
    when true
    via visit_decreases
{
    opt_concat(sels_eval(sels, node, root), visit_list(sels, children_of(node), root))
}

#[via_fn]
proof fn visit_decreases(sels: Seq<Selector>, node: SNode, root: JsonVal) {
    match node.val {
        JsonVal::Arr(a) => {
            lemma_snodes_size_vals(arr_children(node.path, a), a);
        },
        JsonVal::Obj(m) => {
            lemma_snodes_size_mems(obj_children(node.path, m), m);
        },
        _ => {},
    }
}

/// Descent over a list of nodes, one after the other.
pub open spec fn visit_list(sels: Seq<Selector>, nodes: Seq<SNode>, root: JsonVal) -> Option<
    Seq<SNode>,
>
    decreases sels, snodes_size(nodes), 0int,
{
    if nodes.len() == 0 {
        Some(Seq::empty())
    } else {
        opt_concat(visit(sels, nodes[0], root), visit_list(sels, nodes.drop_first(), root))
    }
}

/// The value of a filter expression on the current node.
pub open spec fn expr_eval(
    e: FilterExpression,
    current: JsonVal,
    key: Option<JsonVal>,
    root: JsonVal,
) -> Option<SFilterRes>
    decreases e, sval_size(current), 0int,
{
    match e {
        FilterExpression::True_ => Some(SFilterRes::Val(JsonVal::Bool(true))),
        FilterExpression::False_ => Some(SFilterRes::Val(JsonVal::Bool(false))),
        FilterExpression::Null => Some(SFilterRes::Val(JsonVal::Null)),
        FilterExpression::StringLiteral { value } => Some(SFilterRes::Val(JsonVal::Str(value@))),
        FilterExpression::Int { value } => Some(
            SFilterRes::Val(JsonVal::Num(Decimal { mantissa: value, exp: 0 })),
        ),
        FilterExpression::Float { value } => Some(SFilterRes::Val(JsonVal::Num(value))),
        FilterExpression::Not { expression } => match expr_eval(*expression, current, key, root) {
            Option::None => None,
            Option::Some(r) => Some(SFilterRes::Val(JsonVal::Bool(!sres_truthy(r)))),
        },
        FilterExpression::Logical { left, operator, right } => match expr_eval(
            *left,
            current,
            key,
            root,
        ) {
            Option::None => None,
            Option::Some(l) => match operator {
                LogicalOperator::And => if !sres_truthy(l) {
                    Some(SFilterRes::Val(JsonVal::Bool(false)))
                } else {
                    match expr_eval(*right, current, key, root) {
                        Option::None => None,
                        Option::Some(r) => Some(SFilterRes::Val(JsonVal::Bool(sres_truthy(r)))),
                    }
                },
                LogicalOperator::Or => if sres_truthy(l) {
                    Some(SFilterRes::Val(JsonVal::Bool(true)))
                } else {
                    match expr_eval(*right, current, key, root) {
                        Option::None => None,
                        Option::Some(r) => Some(SFilterRes::Val(JsonVal::Bool(sres_truthy(r)))),
                    }
                },
            },
        },
        FilterExpression::Comparison { left, operator, right } => match expr_eval(
            *left,
            current,
            key,
            root,
        ) {
            Option::None => None,
            Option::Some(l) => match expr_eval(*right, current, key, root) {
                Option::None => None,
                Option::Some(r) => Some(SFilterRes::Val(JsonVal::Bool(scompare(l, operator, r)))),
            },
        },
        FilterExpression::RelativeQuery { query } => match query_nodes_boxed(query, current) {
            Option::None => None,
            Option::Some(ns) => Some(SFilterRes::Nodes(ns)),
        },
        FilterExpression::RootQuery { query } => match query_nodes_boxed(query, root) {
            Option::None => None,
            Option::Some(ns) => Some(SFilterRes::Nodes(ns)),
        },
        FilterExpression::Function { name, args } => match args_eval(args@, current, key, root) {
            Option::None => None,
            Option::Some(rs) => apply_function(name@, rs),
        },
        FilterExpression::CurrentKey => Some(
            match key {
                Option::Some(k) => SFilterRes::Val(k),
                Option::None => SFilterRes::Nothing,
            },
        ),
    }
}

/// The nodes of a boxed sub-query.
pub open spec fn query_nodes_boxed(q: Box<Query>, root: JsonVal) -> Option<Seq<SNode>>
    decreases q, 0nat, 1int,
{
    segs_eval(q.segments@, seq![SNode { path: Seq::empty(), val: root }], root)
}

/// The values of a function call's arguments, left to right.
pub open spec fn args_eval(
    args: Seq<FilterExpression>,
    current: JsonVal,
    key: Option<JsonVal>,
    root: JsonVal,
) -> Option<Seq<SFilterRes>>
    decreases args, 0nat, 0int,
{
    if args.len() == 0 {
        Some(Seq::empty())
    } else {
        match expr_eval(args[0], current, key, root) {
            Option::None => None,
            Option::Some(r) => match args_eval(args.drop_first(), current, key, root) {
                Option::None => None,
                Option::Some(rest) => Some(seq![r] + rest),
            },
        }
    }
}

} // verus!
