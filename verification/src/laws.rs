//! Laws of evaluation, proved once and for all: singular queries yield at
//! most one node, a step-one slice selects a clamped index range, and the
//! literal filters `?true` and `?false` behave as the wildcard and as the
//! empty selection.

use crate::filter::FilterExpression;
use crate::node::{PathEl, SNode};
use crate::query::{is_singular_query, Query};
use crate::segment::Segment;
use crate::selector::Selector;
use crate::semantics::{
    arr_children, child_nodes_eval, children_of, filter_arr, filter_obj, obj_children,
    query_nodes, range_up, seg_eval, segs_eval, sel_eval, sels_eval, slice_indices, slice_start,
    slice_stop, sres_truthy, expr_eval, SFilterRes,
};
use crate::value::JsonVal;
use vstd::prelude::*;

verus! {

/// A name or index selector yields at most one node, and never fails.
proof fn lemma_single_selector(sel: Selector, node: SNode, root: JsonVal)
    requires
        sel is Name || sel is Index,
    ensures
        sel_eval(sel, node, root) is Some,
        sel_eval(sel, node, root)->Some_0.len() <= 1,
{
}

/// One name or index selector, as a whole selector list, yields at most
/// one node.
#[verifier::spinoff_prover]
proof fn lemma_single_selector_list(sels: Seq<Selector>, node: SNode, root: JsonVal)
    requires
        sels.len() == 1,
        sels[0] is Name || sels[0] is Index,
    ensures
        sels_eval(sels, node, root) is Some,
        sels_eval(sels, node, root)->Some_0.len() <= 1,
{
    lemma_single_selector(sels[0], node, root);
    assert(sels.drop_first().len() == 0);
    assert(sels_eval(sels.drop_first(), node, root) == Some(Seq::<SNode>::empty()));
}

/// A child segment holding one name or index selector turns a node list of
/// at most one node into a node list of at most one node.
#[verifier::spinoff_prover]
proof fn lemma_single_segment(sels: Seq<Selector>, nodes: Seq<SNode>, root: JsonVal)
    requires
        sels.len() == 1,
        sels[0] is Name || sels[0] is Index,
        nodes.len() <= 1,
    ensures
        child_nodes_eval(sels, nodes, root) is Some,
        child_nodes_eval(sels, nodes, root)->Some_0.len() <= 1,
{
    if nodes.len() == 0 {
    } else {
        lemma_single_selector_list(sels, nodes[0], root);
        assert(nodes.drop_first().len() == 0);
        assert(child_nodes_eval(sels, nodes.drop_first(), root) == Some(Seq::<SNode>::empty()));
    }
}

/// Singular determinism over the remaining segments of a singular query.
proof fn lemma_singular_segments(segs: Seq<Segment>, nodes: Seq<SNode>, root: JsonVal)
    requires
        forall|i: int|
            0 <= i < segs.len() ==> {
                &&& (#[trigger] segs[i]) is Child
                &&& segs[i]->Child_selectors@.len() == 1
                &&& (segs[i]->Child_selectors@[0] is Name || segs[i]->Child_selectors@[0]
                    is Index)
            },
        nodes.len() <= 1,
    ensures
        segs_eval(segs, nodes, root) is Some,
        segs_eval(segs, nodes, root)->Some_0.len() <= 1,
    decreases segs.len(),
{
    if segs.len() > 0 {
        assert(segs[0] is Child);
        lemma_single_segment(segs[0]->Child_selectors@, nodes, root);
        let next = seg_eval(segs[0], nodes, root)->Some_0;
        assert forall|i: int| 0 <= i < segs.drop_first().len() implies {
            &&& (#[trigger] segs.drop_first()[i]) is Child
            &&& segs.drop_first()[i]->Child_selectors@.len() == 1
            &&& (segs.drop_first()[i]->Child_selectors@[0] is Name
                || segs.drop_first()[i]->Child_selectors@[0] is Index)
        } by {
            assert(segs.drop_first()[i] == segs[i + 1]);
        }
        lemma_singular_segments(segs.drop_first(), next, root);
    }
}

/// Singular determinism: a singular query resolves to at most one node, on
/// any document, and never needs a host extension.
pub proof fn lemma_singular_query_at_most_one(q: Query, root: JsonVal)
    requires
        is_singular_query(q),
    ensures
        query_nodes(q, root) is Some,
        query_nodes(q, root)->Some_0.len() <= 1,
{
    lemma_singular_segments(
        q.segments@,
        seq![SNode { path: Seq::empty(), val: root }],
        root,
    );
}

/// A step-one ascending range is exactly the consecutive indices from
/// `from` up to `to`.
proof fn lemma_range_up_one(from: int, to: int)
    ensures
        range_up(from, to, 1).len() == (if to - from > 0 { to - from } else { 0 }),
        forall|k: int|
            0 <= k < range_up(from, to, 1).len() ==> #[trigger] range_up(from, to, 1)[k] == from
                + k,
    decreases (if to - from > 0 { to - from } else { 0 }),
{
    if from < to {
        lemma_range_up_one(from + 1, to);
        assert forall|k: int| 0 <= k < range_up(from, to, 1).len() implies #[trigger] range_up(
            from,
            to,
            1,
        )[k] == from + k by {
            if k > 0 {
                assert(range_up(from, to, 1)[k] == range_up(from + 1, to, 1)[k - 1]);
            }
        }
    }
}

/// Slice equivalence with step one: `[a:b]` selects exactly the indices
/// from `a` clamped to `[0, len]` up to `b` clamped to `[0, len]`.
pub proof fn lemma_slice_step_one(len: int, a: i64, b: i64)
    requires
        len >= 0,
    ensures
        ({
            let lo = slice_start(Some(a), len, 1);
            let hi = slice_stop(Some(b), len, 1);
            let idx = slice_indices(len, Some(a), Some(b), Some(1));
            &&& lo == (if a < 0 { if len + a > 0 { len + a } else { 0 } } else { if a < len { a as int } else { len } })
            &&& hi == (if b < 0 { if len + b > -1 { len + b } else { -1 } } else { if b < len { b as int } else { len } })
            &&& idx.len() == (if hi - lo > 0 { hi - lo } else { 0 })
            &&& forall|k: int| 0 <= k < idx.len() ==> #[trigger] idx[k] == lo + k
        }),
{
    let lo = slice_start(Some(a), len, 1);
    let hi = slice_stop(Some(b), len, 1);
    lemma_range_up_one(lo, hi);
}

/// The literal filter `?true` keeps every element of an array, as the
/// wildcard does.
proof fn lemma_filter_arr_true(path: Seq<PathEl>, a: Seq<JsonVal>, base: int, root: JsonVal)
    ensures
        filter_arr(FilterExpression::True_, path, a, base, root) is Some,
        filter_arr(FilterExpression::True_, path, a, base, root)->Some_0.len() == a.len(),
        forall|i: int|
            0 <= i < a.len() ==> #[trigger] filter_arr(
                FilterExpression::True_,
                path,
                a,
                base,
                root,
            )->Some_0[i] == (SNode { path: path.push(PathEl::Index(base + i)), val: a[i] }),
    decreases a.len(),
{
    if a.len() > 0 {
        lemma_filter_arr_true(path, a.drop_first(), base + 1, root);
        let key = Some(JsonVal::Num(crate::num::Decimal { mantissa: base as i64, exp: 0 }));
        assert(expr_eval(FilterExpression::True_, a[0], key, root) == Some(
            SFilterRes::Val(JsonVal::Bool(true)),
        ));
        assert(sres_truthy(SFilterRes::Val(JsonVal::Bool(true))));
        let head = SNode { path: path.push(PathEl::Index(base)), val: a[0] };
        let tail = filter_arr(FilterExpression::True_, path, a.drop_first(), base + 1, root)->Some_0;
        assert(filter_arr(FilterExpression::True_, path, a, base, root) == Some(
            seq![head] + tail,
        ));
        let full = filter_arr(FilterExpression::True_, path, a, base, root)->Some_0;
        assert forall|i: int| 0 <= i < a.len() implies #[trigger] full[i] == (SNode {
            path: path.push(PathEl::Index(base + i)),
            val: a[i],
        }) by {
            if i > 0 {
                assert(full[i] == tail[i - 1]);
                assert(a.drop_first()[i - 1] == a[i]);
            }
        }
    }
}

/// The literal filter `?false` keeps nothing of an array.
proof fn lemma_filter_arr_false(path: Seq<PathEl>, a: Seq<JsonVal>, base: int, root: JsonVal)
    ensures
        filter_arr(FilterExpression::False_, path, a, base, root) == Some(Seq::<SNode>::empty()),
    decreases a.len(),
{
    if a.len() > 0 {
        lemma_filter_arr_false(path, a.drop_first(), base + 1, root);
        let key = Some(JsonVal::Num(crate::num::Decimal { mantissa: base as i64, exp: 0 }));
        assert(expr_eval(FilterExpression::False_, a[0], key, root) == Some(
            SFilterRes::Val(JsonVal::Bool(false)),
        ));
        assert(!sres_truthy(SFilterRes::Val(JsonVal::Bool(false))));
        assert(filter_arr(FilterExpression::False_, path, a, base, root) == Some(
            Seq::<SNode>::empty() + Seq::<SNode>::empty(),
        ) || filter_arr(FilterExpression::False_, path, a, base, root) == Some(
            Seq::<SNode>::empty(),
        ));
        assert(filter_arr(FilterExpression::False_, path, a, base, root)->Some_0
            =~= Seq::<SNode>::empty());
    }
}

/// The literal filter `?true` keeps every member of an object, as the
/// wildcard does.
proof fn lemma_filter_obj_true(
    path: Seq<PathEl>,
    m: Seq<(Seq<char>, JsonVal)>,
    root: JsonVal,
)
    ensures
        filter_obj(FilterExpression::True_, path, m, root) is Some,
        filter_obj(FilterExpression::True_, path, m, root)->Some_0.len() == m.len(),
        forall|i: int|
            0 <= i < m.len() ==> #[trigger] filter_obj(
                FilterExpression::True_,
                path,
                m,
                root,
            )->Some_0[i] == (SNode { path: path.push(PathEl::Name(m[i].0)), val: m[i].1 }),
    decreases m.len(),
{
    if m.len() > 0 {
        lemma_filter_obj_true(path, m.drop_first(), root);
        let key = Some(JsonVal::Str(m[0].0));
        assert(expr_eval(FilterExpression::True_, m[0].1, key, root) == Some(
            SFilterRes::Val(JsonVal::Bool(true)),
        ));
        let head = SNode { path: path.push(PathEl::Name(m[0].0)), val: m[0].1 };
        let tail = filter_obj(FilterExpression::True_, path, m.drop_first(), root)->Some_0;
        assert(filter_obj(FilterExpression::True_, path, m, root) == Some(seq![head] + tail));
        let full = filter_obj(FilterExpression::True_, path, m, root)->Some_0;
        assert forall|i: int| 0 <= i < m.len() implies #[trigger] full[i] == (SNode {
            path: path.push(PathEl::Name(m[i].0)),
            val: m[i].1,
        }) by {
            if i > 0 {
                assert(full[i] == tail[i - 1]);
                assert(m.drop_first()[i - 1] == m[i]);
            }
        }
    }
}

/// The literal filter `?false` keeps nothing of an object.
proof fn lemma_filter_obj_false(path: Seq<PathEl>, m: Seq<(Seq<char>, JsonVal)>, root: JsonVal)
    ensures
        filter_obj(FilterExpression::False_, path, m, root) == Some(Seq::<SNode>::empty()),
    decreases m.len(),
{
    if m.len() > 0 {
        lemma_filter_obj_false(path, m.drop_first(), root);
        let key = Some(JsonVal::Str(m[0].0));
        assert(expr_eval(FilterExpression::False_, m[0].1, key, root) == Some(
            SFilterRes::Val(JsonVal::Bool(false)),
        ));
        assert(filter_obj(FilterExpression::False_, path, m, root)->Some_0
            =~= Seq::<SNode>::empty());
    }
}

/// Filter idempotence of literals, first half: on every node, `[?true]`
/// selects exactly what `[*]` selects.
pub proof fn lemma_filter_true_is_wild(node: SNode, root: JsonVal)
    ensures
        sel_eval(
            Selector::Filter { expression: Box::new(FilterExpression::True_) },
            node,
            root,
        ) == sel_eval(Selector::Wild, node, root),
{
    let sel = Selector::Filter { expression: Box::new(FilterExpression::True_) };
    match node.val {
        JsonVal::Arr(a) => {
            lemma_filter_arr_true(node.path, a, 0, root);
            assert(filter_arr(FilterExpression::True_, node.path, a, 0, root)->Some_0
                =~= arr_children(node.path, a));
        },
        JsonVal::Obj(m) => {
            lemma_filter_obj_true(node.path, m, root);
            assert(filter_obj(FilterExpression::True_, node.path, m, root)->Some_0
                =~= obj_children(node.path, m));
        },
        _ => {},
    }
}

/// Filter idempotence of literals, second half: on every node, `[?false]`
/// selects nothing.
pub proof fn lemma_filter_false_is_empty(node: SNode, root: JsonVal)
    ensures
        sel_eval(
            Selector::Filter { expression: Box::new(FilterExpression::False_) },
            node,
            root,
        ) == Some(Seq::<SNode>::empty()),
{
    match node.val {
        JsonVal::Arr(a) => {
            lemma_filter_arr_false(node.path, a, 0, root);
        },
        JsonVal::Obj(m) => {
            lemma_filter_obj_false(node.path, m, root);
        },
        _ => {},
    }
}

} // verus!
