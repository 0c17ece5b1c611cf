//! Selectors: the criteria a segment applies to each node it visits, and
//! their resolution against a single value.

use crate::errors::{JSONPathError, JSONPathErrorType};
use crate::filter::{is_truthy, FilterExpression};
use crate::node::{loc_model, nodes_model, Node, NodeList, PathEl, PathElement, SNode};
use crate::num::Decimal;
use crate::semantics::{
    arr_children, children_of, filter_arr, filter_obj, keys_filter_obj, lemma_arr_model_children,
    lemma_mems_size_index, lemma_obj_model_children, lemma_vals_size_index, obj_children,
    range_down, range_up, sel_eval, slice_indices, slice_nodes, slice_start, slice_stop,
    sval_size, vals_size, mems_size,
};
use crate::value::{
    arr_model, lemma_arr_model_index, lemma_arr_model_len, lemma_obj_model_index,
    lemma_obj_model_len, obj_model, JsonVal, JsonValue,
};
use crate::QueryContext;
use vstd::prelude::*;

verus! {

broadcast use vstd::std_specs::vec::group_vec_axioms;

/// A single selection criterion. `Key`, `Keys` and `KeysFilter` are
/// non-standard selectors that yield object keys rather than values.
#[derive(Debug, PartialEq)]
pub enum Selector {
    Name { name: String },
    Index { index: i64 },
    Slice { start: Option<i64>, stop: Option<i64>, step: Option<i64> },
    Wild,
    Filter { expression: Box<FilterExpression> },
    Key { name: String },
    Keys,
    KeysFilter { expression: Box<FilterExpression> },
}

/// The elements a slice selects, in slice order.
#[verifier::loop_isolation(false)]
#[verifier::rlimit(30)]
fn resolve_slice(
    a: &Vec<JsonValue>,
    start: &Option<i64>,
    stop: &Option<i64>,
    step: &Option<i64>,
    location: &Vec<PathElement>,
) -> (out: NodeList)
    ensures
        nodes_model(out@) == slice_nodes(
            loc_model(location@),
            arr_model(a@),
            slice_indices(arr_model(a@).len() as int, *start, *stop, *step),
        ),
{
    let ghost path = loc_model(location@);
    let ghost am = arr_model(a@);
    let mut out: NodeList = Vec::new();
    proof {
        lemma_arr_model_len(a@);
    }
    let len_i: i128 = a.len() as i128;
    let step_eff: i128 = match step {
        Option::Some(s) => *s as i128,
        Option::None => 1,
    };
    if step_eff == 0 {
        proof {
            assert(nodes_model(out@) =~= slice_nodes(
                path,
                am,
                slice_indices(am.len() as int, *start, *stop, *step),
            ));
        }
        return out;
    }
    let lo: i128 = match start {
        Option::Some(s) => if *s < 0 {
            let low: i128 = if step_eff < 0 {
                -1
            } else {
                0
            };
            if len_i + *s as i128 > low {
                len_i + *s as i128
            } else {
                low
            }
        } else {
            let high: i128 = if step_eff < 0 {
                len_i - 1
            } else {
                len_i
            };
            if (*s as i128) < high {
                *s as i128
            } else {
                high
            }
        },
        Option::None => if step_eff < 0 {
            len_i - 1
        } else {
            0
        },
    };
    let hi: i128 = match stop {
        Option::Some(s) => if *s < 0 {
            if len_i + *s as i128 > -1 {
                len_i + *s as i128
            } else {
                -1
            }
        } else {
            if (*s as i128) < len_i {
                *s as i128
            } else {
                len_i
            }
        },
        Option::None => if step_eff < 0 {
            -1
        } else {
            len_i
        },
    };
    proof {
        assert(lo as int == slice_start(*start, am.len() as int, step_eff as int));
        assert(hi as int == slice_stop(*stop, am.len() as int, step_eff as int));
    }
    let ghost target = slice_nodes(path, am, slice_indices(am.len() as int, *start, *stop, *step));
    if step_eff > 0 {
        let mut cur: i128 = lo;
        proof {
            assert(nodes_model(out@) + slice_nodes(
                path,
                am,
                range_up(cur as int, hi as int, step_eff as int),
            ) =~= target);
        }
        while cur < hi
            invariant
                step_eff >= 1,
                0 <= lo <= cur,
                hi <= len_i,
                len_i == am.len(),
                am == arr_model(a@),
                path == loc_model(location@),
                nodes_model(out@) + slice_nodes(
                    path,
                    am,
                    range_up(cur as int, hi as int, step_eff as int),
                ) == target,
            decreases (if hi - cur > 0 { hi - cur } else { 0 }),
        {
            proof {
                lemma_arr_model_index(a@, cur as int);
                assert(range_up(cur as int, hi as int, step_eff as int) == seq![cur as int]
                    + range_up(cur as int + step_eff as int, hi as int, step_eff as int));
            }
            let cu: usize = cur as usize;
            let ghost out_before = out@;
            let node = Node::new_array_element(a[cu].deep_clone(), location, cu);
            out.push(node);
            proof {
                let post = range_up(cur as int + step_eff as int, hi as int, step_eff as int);
                assert(slice_nodes(path, am, range_up(cur as int, hi as int, step_eff as int))
                    =~= seq![
                    SNode { path: path.push(PathEl::Index(cur as int)), val: am[cur as int] },
                ] + slice_nodes(path, am, post));
                assert(nodes_model(out@) =~= nodes_model(out_before).push(node@));
                assert(nodes_model(out@) + slice_nodes(path, am, post) =~= target);
            }
            cur = cur + step_eff;
        }
        proof {
            assert(slice_nodes(path, am, range_up(cur as int, hi as int, step_eff as int))
                =~= Seq::<SNode>::empty());
            assert(nodes_model(out@) =~= target);
        }
    } else {
        let mut cur: i128 = lo;
        proof {
            assert(nodes_model(out@) + slice_nodes(
                path,
                am,
                range_down(cur as int, hi as int, step_eff as int),
            ) =~= target);
        }
        while cur > hi
            invariant
                step_eff <= -1,
                cur <= lo,
                lo <= len_i - 1,
                -1 <= hi,
                len_i == am.len(),
                am == arr_model(a@),
                path == loc_model(location@),
                nodes_model(out@) + slice_nodes(
                    path,
                    am,
                    range_down(cur as int, hi as int, step_eff as int),
                ) == target,
            decreases (if cur - hi > 0 { cur - hi } else { 0 }),
        {
            proof {
                lemma_arr_model_index(a@, cur as int);
                assert(range_down(cur as int, hi as int, step_eff as int) == seq![cur as int]
                    + range_down(cur as int + step_eff as int, hi as int, step_eff as int));
            }
            let cu: usize = cur as usize;
            let ghost out_before = out@;
            let node = Node::new_array_element(a[cu].deep_clone(), location, cu);
            out.push(node);
            proof {
                let post = range_down(cur as int + step_eff as int, hi as int, step_eff as int);
                assert(slice_nodes(path, am, range_down(cur as int, hi as int, step_eff as int))
                    =~= seq![
                    SNode { path: path.push(PathEl::Index(cur as int)), val: am[cur as int] },
                ] + slice_nodes(path, am, post));
                assert(nodes_model(out@) =~= nodes_model(out_before).push(node@));
                assert(nodes_model(out@) + slice_nodes(path, am, post) =~= target);
            }
            cur = cur + step_eff;
        }
        proof {
            assert(slice_nodes(path, am, range_down(cur as int, hi as int, step_eff as int))
                =~= Seq::<SNode>::empty());
            assert(nodes_model(out@) =~= target);
        }
    }
    out
}

/// Every element of an array, as nodes in index order.
#[verifier::loop_isolation(false)]
fn resolve_wild_array(a: &Vec<JsonValue>, location: &Vec<PathElement>) -> (out: NodeList)
    ensures
        nodes_model(out@) == arr_children(loc_model(location@), arr_model(a@)),
{
    let mut out: NodeList = Vec::new();
    proof {
        lemma_arr_model_len(a@);
        lemma_arr_model_children(loc_model(location@), arr_model(a@));
    }
    let mut i: usize = 0;
    while i < a.len()
        invariant
            0 <= i <= a@.len(),
            out@.len() == i,
            forall|k: int|
                0 <= k < i ==> nodes_model(out@)[k] == arr_children(
                    loc_model(location@),
                    arr_model(a@),
                )[k],
        decreases a@.len() - i,
    {
        proof {
            lemma_arr_model_index(a@, i as int);
        }
        let ghost out_before = out@;
        let node = Node::new_array_element(a[i].deep_clone(), location, i);
        out.push(node);
        proof {
            assert(nodes_model(out@) =~= nodes_model(out_before).push(node@));
        }
        i = i + 1;
    }
    proof {
        assert(nodes_model(out@) =~= arr_children(loc_model(location@), arr_model(a@)));
    }
    out
}

/// Every member value of an object, as nodes in insertion order.
#[verifier::loop_isolation(false)]
fn resolve_wild_object(m: &Vec<(String, JsonValue)>, location: &Vec<PathElement>) -> (out:
    NodeList)
    ensures
        nodes_model(out@) == obj_children(loc_model(location@), obj_model(m@)),
{
    let mut out: NodeList = Vec::new();
    proof {
        lemma_obj_model_len(m@);
        lemma_obj_model_children(loc_model(location@), obj_model(m@));
    }
    let mut i: usize = 0;
    while i < m.len()
        invariant
            0 <= i <= m@.len(),
            out@.len() == i,
            forall|k: int|
                0 <= k < i ==> nodes_model(out@)[k] == obj_children(
                    loc_model(location@),
                    obj_model(m@),
                )[k],
        decreases m@.len() - i,
    {
        proof {
            lemma_obj_model_index(m@, i as int);
        }
        let ghost out_before = out@;
        let node = Node::new_object_member(m[i].1.deep_clone(), location, m[i].0.clone());
        out.push(node);
        proof {
            assert(nodes_model(out@) =~= nodes_model(out_before).push(node@));
        }
        i = i + 1;
    }
    proof {
        assert(nodes_model(out@) =~= obj_children(loc_model(location@), obj_model(m@)));
    }
    out
}

/// The array elements a filter keeps, in index order.
#[verifier::loop_isolation(false)]
#[verifier::rlimit(30)]
fn resolve_filter_array(
    expression: &FilterExpression,
    a: &Vec<JsonValue>,
    location: &Vec<PathElement>,
    context: &QueryContext,
) -> (r: Result<NodeList, JSONPathError>)
    ensures
        match filter_arr(*expression, loc_model(location@), arr_model(a@), 0, context.root@) {
            Option::Some(ns) => r is Ok && nodes_model(r->Ok_0@) == ns,
            Option::None => r is Err && r->Err_0.kind == JSONPathErrorType::ExtError,
        },
    decreases *expression, vals_size(arr_model(a@)), 0int,
{
    let ghost path = loc_model(location@);
    let ghost am = arr_model(a@);
    let ghost root = context.root@;
    let ghost full = filter_arr(*expression, path, am, 0, root);
    let mut out: NodeList = Vec::new();
    proof {
        lemma_arr_model_len(a@);
        assert(am.skip(0) =~= am);
        assert(nodes_model(out@) =~= Seq::<SNode>::empty());
    }
    let mut i: usize = 0;
    while i < a.len()
        invariant
            0 <= i <= a@.len(),
            am == arr_model(a@),
            am.len() == a@.len(),
            match filter_arr(*expression, path, am.skip(i as int), i as int, root) {
                Option::Some(tail) => full == Some(nodes_model(out@) + tail),
                Option::None => full is None,
            },
        decreases a@.len() - i,
    {
        proof {
            assert(am.skip(i as int)[0] == am[i as int]);
            assert(am.skip(i as int).drop_first() =~= am.skip(i + 1));
            lemma_arr_model_index(a@, i as int);
            lemma_vals_size_index(am, i as int);
        }
        let keyv = JsonValue::Num(Decimal { mantissa: #[verifier::truncate] (i as i64), exp: 0 });
        let rv = expression.evaluate(&a[i], Some(&keyv), context)?;
        let keep = is_truthy(&rv);
        if keep {
            let ghost out_before = out@;
            let node = Node::new_array_element(a[i].deep_clone(), location, i);
            out.push(node);
            proof {
                if filter_arr(*expression, path, am.skip(i + 1), i + 1, root) is Some {
                    let tail = filter_arr(*expression, path, am.skip(i + 1), i + 1, root)->Some_0;
                    assert(nodes_model(out@) =~= nodes_model(out_before).push(node@));
                    assert(nodes_model(out_before) + (seq![node@] + tail) =~= nodes_model(out@)
                        + tail);
                }
            }
        }
        i = i + 1;
    }
    proof {
        assert(am.skip(am.len() as int) =~= Seq::<JsonVal>::empty());
        assert(nodes_model(out@) + Seq::<SNode>::empty() =~= nodes_model(out@));
    }
    Ok(out)
}

/// The object members a filter keeps, in insertion order; key nodes instead
/// of member nodes when `keys_mode` is set.
#[verifier::loop_isolation(false)]
#[verifier::rlimit(30)]
fn resolve_filter_object(
    expression: &FilterExpression,
    m: &Vec<(String, JsonValue)>,
    location: &Vec<PathElement>,
    context: &QueryContext,
    keys_mode: bool,
) -> (r: Result<NodeList, JSONPathError>)
    ensures
        keys_mode ==> match keys_filter_obj(
            *expression,
            loc_model(location@),
            obj_model(m@),
            context.root@,
        ) {
            Option::Some(ns) => r is Ok && nodes_model(r->Ok_0@) == ns,
            Option::None => r is Err && r->Err_0.kind == JSONPathErrorType::ExtError,
        },
        !keys_mode ==> match filter_obj(
            *expression,
            loc_model(location@),
            obj_model(m@),
            context.root@,
        ) {
            Option::Some(ns) => r is Ok && nodes_model(r->Ok_0@) == ns,
            Option::None => r is Err && r->Err_0.kind == JSONPathErrorType::ExtError,
        },
    decreases *expression, mems_size(obj_model(m@)), 0int,
{
    let ghost path = loc_model(location@);
    let ghost mm = obj_model(m@);
    let ghost root = context.root@;
    let mut out: NodeList = Vec::new();
    proof {
        lemma_obj_model_len(m@);
        assert(mm.skip(0) =~= mm);
        assert(nodes_model(out@) =~= Seq::<SNode>::empty());
    }
    let mut i: usize = 0;
    while i < m.len()
        invariant
            0 <= i <= m@.len(),
            mm == obj_model(m@),
            mm.len() == m@.len(),
            keys_mode ==> match keys_filter_obj(*expression, path, mm.skip(i as int), root) {
                Option::Some(tail) => keys_filter_obj(*expression, path, mm, root) == Some(
                    nodes_model(out@) + tail,
                ),
                Option::None => keys_filter_obj(*expression, path, mm, root) is None,
            },
            !keys_mode ==> match filter_obj(*expression, path, mm.skip(i as int), root) {
                Option::Some(tail) => filter_obj(*expression, path, mm, root) == Some(
                    nodes_model(out@) + tail,
                ),
                Option::None => filter_obj(*expression, path, mm, root) is None,
            },
        decreases m@.len() - i,
    {
        proof {
            assert(mm.skip(i as int)[0] == mm[i as int]);
            assert(mm.skip(i as int).drop_first() =~= mm.skip(i + 1));
            lemma_obj_model_index(m@, i as int);
            lemma_mems_size_index(mm, i as int);
        }
        let keyv = JsonValue::Str(m[i].0.clone());
        let rv = expression.evaluate(&m[i].1, Some(&keyv), context)?;
        let keep = is_truthy(&rv);
        if keep {
            let ghost out_before = out@;
            let node = if keys_mode {
                Node::new_object_key(JsonValue::Str(m[i].0.clone()), location, m[i].0.clone())
            } else {
                Node::new_object_member(m[i].1.deep_clone(), location, m[i].0.clone())
            };
            out.push(node);
            proof {
                assert(nodes_model(out@) =~= nodes_model(out_before).push(node@));
                if keys_mode {
                    if keys_filter_obj(*expression, path, mm.skip(i + 1), root) is Some {
                        let tail = keys_filter_obj(*expression, path, mm.skip(i + 1), root)->Some_0;
                        assert(nodes_model(out_before) + (seq![node@] + tail) =~= nodes_model(out@)
                            + tail);
                    }
                } else {
                    if filter_obj(*expression, path, mm.skip(i + 1), root) is Some {
                        let tail = filter_obj(*expression, path, mm.skip(i + 1), root)->Some_0;
                        assert(nodes_model(out_before) + (seq![node@] + tail) =~= nodes_model(out@)
                            + tail);
                    }
                }
            }
        }
        i = i + 1;
    }
    proof {
        assert(mm.skip(mm.len() as int) =~= Seq::<(Seq<char>, JsonVal)>::empty());
        assert(nodes_model(out@) + Seq::<SNode>::empty() =~= nodes_model(out@));
    }
    Ok(out)
}

/// Every key of an object, as string-valued key nodes in insertion order.
#[verifier::loop_isolation(false)]
fn resolve_keys(m: &Vec<(String, JsonValue)>, location: &Vec<PathElement>, target: Ghost<
    Seq<SNode>,
>) -> (out: NodeList)
    requires
        target@.len() == m@.len(),
        forall|k: int|
            0 <= k < m@.len() ==> target@[k] == (SNode {
                path: loc_model(location@).push(PathEl::Key(obj_model(m@)[k].0)),
                val: JsonVal::Str(obj_model(m@)[k].0),
            }),
    ensures
        nodes_model(out@) == target@,
{
    let mut out: NodeList = Vec::new();
    proof {
        lemma_obj_model_len(m@);
    }
    let mut i: usize = 0;
    while i < m.len()
        invariant
            0 <= i <= m@.len(),
            out@.len() == i,
            forall|k: int| 0 <= k < i ==> nodes_model(out@)[k] == target@[k],
        decreases m@.len() - i,
    {
        proof {
            lemma_obj_model_index(m@, i as int);
        }
        let ghost out_before = out@;
        let node = Node::new_object_key(JsonValue::Str(m[i].0.clone()), location, m[i].0.clone());
        out.push(node);
        proof {
            assert(nodes_model(out@) =~= nodes_model(out_before).push(node@));
        }
        i = i + 1;
    }
    proof {
        assert(nodes_model(out@) =~= target@);
    }
    out
}

impl Selector {
    /// Applies this selector to one value: exactly the nodes the
    /// mathematical evaluation yields, in order. Selectors never fail on a
    /// value of the wrong kind; they yield nothing there.
    #[verifier::loop_isolation(false)]
    #[verifier::rlimit(30)]
    pub fn resolve(
        &self,
        value: &JsonValue,
        location: &Vec<PathElement>,
        context: &QueryContext,
    ) -> (r: Result<NodeList, JSONPathError>)
        ensures
            match sel_eval(
                *self,
                SNode { path: loc_model(location@), val: value@ },
                context.root@,
            ) {
                Option::Some(ns) => r is Ok && nodes_model(r->Ok_0@) == ns,
                Option::None => r is Err && r->Err_0.kind == JSONPathErrorType::ExtError,
            },
        decreases *self, sval_size(value@), 0int,
    {
        let ghost node_m = SNode { path: loc_model(location@), val: value@ };
        let ghost root = context.root@;
        match self {
            Selector::Name { name } => {
                let mut out: NodeList = Vec::new();
                match value.object_get(name.as_str()) {
                    Option::Some(v) => {
                        let n = Node::new_object_member(v.deep_clone(), location, name.clone());
                        out.push(n);
                        proof {
                            assert(nodes_model(out@) =~= sel_eval(*self, node_m, root)->Some_0);
                        }
                    },
                    Option::None => {
                        proof {
                            assert(nodes_model(out@) =~= Seq::<SNode>::empty());
                        }
                    },
                }
                Ok(out)
            },
            Selector::Index { index } => {
                let mut out: NodeList = Vec::new();
                match value {
                    JsonValue::Array(a) => {
                        proof {
                            lemma_arr_model_len(a@);
                        }
                        let len_i: i128 = a.len() as i128;
                        let raw: i128 = *index as i128;
                        let n: i128 = if raw < 0 {
                            len_i + raw
                        } else {
                            raw
                        };
                        if 0 <= n && n < len_i {
                            let nu: usize = n as usize;
                            proof {
                                lemma_arr_model_index(a@, nu as int);
                            }
                            let node = Node::new_array_element(a[nu].deep_clone(), location, nu);
                            out.push(node);
                            proof {
                                assert(nodes_model(out@) =~= sel_eval(*self, node_m, root)->Some_0);
                            }
                        } else {
                            proof {
                                assert(nodes_model(out@) =~= Seq::<SNode>::empty());
                            }
                        }
                    },
                    _ => {
                        proof {
                            assert(nodes_model(out@) =~= Seq::<SNode>::empty());
                        }
                    },
                }
                Ok(out)
            },
            Selector::Slice { start, stop, step } => match value {
                JsonValue::Array(a) => {
                    let out = resolve_slice(a, start, stop, step, location);
                    Ok(out)
                },
                _ => {
                    let out: NodeList = Vec::new();
                    proof {
                        assert(nodes_model(out@) =~= Seq::<SNode>::empty());
                    }
                    Ok(out)
                },
            },
            Selector::Wild => match value {
                JsonValue::Array(a) => Ok(resolve_wild_array(a, location)),
                JsonValue::Object(m) => Ok(resolve_wild_object(m, location)),
                _ => {
                    let out: NodeList = Vec::new();
                    proof {
                        assert(nodes_model(out@) =~= Seq::<SNode>::empty());
                    }
                    Ok(out)
                },
            },
            Selector::Filter { expression } => match value {
                JsonValue::Array(a) => {
                    proof {
                        lemma_arr_model_len(a@);
                    }
                    resolve_filter_array(expression, a, location, context)
                },
                JsonValue::Object(m) => {
                    proof {
                        lemma_obj_model_len(m@);
                    }
                    resolve_filter_object(expression, m, location, context, false)
                },
                _ => {
                    let out: NodeList = Vec::new();
                    proof {
                        assert(nodes_model(out@) =~= Seq::<SNode>::empty());
                    }
                    Ok(out)
                },
            },
            Selector::Key { name } => {
                let mut out: NodeList = Vec::new();
                match value.object_get(name.as_str()) {
                    Option::Some(_) => {
                        let n = Node::new_object_key(
                            JsonValue::Str(name.clone()),
                            location,
                            name.clone(),
                        );
                        out.push(n);
                        proof {
                            assert(nodes_model(out@) =~= sel_eval(*self, node_m, root)->Some_0);
                        }
                    },
                    Option::None => {
                        proof {
                            assert(nodes_model(out@) =~= Seq::<SNode>::empty());
                        }
                    },
                }
                Ok(out)
            },
            Selector::Keys => match value {
                JsonValue::Object(m) => {
                    proof {
                        lemma_obj_model_len(m@);
                    }
                    let ghost target = sel_eval(*self, node_m, root)->Some_0;
                    let out = resolve_keys(m, location, Ghost(target));
                    Ok(out)
                },
                _ => {
                    let out: NodeList = Vec::new();
                    proof {
                        assert(nodes_model(out@) =~= Seq::<SNode>::empty());
                    }
                    Ok(out)
                },
            },
            Selector::KeysFilter { expression } => match value {
                JsonValue::Object(m) => {
                    proof {
                        lemma_obj_model_len(m@);
                    }
                    resolve_filter_object(expression, m, location, context, true)
                },
                _ => {
                    let out: NodeList = Vec::new();
                    proof {
                        assert(nodes_model(out@) =~= Seq::<SNode>::empty());
                    }
                    Ok(out)
                },
            },
        }
    }
}

} // verus!
