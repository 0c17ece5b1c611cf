//! Segments: one level of a query, applying selectors to every node of the
//! current node list, either directly or through a recursive descent.

use crate::errors::{JSONPathError, JSONPathErrorType};
use crate::node::{clone_location, loc_model, nodes_model, NodeList, PathEl, PathElement, SNode};
use crate::selector::Selector;
use crate::semantics::{
    arr_children, child_nodes_eval, children_of, lemma_arr_model_children, lemma_mems_size_index,
    lemma_obj_model_children, lemma_vals_size_index, mems_size, obj_children, seg_eval, sels_eval,
    sval_size, vals_size, visit_list,
};
use crate::value::{
    arr_model, lemma_arr_model_index, lemma_arr_model_len, lemma_obj_model_index,
    lemma_obj_model_len, obj_model, JsonValue,
};
use crate::QueryContext;
use vstd::prelude::*;

verus! {

broadcast use vstd::std_specs::vec::group_vec_axioms;

/// One level of a query. A `Child` segment applies its selectors to each
/// node; a `Recursive` segment applies them to each node and to all of its
/// descendants, in pre-order.
#[derive(Debug, PartialEq)]
pub enum Segment {
    Child { selectors: Vec<Selector> },
    Recursive { selectors: Vec<Selector> },
}

/// All selectors applied to one node, results in selector order.
#[verifier::loop_isolation(false)]
#[verifier::rlimit(30)]
fn resolve_selectors(
    selectors: &Vec<Selector>,
    value: &JsonValue,
    location: &Vec<PathElement>,
    context: &QueryContext,
) -> (r: Result<NodeList, JSONPathError>)
    ensures
        match sels_eval(
            selectors@,
            SNode { path: loc_model(location@), val: value@ },
            context.root@,
        ) {
            Option::Some(ns) => r is Ok && nodes_model(r->Ok_0@) == ns,
            Option::None => r is Err && r->Err_0.kind == JSONPathErrorType::ExtError,
        },
    decreases *selectors, sval_size(value@), 0int,
{
    let ghost sels = selectors@;
    let ghost root = context.root@;
    let ghost node_m = SNode { path: loc_model(location@), val: value@ };
    let ghost full = sels_eval(sels, node_m, root);
    let mut out: NodeList = Vec::new();
    proof {
        assert(sels.skip(0) =~= sels);
        assert(nodes_model(out@) =~= Seq::<SNode>::empty());
    }
    let mut si: usize = 0;
    while si < selectors.len()
        invariant
            0 <= si <= selectors@.len(),
            sels == selectors@,
            match sels_eval(sels.skip(si as int), node_m, root) {
                Option::Some(rest) => full == Some(nodes_model(out@) + rest),
                Option::None => full is None,
            },
        decreases selectors@.len() - si,
    {
        proof {
            assert(sels.skip(si as int)[0] == sels[si as int]);
            assert(sels.skip(si as int).drop_first() =~= sels.skip(si + 1));
        }
        let ghost out_before = out@;
        let mut rs = selectors[si].resolve(value, location, context)?;
        let ghost rs_m = nodes_model(rs@);
        out.append(&mut rs);
        proof {
            assert(nodes_model(out@) =~= nodes_model(out_before) + rs_m);
            if sels_eval(sels.skip(si + 1), node_m, root) is Some {
                let rest = sels_eval(sels.skip(si + 1), node_m, root)->Some_0;
                assert(nodes_model(out_before) + (rs_m + rest) =~= nodes_model(out@) + rest);
            }
        }
        si = si + 1;
    }
    proof {
        assert(sels.skip(selectors@.len() as int) =~= Seq::<Selector>::empty());
        assert(nodes_model(out@) + Seq::<SNode>::empty() =~= nodes_model(out@));
    }
    Ok(out)
}

/// Pre-order descent from one value: the selectors' results on it, then the
/// same descent through each of its children in order.
#[verifier::loop_isolation(false)]
#[verifier::rlimit(30)]
fn visit(
    selectors: &Vec<Selector>,
    value: &JsonValue,
    location: &Vec<PathElement>,
    context: &QueryContext,
) -> (r: Result<NodeList, JSONPathError>)
    ensures
        match crate::semantics::visit(
            selectors@,
            SNode { path: loc_model(location@), val: value@ },
            context.root@,
        ) {
            Option::Some(ns) => r is Ok && nodes_model(r->Ok_0@) == ns,
            Option::None => r is Err && r->Err_0.kind == JSONPathErrorType::ExtError,
        },
    decreases *selectors, sval_size(value@), 2int,
{
    let ghost sels = selectors@;
    let ghost root = context.root@;
    let ghost node_m = SNode { path: loc_model(location@), val: value@ };
    let mut out = resolve_selectors(selectors, value, location, context)?;
    let ghost own = nodes_model(out@);
    match value {
        JsonValue::Array(a) => {
            proof {
                lemma_arr_model_len(a@);
                lemma_arr_model_children(node_m.path, arr_model(a@));
            }
            let mut rest = visit_children_array(selectors, a, location, context)?;
            out.append(&mut rest);
            proof {
                assert(children_of(node_m) == arr_children(node_m.path, arr_model(a@)));
                assert(nodes_model(out@) =~= own + visit_list(
                    sels,
                    children_of(node_m),
                    root,
                )->Some_0);
            }
            Ok(out)
        },
        JsonValue::Object(m) => {
            proof {
                lemma_obj_model_len(m@);
                lemma_obj_model_children(node_m.path, obj_model(m@));
            }
            let mut rest = visit_children_object(selectors, m, location, context)?;
            out.append(&mut rest);
            proof {
                assert(children_of(node_m) == obj_children(node_m.path, obj_model(m@)));
                assert(nodes_model(out@) =~= own + visit_list(
                    sels,
                    children_of(node_m),
                    root,
                )->Some_0);
            }
            Ok(out)
        },
        _ => {
            proof {
                assert(children_of(node_m) =~= Seq::<SNode>::empty());
                assert(visit_list(sels, children_of(node_m), root) == Some(Seq::<SNode>::empty()));
                assert(own + Seq::<SNode>::empty() =~= own);
            }
            Ok(out)
        },
    }
}

/// Descent through the elements of an array, in index order.
#[verifier::loop_isolation(false)]
#[verifier::rlimit(30)]
fn visit_children_array(
    selectors: &Vec<Selector>,
    a: &Vec<JsonValue>,
    location: &Vec<PathElement>,
    context: &QueryContext,
) -> (r: Result<NodeList, JSONPathError>)
    ensures
        match visit_list(
            selectors@,
            arr_children(loc_model(location@), arr_model(a@)),
            context.root@,
        ) {
            Option::Some(ns) => r is Ok && nodes_model(r->Ok_0@) == ns,
            Option::None => r is Err && r->Err_0.kind == JSONPathErrorType::ExtError,
        },
    decreases *selectors, vals_size(arr_model(a@)), 0int,
{
    let ghost sels = selectors@;
    let ghost root = context.root@;
    let ghost path = loc_model(location@);
    let ghost children = arr_children(path, arr_model(a@));
    let ghost full = visit_list(sels, children, root);
    let mut out: NodeList = Vec::new();
    proof {
        lemma_arr_model_len(a@);
        lemma_arr_model_children(path, arr_model(a@));
        assert(children.skip(0) =~= children);
        assert(nodes_model(out@) =~= Seq::<SNode>::empty());
    }
    let mut i: usize = 0;
    while i < a.len()
        invariant
            0 <= i <= a@.len(),
            children == arr_children(path, arr_model(a@)),
            children.len() == a@.len(),
            path == loc_model(location@),
            match visit_list(sels, children.skip(i as int), root) {
                Option::Some(rest) => full == Some(nodes_model(out@) + rest),
                Option::None => full is None,
            },
        decreases a@.len() - i,
    {
        proof {
            assert(children.skip(i as int)[0] == children[i as int]);
            assert(children.skip(i as int).drop_first() =~= children.skip(i + 1));
            lemma_arr_model_index(a@, i as int);
            lemma_vals_size_index(arr_model(a@), i as int);
        }
        let mut child_loc = clone_location(location);
        child_loc.push(PathElement::Index(i));
        proof {
            assert(loc_model(child_loc@) =~= path.push(PathEl::Index(i as int)));
        }
        let ghost out_before = out@;
        let mut rs = visit(selectors, &a[i], &child_loc, context)?;
        let ghost rs_m = nodes_model(rs@);
        out.append(&mut rs);
        proof {
            assert(nodes_model(out@) =~= nodes_model(out_before) + rs_m);
            if visit_list(sels, children.skip(i + 1), root) is Some {
                let rest = visit_list(sels, children.skip(i + 1), root)->Some_0;
                assert(nodes_model(out_before) + (rs_m + rest) =~= nodes_model(out@) + rest);
            }
        }
        i = i + 1;
    }
    proof {
        assert(children.skip(children.len() as int) =~= Seq::<SNode>::empty());
        assert(nodes_model(out@) + Seq::<SNode>::empty() =~= nodes_model(out@));
    }
    Ok(out)
}

/// Descent through the members of an object, in insertion order.
#[verifier::loop_isolation(false)]
#[verifier::rlimit(30)]
fn visit_children_object(
    selectors: &Vec<Selector>,
    m: &Vec<(String, JsonValue)>,
    location: &Vec<PathElement>,
    context: &QueryContext,
) -> (r: Result<NodeList, JSONPathError>)
    ensures
        match visit_list(
            selectors@,
            obj_children(loc_model(location@), obj_model(m@)),
            context.root@,
        ) {
            Option::Some(ns) => r is Ok && nodes_model(r->Ok_0@) == ns,
            Option::None => r is Err && r->Err_0.kind == JSONPathErrorType::ExtError,
        },
    decreases *selectors, mems_size(obj_model(m@)), 0int,
{
    let ghost sels = selectors@;
    let ghost root = context.root@;
    let ghost path = loc_model(location@);
    let ghost children = obj_children(path, obj_model(m@));
    let ghost full = visit_list(sels, children, root);
    let mut out: NodeList = Vec::new();
    proof {
        lemma_obj_model_len(m@);
        lemma_obj_model_children(path, obj_model(m@));
        assert(children.skip(0) =~= children);
        assert(nodes_model(out@) =~= Seq::<SNode>::empty());
    }
    let mut i: usize = 0;
    while i < m.len()
        invariant
            0 <= i <= m@.len(),
            children == obj_children(path, obj_model(m@)),
            children.len() == m@.len(),
            path == loc_model(location@),
            match visit_list(sels, children.skip(i as int), root) {
                Option::Some(rest) => full == Some(nodes_model(out@) + rest),
                Option::None => full is None,
            },
        decreases m@.len() - i,
    {
        proof {
            assert(children.skip(i as int)[0] == children[i as int]);
            assert(children.skip(i as int).drop_first() =~= children.skip(i + 1));
            lemma_obj_model_index(m@, i as int);
            lemma_mems_size_index(obj_model(m@), i as int);
        }
        let mut child_loc = clone_location(location);
        child_loc.push(PathElement::Name(m[i].0.clone()));
        proof {
            assert(loc_model(child_loc@) =~= path.push(PathEl::Name(m@[i as int].0@)));
        }
        let ghost out_before = out@;
        let mut rs = visit(selectors, &m[i].1, &child_loc, context)?;
        let ghost rs_m = nodes_model(rs@);
        out.append(&mut rs);
        proof {
            assert(nodes_model(out@) =~= nodes_model(out_before) + rs_m);
            if visit_list(sels, children.skip(i + 1), root) is Some {
                let rest = visit_list(sels, children.skip(i + 1), root)->Some_0;
                assert(nodes_model(out_before) + (rs_m + rest) =~= nodes_model(out@) + rest);
            }
        }
        i = i + 1;
    }
    proof {
        assert(children.skip(children.len() as int) =~= Seq::<SNode>::empty());
        assert(nodes_model(out@) + Seq::<SNode>::empty() =~= nodes_model(out@));
    }
    Ok(out)
}

impl Segment {
    /// Applies this segment to a node list: exactly the nodes the
    /// mathematical evaluation yields, in order.
    #[verifier::loop_isolation(false)]
    #[verifier::rlimit(30)]
    pub fn resolve(&self, nodes: NodeList, context: &QueryContext) -> (r: Result<
        NodeList,
        JSONPathError,
    >)
        ensures
            match seg_eval(*self, nodes_model(nodes@), context.root@) {
                Option::Some(ns) => r is Ok && nodes_model(r->Ok_0@) == ns,
                Option::None => r is Err && r->Err_0.kind == JSONPathErrorType::ExtError,
            },
        decreases *self, 0nat, 0int,
    {
        let ghost nm = nodes_model(nodes@);
        let ghost root = context.root@;
        match self {
            Segment::Child { selectors } => {
                let ghost sels = selectors@;
                let ghost full = child_nodes_eval(sels, nm, root);
                let mut out: NodeList = Vec::new();
                proof {
                    assert(nm.skip(0) =~= nm);
                    assert(nodes_model(out@) =~= Seq::<SNode>::empty());
                }
                let mut ni: usize = 0;
                while ni < nodes.len()
                    invariant
                        0 <= ni <= nodes@.len(),
                        nm == nodes_model(nodes@),
                        sels == selectors@,
                        match child_nodes_eval(sels, nm.skip(ni as int), root) {
                            Option::Some(rest) => full == Some(nodes_model(out@) + rest),
                            Option::None => full is None,
                        },
                    decreases nodes@.len() - ni,
                {
                    proof {
                        assert(nm.skip(ni as int)[0] == nm[ni as int]);
                        assert(nm.skip(ni as int).drop_first() =~= nm.skip(ni + 1));
                    }
                    let ghost out_before = out@;
                    let mut rs = resolve_selectors(
                        selectors,
                        &nodes[ni].value,
                        &nodes[ni].location,
                        context,
                    )?;
                    let ghost rs_m = nodes_model(rs@);
                    out.append(&mut rs);
                    proof {
                        assert(nodes_model(out@) =~= nodes_model(out_before) + rs_m);
                        if child_nodes_eval(sels, nm.skip(ni + 1), root) is Some && sels_eval(
                            sels,
                            nm[ni as int],
                            root,
                        ) is Some {
                            let rest = child_nodes_eval(sels, nm.skip(ni + 1), root)->Some_0;
                            assert(nodes_model(out_before) + (rs_m + rest) =~= nodes_model(out@)
                                + rest);
                        }
                    }
                    ni = ni + 1;
                }
                proof {
                    assert(nm.skip(nodes@.len() as int) =~= Seq::<SNode>::empty());
                    assert(nodes_model(out@) + Seq::<SNode>::empty() =~= nodes_model(out@));
                }
                Ok(out)
            },
            Segment::Recursive { selectors } => {
                let ghost sels = selectors@;
                let ghost full = visit_list(sels, nm, root);
                let mut out: NodeList = Vec::new();
                proof {
                    assert(nm.skip(0) =~= nm);
                    assert(nodes_model(out@) =~= Seq::<SNode>::empty());
                }
                let mut ni: usize = 0;
                while ni < nodes.len()
                    invariant
                        0 <= ni <= nodes@.len(),
                        nm == nodes_model(nodes@),
                        sels == selectors@,
                        match visit_list(sels, nm.skip(ni as int), root) {
                            Option::Some(rest) => full == Some(nodes_model(out@) + rest),
                            Option::None => full is None,
                        },
                    decreases nodes@.len() - ni,
                {
                    proof {
                        assert(nm.skip(ni as int)[0] == nm[ni as int]);
                        assert(nm.skip(ni as int).drop_first() =~= nm.skip(ni + 1));
                    }
                    let ghost out_before = out@;
                    let mut rs = visit(selectors, &nodes[ni].value, &nodes[ni].location, context)?;
                    let ghost rs_m = nodes_model(rs@);
                    out.append(&mut rs);
                    proof {
                        assert(nodes_model(out@) =~= nodes_model(out_before) + rs_m);
                        if visit_list(sels, nm.skip(ni + 1), root) is Some {
                            let rest = visit_list(sels, nm.skip(ni + 1), root)->Some_0;
                            assert(nodes_model(out_before) + (rs_m + rest) =~= nodes_model(out@)
                                + rest);
                        }
                    }
                    ni = ni + 1;
                }
                proof {
                    assert(nm.skip(nodes@.len() as int) =~= Seq::<SNode>::empty());
                    assert(nodes_model(out@) + Seq::<SNode>::empty() =~= nodes_model(out@));
                }
                Ok(out)
            },
        }
    }
}

} // verus!
