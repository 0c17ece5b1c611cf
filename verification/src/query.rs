//! A compiled query: an ordered sequence of segments, and its resolution
//! against a document.

use crate::environment::Env;
use crate::errors::{JSONPathError, JSONPathErrorType};
use crate::node::{loc_model, nodes_model, Node, NodeList, SNode};
use crate::segment::Segment;
use crate::selector::Selector;
use crate::semantics::{query_nodes, seg_eval, segs_eval};
use crate::value::JsonValue;
use crate::QueryContext;
use vstd::prelude::*;

verus! {

broadcast use vstd::std_specs::vec::group_vec_axioms;

/// A compiled JSONPath query. A query with no segments denotes the root
/// alone.
#[derive(Debug, PartialEq)]
pub struct Query {
    pub segments: Vec<Segment>,
}

/// Whether a query is singular: every segment is a child segment holding
/// exactly one name or index selector, so it resolves to at most one node.
pub open spec fn is_singular_query(q: Query) -> bool {
    forall|i: int|
        0 <= i < q.segments@.len() ==> {
            &&& (#[trigger] q.segments@[i]) is Child
            &&& q.segments@[i]->Child_selectors@.len() == 1
            &&& (q.segments@[i]->Child_selectors@[0] is Name
                || q.segments@[i]->Child_selectors@[0] is Index)
        }
}

impl Query {
    pub fn new(segments: Vec<Segment>) -> (q: Query)
        ensures
            q.segments == segments,
    {
        Query { segments }
    }

    /// Applies this query to a document: exactly the nodes the mathematical
    /// evaluation yields, in order, or an extension error where that is
    /// undefined.
    #[verifier::loop_isolation(false)]
    pub fn resolve(&self, value: &JsonValue, env: &Env) -> (r: Result<NodeList, JSONPathError>)
        ensures
            match query_nodes(*self, value@) {
                Option::Some(ns) => r is Ok && nodes_model(r->Ok_0@) == ns,
                Option::None => r is Err && r->Err_0.kind == JSONPathErrorType::ExtError,
            },
        decreases *self, 0nat, 0int,
    {
        let context = QueryContext { env, root: value };
        let root_node = Node { value: value.deep_clone(), location: Vec::new() };
        let mut nodes: NodeList = Vec::new();
        nodes.push(root_node);
        proof {
            assert(loc_model(Seq::<crate::node::PathElement>::empty())
                =~= Seq::<crate::node::PathEl>::empty());
            assert(nodes_model(nodes@) =~= seq![SNode { path: Seq::empty(), val: value@ }]);
            assert(self.segments@.skip(0) =~= self.segments@);
        }
        let mut i: usize = 0;
        while i < self.segments.len()
            invariant
                0 <= i <= self.segments@.len(),
                query_nodes(*self, value@) == segs_eval(
                    self.segments@.skip(i as int),
                    nodes_model(nodes@),
                    value@,
                ),
            decreases self.segments@.len() - i,
        {
            proof {
                assert(self.segments@.skip(i as int)[0] == self.segments@[i as int]);
                assert(self.segments@.skip(i as int).drop_first() =~= self.segments@.skip(i + 1));
            }
            nodes = self.segments[i].resolve(nodes, &context)?;
            i = i + 1;
        }
        proof {
            assert(self.segments@.skip(self.segments@.len() as int) =~= Seq::<Segment>::empty());
        }
        Ok(nodes)
    }

    /// Whether this query has no segments.
    pub fn is_empty(&self) -> (r: bool)
        ensures
            r == (self.segments@.len() == 0),
    {
        self.segments.len() == 0
    }

    /// Whether this query can resolve to at most one node.
    pub fn is_singular(&self) -> (r: bool)
        ensures
            r == is_singular_query(*self),
    {
        let mut i: usize = 0;
        while i < self.segments.len()
            invariant
                0 <= i <= self.segments@.len(),
                forall|k: int|
                    0 <= k < i ==> {
                        &&& (#[trigger] self.segments@[k]) is Child
                        &&& self.segments@[k]->Child_selectors@.len() == 1
                        &&& (self.segments@[k]->Child_selectors@[0] is Name
                            || self.segments@[k]->Child_selectors@[0] is Index)
                    },
            decreases self.segments@.len() - i,
        {
            match &self.segments[i] {
                Segment::Child { selectors } => {
                    if selectors.len() != 1 {
                        return false;
                    }
                    match &selectors[0] {
                        Selector::Name { .. } => {},
                        Selector::Index { .. } => {},
                        _ => {
                            return false;
                        },
                    }
                },
                Segment::Recursive { .. } => {
                    return false;
                },
            }
            i = i + 1;
        }
        true
    }
}

} // verus!
