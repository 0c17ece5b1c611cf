//! Located values: the elements of a resolved query's output. Each node
//! carries a value and its location, and renders the location as an RFC 9535
//! normalized path: `$` followed by `['<escaped name>']` and `[<index>]`
//! steps, with `[~'<escaped name>']` for nodes produced by the key
//! selectors. Names are escaped as the query printer escapes them.

use crate::printer::{esc_str, push_escaped};
use crate::strutil::{chars_to_string, dec_digits, push_u64_digits};
use crate::value::{JsonVal, JsonValue};
use vstd::prelude::*;

verus! {

broadcast use vstd::std_specs::vec::group_vec_axioms;

/// An array element index or object member name in a node's location.
#[derive(Debug)]
pub enum PathElement {
    Index(usize),
    Name(String),
    Key(String),
}

/// The mathematical shape of a location step.
pub ghost enum PathEl {
    Index(int),
    Name(Seq<char>),
    Key(Seq<char>),
}

impl View for PathElement {
    type V = PathEl;

    open spec fn view(&self) -> PathEl {
        match self {
            PathElement::Index(i) => PathEl::Index(*i as int),
            PathElement::Name(s) => PathEl::Name(s@),
            PathElement::Key(s) => PathEl::Key(s@),
        }
    }
}

/// The shapes of a whole location.
pub open spec fn loc_model(p: Seq<PathElement>) -> Seq<PathEl> {
    p.map(|i: int, e: PathElement| e@)
}

/// The normalized-path text of one location step.
pub open spec fn path_elem_str(e: PathEl) -> Seq<char> {
    match e {
        PathEl::Index(i) => seq!['['] + dec_digits(i as nat) + seq![']'],
        PathEl::Name(s) => seq!['[', '\''] + esc_str(s) + seq!['\'', ']'],
        PathEl::Key(s) => seq!['[', '~', '\''] + esc_str(s) + seq!['\'', ']'],
    }
}

/// The normalized-path text of a location: `$` followed by its steps.
pub open spec fn path_str(p: Seq<PathEl>) -> Seq<char>
    decreases p.len(),
{
    if p.len() == 0 {
        seq!['$']
    } else {
        path_str(p.drop_last()) + path_elem_str(p.last())
    }
}

/// A value together with its location in the document.
#[derive(Debug)]
pub struct Node {
    pub value: JsonValue,
    pub location: Vec<PathElement>,
}

/// The mathematical shape of a node: its location and its value.
#[verifier::ext_equal]
pub ghost struct SNode {
    pub path: Seq<PathEl>,
    pub val: JsonVal,
}

impl View for Node {
    type V = SNode;

    open spec fn view(&self) -> SNode {
        SNode { path: loc_model(self.location@), val: self.value@ }
    }
}

/// An ordered list of located values; duplicates are permitted.
pub type NodeList = Vec<Node>;

/// The shapes of a node list, in order.
pub open spec fn nodes_model(nodes: Seq<Node>) -> Seq<SNode> {
    nodes.map(|i: int, n: Node| n@)
}

fn clone_path_element(e: &PathElement) -> (r: PathElement)
    ensures
        r@ == e@,
{
    match e {
        PathElement::Index(i) => PathElement::Index(*i),
        PathElement::Name(s) => PathElement::Name(s.clone()),
        PathElement::Key(s) => PathElement::Key(s.clone()),
    }
}

/// A copy of a location.
#[verifier::loop_isolation(false)]
pub fn clone_location(p: &Vec<PathElement>) -> (r: Vec<PathElement>)
    ensures
        loc_model(r@) == loc_model(p@),
{
    let mut out: Vec<PathElement> = Vec::new();
    let mut i: usize = 0;
    while i < p.len()
        invariant
            0 <= i <= p@.len(),
            out@.len() == i,
            forall|k: int| 0 <= k < i ==> (#[trigger] out@[k])@ == p@[k]@,
        decreases p@.len() - i,
    {
        let e = clone_path_element(&p[i]);
        out.push(e);
        i = i + 1;
    }
    proof {
        assert(loc_model(out@) =~= loc_model(p@));
    }
    out
}

impl Node {
    /// A node for the element of an array: the location grows by `[index]`.
    pub fn new_array_element(value: JsonValue, location: &Vec<PathElement>, index: usize) -> (n:
        Node)
        ensures
            n@.val == value@,
            n@.path == loc_model(location@).push(PathEl::Index(index as int)),
    {
        let mut loc = clone_location(location);
        loc.push(PathElement::Index(index));
        proof {
            assert(loc_model(loc@) =~= loc_model(location@).push(PathEl::Index(index as int)));
        }
        Node { value, location: loc }
    }

    /// A node for a member of an object: the location grows by `['name']`.
    pub fn new_object_member(value: JsonValue, location: &Vec<PathElement>, name: String) -> (n:
        Node)
        ensures
            n@.val == value@,
            n@.path == loc_model(location@).push(PathEl::Name(name@)),
    {
        let mut loc = clone_location(location);
        loc.push(PathElement::Name(name));
        proof {
            assert(loc_model(loc@) =~= loc_model(location@).push(PathEl::Name(name@)));
        }
        Node { value, location: loc }
    }

    /// A node for an object key produced by a key selector: the location
    /// grows by `[~'name']`.
    pub fn new_object_key(value: JsonValue, location: &Vec<PathElement>, name: String) -> (n: Node)
        ensures
            n@.val == value@,
            n@.path == loc_model(location@).push(PathEl::Key(name@)),
    {
        let mut loc = clone_location(location);
        loc.push(PathElement::Key(name));
        proof {
            assert(loc_model(loc@) =~= loc_model(location@).push(PathEl::Key(name@)));
        }
        Node { value, location: loc }
    }

    /// The location of this node's value as a normalized path.
    #[verifier::loop_isolation(false)]
    pub fn path(&self) -> (r: String)
        ensures
            r@ == path_str(self@.path),
    {
        let mut out: Vec<char> = Vec::new();
        out.push('$');
        let mut i: usize = 0;
        while i < self.location.len()
            invariant
                0 <= i <= self.location@.len(),
                out@ == path_str(loc_model(self.location@).take(i as int)),
            decreases self.location@.len() - i,
        {
            match &self.location[i] {
                PathElement::Index(idx) => {
                    out.push('[');
                    push_u64_digits(*idx as u64, &mut out);
                    out.push(']');
                },
                PathElement::Name(s) => {
                    out.push('[');
                    out.push('\'');
                    push_escaped(s, &mut out);
                    out.push('\'');
                    out.push(']');
                },
                PathElement::Key(s) => {
                    out.push('[');
                    out.push('~');
                    out.push('\'');
                    push_escaped(s, &mut out);
                    out.push('\'');
                    out.push(']');
                },
            }
            proof {
                let p = loc_model(self.location@);
                assert(p.take(i + 1).drop_last() =~= p.take(i as int));
                assert(p.take(i + 1).last() == p[i as int]);
                assert(out@ =~= path_str(p.take(i as int)) + path_elem_str(p[i as int]));
            }
            i = i + 1;
        }
        proof {
            assert(loc_model(self.location@).take(self.location@.len() as int) =~= loc_model(
                self.location@,
            ));
            assert(out@ =~= path_str(loc_model(self.location@)));
        }
        chars_to_string(out)
    }
}

} // verus!
