//! The document model: a JSON-like value made of null, booleans, exact
//! decimal numbers, strings, arrays and objects. Object members keep their
//! insertion order.
//!
//! Value equality, ordering and truthiness follow RFC 9535's comparison
//! semantics: numbers compare numerically, strings lexicographically,
//! booleans and null only to themselves, and values of different kinds are
//! never ordered.

use crate::num::{dec_cmp, dec_eq, dec_lt, Decimal};
use crate::strutil::{str_lt, str_lt_exec};
use vstd::prelude::*;

verus! {

broadcast use vstd::std_specs::vec::group_vec_axioms;

/// An in-memory JSON-like document value.
#[derive(Debug)]
pub enum JsonValue {
    Null,
    Bool(bool),
    Num(Decimal),
    Str(String),
    Array(Vec<JsonValue>),
    Object(Vec<(String, JsonValue)>),
}

/// The mathematical shape of a document value.
#[verifier::ext_equal]
pub ghost enum JsonVal {
    Null,
    Bool(bool),
    Num(Decimal),
    Str(Seq<char>),
    Arr(Seq<JsonVal>),
    Obj(Seq<(Seq<char>, JsonVal)>),
}

/// The shapes of the elements of an array.
pub open spec fn arr_model(a: Seq<JsonValue>) -> Seq<JsonVal>
    decreases a,
{
    if a.len() == 0 {
        Seq::empty()
    } else {
        arr_model(a.drop_last()).push(model(a.last()))
    }
}

/// The shapes of the members of an object, keys and values.
pub open spec fn obj_model(m: Seq<(String, JsonValue)>) -> Seq<(Seq<char>, JsonVal)>
    decreases m,
{
    if m.len() == 0 {
        Seq::empty()
    } else {
        obj_model(m.drop_last()).push((m.last().0@, model(m.last().1)))
    }
}

pub broadcast proof fn lemma_arr_model_len(a: Seq<JsonValue>)
    ensures
        (#[trigger] arr_model(a)).len() == a.len(),
    decreases a.len(),
{
    if a.len() > 0 {
        lemma_arr_model_len(a.drop_last());
    }
}

pub broadcast proof fn lemma_arr_model_index(a: Seq<JsonValue>, i: int)
    requires
        0 <= i < a.len(),
    ensures
        #[trigger] arr_model(a)[i] == model(a[i]),
    decreases a.len(),
{
    lemma_arr_model_len(a);
    lemma_arr_model_len(a.drop_last());
    if i < a.len() - 1 {
        lemma_arr_model_index(a.drop_last(), i);
    }
}

pub broadcast proof fn lemma_obj_model_len(m: Seq<(String, JsonValue)>)
    ensures
        (#[trigger] obj_model(m)).len() == m.len(),
    decreases m.len(),
{
    if m.len() > 0 {
        lemma_obj_model_len(m.drop_last());
    }
}

pub broadcast proof fn lemma_obj_model_index(m: Seq<(String, JsonValue)>, i: int)
    requires
        0 <= i < m.len(),
    ensures
        #[trigger] obj_model(m)[i] == (m[i].0@, model(m[i].1)),
    decreases m.len(),
{
    lemma_obj_model_len(m);
    lemma_obj_model_len(m.drop_last());
    if i < m.len() - 1 {
        lemma_obj_model_index(m.drop_last(), i);
    }
}

/// The shape of a document value.
pub open spec fn model(v: JsonValue) -> JsonVal
    decreases v,
{
    match v {
        JsonValue::Null => JsonVal::Null,
        JsonValue::Bool(b) => JsonVal::Bool(b),
        JsonValue::Num(d) => JsonVal::Num(d),
        JsonValue::Str(s) => JsonVal::Str(s@),
        JsonValue::Array(a) => JsonVal::Arr(arr_model(a@)),
        JsonValue::Object(m) => JsonVal::Obj(obj_model(m@)),
    }
}

impl View for JsonValue {
    type V = JsonVal;

    open spec fn view(&self) -> JsonVal {
        model(*self)
    }
}

/// Whether a value counts as true in a filter: false, null, zero, the empty
/// string and empty containers are false; everything else is true.
pub open spec fn val_truthy(v: JsonVal) -> bool {
    match v {
        JsonVal::Null => false,
        JsonVal::Bool(b) => b,
        JsonVal::Num(d) => d.mantissa != 0,
        JsonVal::Str(s) => s.len() > 0,
        JsonVal::Arr(a) => a.len() > 0,
        JsonVal::Obj(m) => m.len() > 0,
    }
}

/// Deep equality of two values: numbers compare numerically, arrays element
/// by element, objects as key-value collections regardless of member order,
/// matched in both directions so that the relation is symmetric even on an
/// object with a repeated key.
pub open spec fn val_eq(a: JsonVal, b: JsonVal) -> bool
    decreases a,
{
    match (a, b) {
        (JsonVal::Null, JsonVal::Null) => true,
        (JsonVal::Bool(x), JsonVal::Bool(y)) => x == y,
        (JsonVal::Num(x), JsonVal::Num(y)) => dec_eq(x, y),
        (JsonVal::Str(x), JsonVal::Str(y)) => x == y,
        (JsonVal::Arr(x), JsonVal::Arr(y)) => x.len() == y.len() && (forall|i: int|
            0 <= i < x.len() ==> val_eq(#[trigger] x[i], y[i])),
        (JsonVal::Obj(x), JsonVal::Obj(y)) => x.len() == y.len() && (forall|i: int|
            0 <= i < x.len() ==> obj_member_in(#[trigger] x[i], y)) && (forall|j: int|
            0 <= j < y.len() ==> obj_member_from(x, #[trigger] y[j])),
        _ => false,
    }
}

/// Whether the object `m` holds a member with this entry's key and an equal
/// value, the object's member on the left of the comparison.
pub open spec fn obj_member_from(m: Seq<(Seq<char>, JsonVal)>, entry: (Seq<char>, JsonVal)) -> bool
    decreases m,
{
    exists|k: int| 0 <= k < m.len() && (#[trigger] m[k]).0 == entry.0 && val_eq(m[k].1, entry.1)
}

/// Whether an object holds a member with this entry's key and an equal value.
pub open spec fn obj_member_in(entry: (Seq<char>, JsonVal), m: Seq<(Seq<char>, JsonVal)>) -> bool
    decreases entry,
{
    exists|j: int| 0 <= j < m.len() && (#[trigger] m[j]).0 == entry.0 && val_eq(entry.1, m[j].1)
}

/// Strict order on two values: strings by code point, numbers numerically;
/// values of any other or mixed kinds are never ordered.
pub open spec fn val_lt(a: JsonVal, b: JsonVal) -> bool {
    match (a, b) {
        (JsonVal::Str(x), JsonVal::Str(y)) => str_lt(x, y),
        (JsonVal::Num(x), JsonVal::Num(y)) => dec_lt(x, y),
        _ => false,
    }
}

/// The value of the first member of `m` named `name`, searching from `i`.
pub open spec fn obj_lookup_from(
    m: Seq<(Seq<char>, JsonVal)>,
    name: Seq<char>,
    i: int,
) -> Option<JsonVal>
    decreases m.len() - i,
{
    if i < 0 || i >= m.len() {
        None
    } else if m[i].0 == name {
        Some(m[i].1)
    } else {
        obj_lookup_from(m, name, i + 1)
    }
}

/// The value of the first member of `m` named `name`, if any.
pub open spec fn obj_lookup(m: Seq<(Seq<char>, JsonVal)>, name: Seq<char>) -> Option<JsonVal> {
    obj_lookup_from(m, name, 0)
}

/// One direction of symmetry on objects: if the members of `x` each match
/// into `y` and those of `y` each match back into `x`, the same holds with
/// the two objects swapped.
#[verifier::spinoff_prover]
#[verifier::rlimit(60)]
proof fn lemma_obj_eq_flip(a: JsonVal, b: JsonVal)
    requires
        a is Obj,
        b is Obj,
        val_eq(a, b),
    ensures
        val_eq(b, a),
    decreases a, 0int,
{
    let x = a->Obj_0;
    let y = b->Obj_0;
    assert forall|j: int| 0 <= j < y.len() implies obj_member_in(#[trigger] y[j], x) by {
        assert(obj_member_from(x, y[j]));
        let k = choose|k: int|
            0 <= k < x.len() && (#[trigger] x[k]).0 == y[j].0 && val_eq(x[k].1, y[j].1);
        lemma_val_eq_sym(x[k].1, y[j].1);
        assert(x[k].0 == y[j].0 && val_eq(y[j].1, x[k].1));
    }
    assert forall|i: int| 0 <= i < x.len() implies obj_member_from(y, #[trigger] x[i]) by {
        assert(obj_member_in(x[i], y));
        let j = choose|j: int|
            0 <= j < y.len() && (#[trigger] y[j]).0 == x[i].0 && val_eq(x[i].1, y[j].1);
        lemma_val_eq_sym(x[i].1, y[j].1);
        assert(y[j].0 == x[i].0 && val_eq(y[j].1, x[i].1));
    }
    assert(val_eq(b, a));
}

/// Deep equality is symmetric: `a` equals `b` exactly when `b` equals `a`,
/// on any two values.
#[verifier::spinoff_prover]
#[verifier::rlimit(60)]
pub proof fn lemma_val_eq_sym(a: JsonVal, b: JsonVal)
    ensures
        val_eq(a, b) == val_eq(b, a),
    decreases a, 1int,
{
    match (a, b) {
        (JsonVal::Num(x), JsonVal::Num(y)) => {
            crate::num::lemma_dec_eq_sym(x, y);
        },
        (JsonVal::Arr(x), JsonVal::Arr(y)) => {
            if x.len() == y.len() {
                assert forall|i: int| 0 <= i < x.len() implies (val_eq(#[trigger] x[i], y[i])
                    == val_eq(#[trigger] y[i], x[i])) by {
                    lemma_val_eq_sym(x[i], y[i]);
                }
            }
        },
        (JsonVal::Obj(x), JsonVal::Obj(y)) => {
            if val_eq(a, b) {
                lemma_obj_eq_flip(a, b);
            } else if val_eq(b, a) {
                // Flip the roles: matching `b` against `a` element by
                // element stays within the members of `a`.
                assert forall|j: int| 0 <= j < x.len() implies obj_member_in(
                    #[trigger] x[j],
                    y,
                ) by {
                    assert(obj_member_from(y, x[j]));
                    let k = choose|k: int|
                        0 <= k < y.len() && (#[trigger] y[k]).0 == x[j].0 && val_eq(
                            y[k].1,
                            x[j].1,
                        );
                    lemma_val_eq_sym(x[j].1, y[k].1);
                    assert(y[k].0 == x[j].0 && val_eq(x[j].1, y[k].1));
                }
                assert forall|j: int| 0 <= j < y.len() implies obj_member_from(
                    x,
                    #[trigger] y[j],
                ) by {
                    assert(obj_member_in(y[j], x));
                    let k = choose|k: int|
                        0 <= k < x.len() && (#[trigger] x[k]).0 == y[j].0 && val_eq(
                            y[j].1,
                            x[k].1,
                        );
                    lemma_val_eq_sym(x[k].1, y[j].1);
                    assert(x[k].0 == y[j].0 && val_eq(x[k].1, y[j].1));
                }
                assert(val_eq(a, b));
            }
        },
        _ => {},
    }
}

impl JsonValue {
    /// A string value.
    pub fn string(s: &str) -> (v: JsonValue)
        ensures
            v@ == JsonVal::Str(s@),
    {
        JsonValue::Str(s.to_owned())
    }

    /// An integer value.
    pub fn from_int(i: i64) -> (v: JsonValue)
        ensures
            v@ == JsonVal::Num(Decimal { mantissa: i, exp: 0 }),
    {
        JsonValue::Num(Decimal { mantissa: i, exp: 0 })
    }

    /// A structurally equal copy of this value.
    #[verifier::loop_isolation(false)]
    pub fn deep_clone(&self) -> (r: JsonValue)
        ensures
            r@ == self@,
        decreases self,
    {
        match self {
            JsonValue::Null => JsonValue::Null,
            JsonValue::Bool(b) => JsonValue::Bool(*b),
            JsonValue::Num(d) => JsonValue::Num(*d),
            JsonValue::Str(s) => JsonValue::Str(s.clone()),
            JsonValue::Array(a) => {
                let mut out: Vec<JsonValue> = Vec::new();
                let mut i: usize = 0;
                while i < a.len()
                    invariant
                        0 <= i <= a@.len(),
                        out@.len() == i,
                        forall|k: int| 0 <= k < i ==> (#[trigger] out@[k])@ == a@[k]@,
                    decreases a@.len() - i,
                {
                    let e = a[i].deep_clone();
                    out.push(e);
                    i = i + 1;
                }
                proof {
                    lemma_arr_model_len(out@);
                    lemma_arr_model_len(a@);
                    assert forall|k: int| 0 <= k < a@.len() implies arr_model(out@)[k]
                        == arr_model(a@)[k] by {
                        lemma_arr_model_index(out@, k);
                        lemma_arr_model_index(a@, k);
                    }
                    assert(arr_model(out@) =~= arr_model(a@));
                }
                JsonValue::Array(out)
            },
            JsonValue::Object(m) => {
                let mut out: Vec<(String, JsonValue)> = Vec::new();
                let mut i: usize = 0;
                while i < m.len()
                    invariant
                        0 <= i <= m@.len(),
                        out@.len() == i,
                        forall|k: int|
                            0 <= k < i ==> (#[trigger] out@[k]).0@ == m@[k].0@ && out@[k].1@
                                == m@[k].1@,
                    decreases m@.len() - i,
                {
                    let k = m[i].0.clone();
                    let v = m[i].1.deep_clone();
                    out.push((k, v));
                    i = i + 1;
                }
                proof {
                    lemma_obj_model_len(out@);
                    lemma_obj_model_len(m@);
                    assert forall|k: int| 0 <= k < m@.len() implies obj_model(out@)[k]
                        == obj_model(m@)[k] by {
                        lemma_obj_model_index(out@, k);
                        lemma_obj_model_index(m@, k);
                    }
                    assert(obj_model(out@) =~= obj_model(m@));
                }
                JsonValue::Object(out)
            },
        }
    }

    /// Whether this value counts as true in a filter.
    pub fn truthy(&self) -> (r: bool)
        ensures
            r == val_truthy(self@),
    {
        match self {
            JsonValue::Null => false,
            JsonValue::Bool(b) => *b,
            JsonValue::Num(d) => d.mantissa != 0,
            JsonValue::Str(s) => !s.as_str().is_empty(),
            JsonValue::Array(a) => {
                proof {
                    lemma_arr_model_len(a@);
                }
                a.len() > 0
            },
            JsonValue::Object(m) => {
                proof {
                    lemma_obj_model_len(m@);
                }
                m.len() > 0
            },
        }
    }

    /// Deep equality with another value.
    pub fn deep_eq(&self, other: &JsonValue) -> (r: bool)
        ensures
            r == val_eq(self@, other@),
        decreases self, 0int,
    {
        match (self, other) {
            (JsonValue::Null, JsonValue::Null) => { return true; },
            (JsonValue::Bool(x), JsonValue::Bool(y)) => {
                proof {
                    assert(self@ == JsonVal::Bool(*x));
                    assert(other@ == JsonVal::Bool(*y));
                }
                return *x == *y;
            },
            (JsonValue::Num(x), JsonValue::Num(y)) => {
                proof {
                    assert(self@ == JsonVal::Num(*x));
                    assert(other@ == JsonVal::Num(*y));
                }
                return dec_cmp(x, y) == 0;
            },
            (JsonValue::Str(x), JsonValue::Str(y)) => {
                proof {
                    assert(self@ == JsonVal::Str(x@));
                    assert(other@ == JsonVal::Str(y@));
                }
                return x.eq(y);
            },
            (JsonValue::Array(x), JsonValue::Array(y)) => {
                proof {
                    assert(self@ == JsonVal::Arr(arr_model(x@)));
                    assert(other@ == JsonVal::Arr(arr_model(y@)));
                }
                return arr_eq(x, y);
            },
            (JsonValue::Object(x), JsonValue::Object(y)) => {
                proof {
                    assert(self@ == JsonVal::Obj(obj_model(x@)));
                    assert(other@ == JsonVal::Obj(obj_model(y@)));
                }
                return obj_eq(x, y);
            },
            _ => { return false; },
        }
    }

    /// Strict order against another value.
    pub fn deep_lt(&self, other: &JsonValue) -> (r: bool)
        ensures
            r == val_lt(self@, other@),
    {
        match (self, other) {
            (JsonValue::Str(x), JsonValue::Str(y)) => str_lt_exec(x.as_str(), y.as_str()),
            (JsonValue::Num(x), JsonValue::Num(y)) => dec_cmp(x, y) == -1,
            _ => false,
        }
    }

    /// The value of the first member named `name`, if this is an object that
    /// has one.
    #[verifier::loop_isolation(false)]
    pub fn object_get<'a>(&'a self, name: &str) -> (r: Option<&'a JsonValue>)
        ensures
            match r {
                Some(v) => self@ is Obj && obj_lookup(self@->Obj_0, name@) == Some(v@),
                None => self@ is Obj ==> obj_lookup(self@->Obj_0, name@) is None,
            },
    {
        match self {
            JsonValue::Object(m) => {
                let name_owned = name.to_owned();
                proof {
                    lemma_obj_model_len(m@);
                }
                let mut i: usize = 0;
                while i < m.len()
                    invariant
                        0 <= i <= m@.len(),
                        self@ is Obj,
                        self@->Obj_0 == obj_model(m@),
                        obj_model(m@).len() == m@.len(),
                        obj_lookup(obj_model(m@), name@) == obj_lookup_from(
                            obj_model(m@),
                            name@,
                            i as int,
                        ),
                    decreases m@.len() - i,
                {
                    proof {
                        lemma_obj_model_index(m@, i as int);
                    }
                    if m[i].0.eq(&name_owned) {
                        return Some(&m[i].1);
                    }
                    i = i + 1;
                }
                None
            },
            _ => None,
        }
    }
}

/// Whether `m` has a member with key `key` and a value deep-equal to `val`.
#[verifier::loop_isolation(false)]
fn obj_has_entry(m: &Vec<(String, JsonValue)>, key: &String, val: &JsonValue) -> (r: bool)
    ensures
        r == obj_member_in((key@, val@), obj_model(m@)),
    decreases val, 2int,
{
    proof {
        lemma_obj_model_len(m@);
    }
    let mut j: usize = 0;
    while j < m.len()
        invariant
            0 <= j <= m@.len(),
            obj_model(m@).len() == m@.len(),
            forall|k: int|
                0 <= k < j ==> !((#[trigger] obj_model(m@)[k]).0 == key@ && val_eq(
                    val@,
                    obj_model(m@)[k].1,
                )),
        decreases m@.len() - j,
    {
        proof {
            lemma_obj_model_index(m@, j as int);
        }
        if m[j].0.eq(key) {
            if val.deep_eq(&m[j].1) {
                proof {
                    assert(obj_model(m@)[j as int].0 == key@ && val_eq(val@, obj_model(m@)[j as int].1));
                }
                return true;
            }
        }
        j = j + 1;
    }
    false
}

/// Whether `m` has a member with key `key` and a value deep-equal to `val`,
/// with the member's value on the left of the comparison.
#[verifier::loop_isolation(false)]
fn obj_has_entry_rev(m: &Vec<(String, JsonValue)>, key: &String, val: &JsonValue) -> (r: bool)
    ensures
        r == obj_member_from(obj_model(m@), (key@, val@)),
    decreases m, 0int,
{
    proof {
        lemma_obj_model_len(m@);
    }
    let mut j: usize = 0;
    while j < m.len()
        invariant
            0 <= j <= m@.len(),
            obj_model(m@).len() == m@.len(),
            forall|k: int|
                0 <= k < j ==> !((#[trigger] obj_model(m@)[k]).0 == key@ && val_eq(
                    obj_model(m@)[k].1,
                    val@,
                )),
        decreases m@.len() - j,
    {
        proof {
            lemma_obj_model_index(m@, j as int);
        }
        if m[j].0.eq(key) {
            if m[j].1.deep_eq(val) {
                proof {
                    assert(obj_model(m@)[j as int].0 == key@ && val_eq(
                        obj_model(m@)[j as int].1,
                        val@,
                    ));
                }
                return true;
            }
        }
        j = j + 1;
    }
    false
}

/// Element-by-element equality of two arrays.
#[verifier::loop_isolation(false)]
fn arr_eq(x: &Vec<JsonValue>, y: &Vec<JsonValue>) -> (r: bool)
    ensures
        r == val_eq(JsonVal::Arr(arr_model(x@)), JsonVal::Arr(arr_model(y@))),
    decreases x, 1int,
{
    proof {
        lemma_arr_model_len(x@);
        lemma_arr_model_len(y@);
    }
    if x.len() != y.len() {
        return false;
    }
    let mut i: usize = 0;
    while i < x.len()
        invariant
            0 <= i <= x@.len(),
            x@.len() == y@.len(),
            forall|k: int| 0 <= k < i ==> val_eq(#[trigger] arr_model(x@)[k], arr_model(y@)[k]),
        decreases x@.len() - i,
    {
        proof {
            lemma_arr_model_index(x@, i as int);
            lemma_arr_model_index(y@, i as int);
        }
        if !x[i].deep_eq(&y[i]) {
            return false;
        }
        i = i + 1;
    }
    true
}

/// Key-by-key equality of two objects, regardless of member order.
#[verifier::loop_isolation(false)]
fn obj_eq(x: &Vec<(String, JsonValue)>, y: &Vec<(String, JsonValue)>) -> (r: bool)
    ensures
        r == val_eq(JsonVal::Obj(obj_model(x@)), JsonVal::Obj(obj_model(y@))),
    decreases x, 1int,
{
    proof {
        lemma_obj_model_len(x@);
        lemma_obj_model_len(y@);
    }
    if x.len() != y.len() {
        return false;
    }
    let mut i: usize = 0;
    while i < x.len()
        invariant
            0 <= i <= x@.len(),
            x@.len() == y@.len(),
            forall|k: int| 0 <= k < i ==> obj_member_in(#[trigger] obj_model(x@)[k], obj_model(y@)),
        decreases x@.len() - i,
    {
        proof {
            lemma_obj_model_index(x@, i as int);
        }
        if !obj_has_entry(y, &x[i].0, &x[i].1) {
            return false;
        }
        i = i + 1;
    }
    let ghost xm = obj_model(x@);
    let ghost ym = obj_model(y@);
    let mut j: usize = 0;
    while j < y.len()
        invariant
            0 <= j <= y@.len(),
            x@.len() == y@.len(),
            forall|k: int| 0 <= k < x@.len() ==> obj_member_in(#[trigger] xm[k], ym),
            forall|l: int| 0 <= l < j ==> obj_member_from(xm, #[trigger] ym[l]),
        decreases y@.len() - j,
    {
        proof {
            lemma_obj_model_index(y@, j as int);
        }
        if !obj_has_entry_rev(x, &y[j].0, &y[j].1) {
            proof {
                assert(ym[j as int].0 == y@[j as int].0@ && ym[j as int].1 == model(
                    y@[j as int].1,
                ));
                assert(!val_eq(JsonVal::Obj(xm), JsonVal::Obj(ym)));
            }
            return false;
        }
        j = j + 1;
    }
    proof {
        assert(xm.len() == ym.len());
        assert(forall|k: int| 0 <= k < xm.len() ==> obj_member_in(#[trigger] xm[k], ym));
        assert(forall|l: int| 0 <= l < ym.len() ==> obj_member_from(xm, #[trigger] ym[l]));
        assert(val_eq(JsonVal::Obj(xm), JsonVal::Obj(ym)));
    }
    true
}

} // verus!
