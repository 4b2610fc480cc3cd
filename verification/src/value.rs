//! The six-kind value abstraction, conversion to shapes, and the
//! inference driver that folds many samples into one shape.

use crate::shape::{
    fields_view, key_lt, lemma_fields_view, lemma_key_lt_asym, lemma_key_lt_irrefl,
    spec_unify, Shape, SpecShape,
};
use vstd::prelude::*;

verus! {

/// Mathematical model of a sample value: strings as character sequences,
/// arrays as sequences, objects as association sequences in sample order.
#[verifier::ext_equal]
pub enum SpecValue {
    Null,
    Bool(bool),
    Number(i64),
    String(Seq<char>),
    Array(Seq<SpecValue>),
    Object(Seq<(Seq<char>, SpecValue)>),
}

/// A semi-structured sample value with exactly six kinds: null, boolean,
/// number, string, ordered sequence, and mapping from string keys to
/// values. Any parser producing this abstraction can feed the inference
/// engine. The inference engine inspects only kinds and structure, never
/// payloads, so a host whose numbers do not fit an `i64` may supply any
/// stand-in payload without affecting the inferred shape.
#[derive(Debug)]
pub enum Value {
    Null,
    Bool(bool),
    Number(i64),
    String(String),
    Array(Vec<Value>),
    Object(Vec<(String, Value)>),
}

/// The model of a list of sample values.
pub open spec fn elems_view(elems: Seq<Value>) -> Seq<SpecValue>
    decreases elems,
{
    if elems.len() == 0 {
        Seq::empty()
    } else {
        seq![value_model(&elems[0])] + elems_view(elems.drop_first())
    }
}

/// The model of an object's key/value pair list.
pub open spec fn pairs_view(pairs: Seq<(String, Value)>) -> Seq<(Seq<char>, SpecValue)>
    decreases pairs,
{
    if pairs.len() == 0 {
        Seq::empty()
    } else {
        seq![(pairs[0].0@, value_model(&pairs[0].1))] + pairs_view(pairs.drop_first())
    }
}

/// The model of a sample value: its value as seen by specifications.
pub open spec fn value_model(v: &Value) -> SpecValue
    decreases v,
{
    match v {
        Value::Null => SpecValue::Null,
        Value::Bool(b) => SpecValue::Bool(*b),
        Value::Number(n) => SpecValue::Number(*n),
        Value::String(s) => SpecValue::String(s@),
        Value::Array(elems) => SpecValue::Array(elems_view(elems@)),
        Value::Object(pairs) => SpecValue::Object(pairs_view(pairs@)),
    }
}

impl View for Value {
    type V = SpecValue;

    open spec fn view(&self) -> SpecValue {
        value_model(self)
    }
}

/// An element list and its model have the same length, and the model
/// holds the view of each element at the same position.
pub broadcast proof fn lemma_elems_view(elems: Seq<Value>)
    ensures
        (#[trigger] elems_view(elems)).len() == elems.len(),
        forall|i: int| 0 <= i < elems.len() ==> #[trigger] elems_view(elems)[i] == elems[i]@,
    decreases elems,
{
    if elems.len() > 0 {
        lemma_elems_view(elems.drop_first());
        assert forall|i: int|
            0 <= i < elems.len() implies #[trigger] elems_view(elems)[i] == elems[i]@ by {
            if i > 0 {
                assert(elems_view(elems)[i] == elems_view(elems.drop_first())[i - 1]);
                assert(elems.drop_first()[i - 1] == elems[i]);
            }
        }
    }
}

/// A pair list and its model have the same length, and the model holds
/// the view of each key and value at the same position.
pub broadcast proof fn lemma_pairs_view(pairs: Seq<(String, Value)>)
    ensures
        (#[trigger] pairs_view(pairs)).len() == pairs.len(),
        forall|i: int|
            0 <= i < pairs.len() ==> #[trigger] pairs_view(pairs)[i] == (
                pairs[i].0@,
                pairs[i].1@,
            ),
    decreases pairs,
{
    if pairs.len() > 0 {
        lemma_pairs_view(pairs.drop_first());
        assert forall|i: int|
            0 <= i < pairs.len() implies #[trigger] pairs_view(pairs)[i] == (
            pairs[i].0@,
            pairs[i].1@,
        ) by {
            if i > 0 {
                assert(pairs_view(pairs)[i] == pairs_view(pairs.drop_first())[i - 1]);
                assert(pairs.drop_first()[i - 1] == pairs[i]);
            }
        }
    }
}

/// Inserts a binding into a key-ordered field list, keeping the order.
/// A binding for a key already present replaces the old one, so a key
/// repeated in one sample keeps its last value, as a mapping would.
pub open spec fn spec_insert_field(
    fields: Seq<(Seq<char>, SpecShape)>,
    key: Seq<char>,
    shape: SpecShape,
) -> Seq<(Seq<char>, SpecShape)>
    decreases fields.len(),
{
    if fields.len() == 0 {
        seq![(key, shape)]
    } else if key_lt(key, fields[0].0) {
        seq![(key, shape)] + fields
    } else if key_lt(fields[0].0, key) {
        seq![fields[0]] + spec_insert_field(fields.drop_first(), key, shape)
    } else {
        seq![(key, shape)] + fields.drop_first()
    }
}

/// The most specific shape describing exactly one sample value: leaves map
/// to their ground kinds, an array maps to `Array` of the fold of its
/// element shapes, and an object maps each key to the shape of its value.
/// No `Optional` and no `Union` is introduced at this stage except inside
/// heterogeneous arrays.
pub open spec fn spec_shape_of(v: SpecValue) -> SpecShape
    decreases v,
{
    match v {
        SpecValue::Null => SpecShape::Null,
        SpecValue::Bool(_) => SpecShape::Bool,
        SpecValue::Number(_) => SpecShape::Number,
        SpecValue::String(_) => SpecShape::String,
        SpecValue::Array(elems) => SpecShape::Array(Box::new(spec_infer(elems))),
        SpecValue::Object(pairs) => SpecShape::Object(spec_object_fields(pairs)),
    }
}

/// The field list an object sample converts to: each pair's value shape,
/// inserted in key order, later bindings of a repeated key replacing
/// earlier ones.
pub open spec fn spec_object_fields(
    pairs: Seq<(Seq<char>, SpecValue)>,
) -> Seq<(Seq<char>, SpecShape)>
    decreases pairs,
{
    if pairs.len() == 0 {
        Seq::empty()
    } else {
        spec_insert_field(
            spec_object_fields(pairs.drop_last()),
            pairs.last().0,
            spec_shape_of(pairs.last().1),
        )
    }
}

/// The shape inferred from a sequence of samples: the accumulator starts
/// at `Unknown` and the shape of each sample in turn is unified into it.
/// An empty sequence yields `Unknown`.
pub open spec fn spec_infer(values: Seq<SpecValue>) -> SpecShape
    decreases values,
{
    if values.len() == 0 {
        SpecShape::Unknown
    } else {
        spec_unify(spec_infer(values.drop_last()), spec_shape_of(values.last()))
    }
}

/// Where a binding lands when it is inserted into a key-ordered field
/// list: just before the first position whose key is not smaller than the
/// new key, replacing the binding there when the keys are equal.
proof fn lemma_insert_field_at(
    fields: Seq<(Seq<char>, SpecShape)>,
    key: Seq<char>,
    shape: SpecShape,
    i: int,
)
    requires
        0 <= i <= fields.len(),
        forall|m: int| 0 <= m < i ==> key_lt((#[trigger] fields[m]).0, key),
        i < fields.len() ==> !key_lt(fields[i].0, key),
    ensures
        i < fields.len() && fields[i].0 == key ==> spec_insert_field(fields, key, shape)
            == fields.take(i) + seq![(key, shape)] + fields.skip(i + 1),
        i == fields.len() || key_lt(key, fields[i].0) ==> spec_insert_field(fields, key, shape)
            == fields.take(i) + seq![(key, shape)] + fields.skip(i),
    decreases i,
{
    if i == 0 {
        if fields.len() == 0 {
            assert(spec_insert_field(fields, key, shape) =~= fields.take(0) + seq![(key, shape)]
                + fields.skip(0));
        } else if key_lt(key, fields[0].0) {
            assert(spec_insert_field(fields, key, shape) =~= fields.take(0) + seq![(key, shape)]
                + fields.skip(0));
        } else {
            crate::shape::lemma_key_lt_connected(key, fields[0].0);
            assert(fields[0].0 == key);
            assert(spec_insert_field(fields, key, shape) =~= fields.take(0) + seq![(key, shape)]
                + fields.skip(1));
        }
    } else {
        assert(key_lt(fields[0].0, key));
        lemma_key_lt_asym(fields[0].0, key);
        let rest = fields.drop_first();
        assert(forall|m: int| 0 <= m < i - 1 ==> key_lt((#[trigger] rest[m]).0, key));
        lemma_insert_field_at(rest, key, shape, i - 1);
        if i < fields.len() && fields[i].0 == key {
            assert(rest[i - 1].0 == key);
            assert(spec_insert_field(fields, key, shape) =~= fields.take(i) + seq![(key, shape)]
                + fields.skip(i + 1)) by {
                assert(spec_insert_field(fields, key, shape) == seq![fields[0]]
                    + spec_insert_field(rest, key, shape));
                assert(spec_insert_field(rest, key, shape) == rest.take(i - 1) + seq![
                    (key, shape),
                ] + rest.skip(i));
            }
        }
        if i == fields.len() || key_lt(key, fields[i].0) {
            assert(i - 1 == rest.len() || key_lt(key, rest[i - 1].0));
            assert(spec_insert_field(fields, key, shape) =~= fields.take(i) + seq![(key, shape)]
                + fields.skip(i)) by {
                assert(spec_insert_field(fields, key, shape) == seq![fields[0]]
                    + spec_insert_field(rest, key, shape));
                assert(spec_insert_field(rest, key, shape) == rest.take(i - 1) + seq![
                    (key, shape),
                ] + rest.skip(i - 1));
            }
        }
    }
}

/// Inserts a binding into a key-ordered field list, as
/// [`spec_insert_field`] describes.
#[verifier::loop_isolation(false)]
fn insert_field(fields: &mut Vec<(String, Shape)>, key: String, shape: Shape)
    ensures
        fields_view(final(fields)@) == spec_insert_field(
            fields_view(old(fields)@),
            key@,
            shape@,
        ),
{
    broadcast use lemma_fields_view;

    let ghost fv = fields_view(fields@);
    let n = fields.len();
    let mut i: usize = 0;
    let mut searching = true;
    let mut replace = false;
    while searching
        invariant
            0 <= i <= n,
            n == fields@.len(),
            fields@ == old(fields)@,
            forall|m: int| 0 <= m < i ==> key_lt((#[trigger] fields@[m]).0@, key@),
            searching ==> !replace,
            !searching ==> i == n || !key_lt(fields@[i as int].0@, key@),
            !searching ==> (replace <==> i < n && fields@[i as int].0@ == key@),
            !searching && i < n && !replace ==> key_lt(key@, fields@[i as int].0@),
        decreases n - i + (if searching { 1int } else { 0int }),
    {
        if i >= n {
            searching = false;
        } else {
            let c = crate::shape::key_cmp(fields[i].0.as_str(), key.as_str());
            if c == -1 {
                i = i + 1;
            } else if c == 0 {
                proof {
                    lemma_key_lt_irrefl(key@);
                }
                replace = true;
                searching = false;
            } else {
                proof {
                    lemma_key_lt_asym(key@, fields@[i as int].0@);
                }
                searching = false;
            }
        }
    }
    proof {
        lemma_insert_field_at(fv, key@, shape@, i as int);
    }
    if replace {
        fields.set(i, (key, shape));
        proof {
            assert(fields_view(fields@) =~= fv.take(i as int) + seq![(key@, shape@)] + fv.skip(
                i as int + 1,
            ));
        }
    } else if i < n {
        fields.insert(i, (key, shape));
        proof {
            assert(fields_view(fields@) =~= fv.take(i as int) + seq![(key@, shape@)] + fv.skip(
                i as int,
            ));
        }
    } else {
        fields.push((key, shape));
        proof {
            assert(fv.skip(i as int) =~= Seq::<(Seq<char>, SpecShape)>::empty());
            assert(fields_view(fields@) =~= fv.take(i as int) + seq![(key@, shape@)] + fv.skip(
                i as int,
            ));
        }
    }
}

/// Converts one sample value to the most specific shape describing
/// exactly it, as [`spec_shape_of`] describes. Total: every value of the
/// six-kind abstraction is valid input.
#[verifier::loop_isolation(false)]
pub fn shape_of(v: &Value) -> (r: Shape)
    ensures
        r@ == spec_shape_of(v@),
    decreases v,
{
    broadcast use {lemma_elems_view, lemma_pairs_view, lemma_fields_view};

    match v {
        Value::Null => Shape::Null,
        Value::Bool(_) => Shape::Bool,
        Value::Number(_) => Shape::Number,
        Value::String(_) => Shape::String,
        Value::Array(elems) => {
            let ghost ev = elems_view(elems@);
            let n = elems.len();
            let mut acc = Shape::Unknown;
            let mut i: usize = 0;
            proof {
                assert(ev.take(0) =~= Seq::<SpecValue>::empty());
            }
            while i < n
                invariant
                    0 <= i <= n,
                    n == elems@.len(),
                    acc@ == spec_infer(ev.take(i as int)),
                decreases n - i,
            {
                proof {
                    assert(decreases_to!(*v => *elems));
                    assert(decreases_to!(*elems => elems@));
                    assert(decreases_to!(elems@ => elems@[i as int]));
                }
                let s = shape_of(&elems[i]);
                acc = acc.unify(&s);
                proof {
                    assert(ev.take(i as int + 1).drop_last() =~= ev.take(i as int));
                    assert(ev.take(i as int + 1).last() == ev[i as int]);
                }
                i = i + 1;
            }
            proof {
                assert(ev.take(n as int) =~= ev);
            }
            Shape::Array(Box::new(acc))
        },
        Value::Object(pairs) => {
            let ghost pv = pairs_view(pairs@);
            let n = pairs.len();
            let mut out: Vec<(String, Shape)> = Vec::new();
            let mut i: usize = 0;
            proof {
                assert(pv.take(0) =~= Seq::<(Seq<char>, SpecValue)>::empty());
                assert(fields_view(out@) =~= Seq::<(Seq<char>, SpecShape)>::empty());
            }
            while i < n
                invariant
                    0 <= i <= n,
                    n == pairs@.len(),
                    fields_view(out@) == spec_object_fields(pv.take(i as int)),
                decreases n - i,
            {
                proof {
                    assert(decreases_to!(*v => *pairs));
                    assert(decreases_to!(*pairs => pairs@));
                    assert(decreases_to!(pairs@ => pairs@[i as int]));
                    assert(decreases_to!(pairs@[i as int] => pairs@[i as int].1));
                }
                let s = shape_of(&pairs[i].1);
                let key = pairs[i].0.clone();
                insert_field(&mut out, key, s);
                proof {
                    assert(pv.take(i as int + 1).drop_last() =~= pv.take(i as int));
                    assert(pv.take(i as int + 1).last() == pv[i as int]);
                }
                i = i + 1;
            }
            proof {
                assert(pv.take(n as int) =~= pv);
            }
            Shape::Object(out)
        },
    }
}

/// The inference driver: folds a sequence of sample values into a single
/// shape, starting from `Unknown` and unifying the shape of each value in
/// turn into the accumulator, as [`spec_infer`] describes. An empty
/// sequence yields `Unknown`.
#[verifier::loop_isolation(false)]
pub fn infer(values: &Vec<Value>) -> (r: Shape)
    ensures
        r@ == spec_infer(elems_view(values@)),
{
    broadcast use lemma_elems_view;

    let ghost ev = elems_view(values@);
    let n = values.len();
    let mut acc = Shape::Unknown;
    let mut i: usize = 0;
    proof {
        assert(ev.take(0) =~= Seq::<SpecValue>::empty());
    }
    while i < n
        invariant
            0 <= i <= n,
            n == values@.len(),
            acc@ == spec_infer(ev.take(i as int)),
        decreases n - i,
    {
        let s = shape_of(&values[i]);
        acc = acc.unify(&s);
        proof {
            assert(ev.take(i as int + 1).drop_last() =~= ev.take(i as int));
            assert(ev.take(i as int + 1).last() == ev[i as int]);
        }
        i = i + 1;
    }
    proof {
        assert(ev.take(n as int) =~= ev);
    }
    acc
}

} // verus!
