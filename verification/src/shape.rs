//! The shape lattice: structural type descriptions and their join.

use vstd::prelude::*;

verus! {

/// Mathematical model of a shape: the value of a [`Shape`] as seen by
/// specifications. Strings appear as sequences of characters, vectors as
/// sequences, and object fields as an association sequence ordered by key.
#[verifier::ext_equal]
pub enum SpecShape {
    Unknown,
    Null,
    Number,
    Bool,
    String,
    Optional(Box<SpecShape>),
    Union(Seq<SpecShape>),
    Array(Box<SpecShape>),
    Object(Seq<(Seq<char>, SpecShape)>),
}

/// Strict lexicographic order on byte sequences: `a` comes before `b` when,
/// at the first position where they differ, `a` has the smaller byte, or
/// when `a` is a proper prefix of `b`.
pub open spec fn bytes_lt(a: Seq<u8>, b: Seq<u8>) -> bool
    decreases a.len(),
{
    if b.len() == 0 {
        false
    } else if a.len() == 0 {
        true
    } else if a[0] != b[0] {
        a[0] < b[0]
    } else {
        bytes_lt(a.drop_first(), b.drop_first())
    }
}

/// Strict order on object keys: lexicographic order of their UTF-8 encodings.
pub open spec fn key_lt(a: Seq<char>, b: Seq<char>) -> bool {
    bytes_lt(vstd::utf8::encode_utf8(a), vstd::utf8::encode_utf8(b))
}

/// Well-formedness of a shape model, maintained by every operation of this
/// module: union member lists are flat (no member is itself a union) and
/// free of structural duplicates, and object field lists are strictly
/// ordered by key, which also makes keys unique.
pub open spec fn wf(s: SpecShape) -> bool
    decreases s,
{
    match s {
        SpecShape::Unknown => true,
        SpecShape::Null => true,
        SpecShape::Number => true,
        SpecShape::Bool => true,
        SpecShape::String => true,
        SpecShape::Optional(inner) => wf(*inner),
        SpecShape::Array(inner) => wf(*inner),
        SpecShape::Union(members) => {
            &&& forall|i: int| 0 <= i < members.len() ==> wf(#[trigger] members[i])
            &&& forall|i: int| 0 <= i < members.len() ==> !((#[trigger] members[i]) is Union)
            &&& forall|i: int, j: int|
                0 <= i < j < members.len() ==> members[i] != members[j]
        },
        SpecShape::Object(fields) => {
            &&& forall|i: int| 0 <= i < fields.len() ==> wf((#[trigger] fields[i]).1)
            &&& forall|i: int, j: int|
                0 <= i < j < fields.len() ==> key_lt(fields[i].0, fields[j].0)
        },
    }
}

/// Wraps a shape in `Optional`, except that an already-optional shape is
/// left as it is: optionality is never nested.
pub open spec fn opt_wrap(s: SpecShape) -> SpecShape {
    if s is Optional {
        s
    } else {
        SpecShape::Optional(Box::new(s))
    }
}

/// The member list a shape contributes when it is folded into a union: a
/// union hands over its members, any other shape stands for itself.
pub open spec fn union_members_of(s: SpecShape) -> Seq<SpecShape> {
    match s {
        SpecShape::Union(members) => members,
        _ => seq![s],
    }
}

/// Removes structural duplicates from a member list, keeping the first
/// occurrence of each member and the order of first occurrences.
pub open spec fn dedup(s: Seq<SpecShape>) -> Seq<SpecShape>
    decreases s.len(),
{
    if s.len() == 0 {
        Seq::empty()
    } else {
        let rest = dedup(s.drop_last());
        if rest.contains(s.last()) {
            rest
        } else {
            rest.push(s.last())
        }
    }
}

/// Wraps every field of an object side that has no counterpart on the other
/// side: each shape becomes optional (without nesting optionality).
pub open spec fn fields_opt(fields: Seq<(Seq<char>, SpecShape)>) -> Seq<(Seq<char>, SpecShape)>
    decreases fields.len(),
{
    if fields.len() == 0 {
        Seq::empty()
    } else {
        seq![(fields[0].0, opt_wrap(fields[0].1))] + fields_opt(fields.drop_first())
    }
}

/// Merges two object field lists, both ordered by key. A key present on
/// both sides maps to the join of the two field shapes; a key present on
/// one side only maps to that side's shape wrapped in `Optional`. The
/// result is again ordered by key.
pub open spec fn spec_merge_fields(
    f: Seq<(Seq<char>, SpecShape)>,
    g: Seq<(Seq<char>, SpecShape)>,
) -> Seq<(Seq<char>, SpecShape)>
    decreases f, g,
{
    if f.len() == 0 {
        fields_opt(g)
    } else if g.len() == 0 {
        fields_opt(f)
    } else if key_lt(f[0].0, g[0].0) {
        seq![(f[0].0, opt_wrap(f[0].1))] + spec_merge_fields(f.drop_first(), g)
    } else if key_lt(g[0].0, f[0].0) {
        seq![(g[0].0, opt_wrap(g[0].1))] + spec_merge_fields(f, g.drop_first())
    } else {
        seq![(f[0].0, spec_unify(f[0].1, g[0].1))] + spec_merge_fields(
            f.drop_first(),
            g.drop_first(),
        )
    }
}

/// The join of two shapes: the least general shape that covers every value
/// covered by either operand. The rules apply in priority order: `Unknown`
/// is the identity; equal ground kinds join to themselves; arrays join
/// elementwise and objects fieldwise; two optionals join inside the
/// wrapper; everything else folds into a union, flattening union operands
/// and dropping structural duplicates while keeping first-seen order.
pub open spec fn spec_unify(a: SpecShape, b: SpecShape) -> SpecShape
    decreases a, b,
{
    match (a, b) {
        (SpecShape::Unknown, _) => b,
        (_, SpecShape::Unknown) => a,
        (SpecShape::Null, SpecShape::Null) => SpecShape::Null,
        (SpecShape::Number, SpecShape::Number) => SpecShape::Number,
        (SpecShape::Bool, SpecShape::Bool) => SpecShape::Bool,
        (SpecShape::String, SpecShape::String) => SpecShape::String,
        (SpecShape::Array(x), SpecShape::Array(y)) => SpecShape::Array(
            Box::new(spec_unify(*x, *y)),
        ),
        (SpecShape::Object(f), SpecShape::Object(g)) => SpecShape::Object(
            spec_merge_fields(f, g),
        ),
        (SpecShape::Optional(x), SpecShape::Optional(y)) => SpecShape::Optional(
            Box::new(spec_unify(*x, *y)),
        ),
        _ => SpecShape::Union(dedup(union_members_of(a) + union_members_of(b))),
    }
}

/// A structural type description covering one or more observed sample
/// values. `Unknown` is the bottom of the lattice ("nothing observed yet");
/// the ground kinds describe leaf values; `Optional`, `Union`, `Array` and
/// `Object` describe compound structure. Object fields are kept ordered by
/// key (in UTF-8 byte order) with no duplicate keys, so that two objects
/// describing the same mapping are structurally equal.
#[derive(Debug)]
pub enum Shape {
    Unknown,
    Null,
    Number,
    Bool,
    String,
    Optional(Box<Shape>),
    Union(Vec<Shape>),
    Array(Box<Shape>),
    Object(Vec<(String, Shape)>),
}

/// The model of a shape: its value as seen by specifications.
pub open spec fn shape_model(s: &Shape) -> SpecShape
    decreases s,
{
    match s {
        Shape::Unknown => SpecShape::Unknown,
        Shape::Null => SpecShape::Null,
        Shape::Number => SpecShape::Number,
        Shape::Bool => SpecShape::Bool,
        Shape::String => SpecShape::String,
        Shape::Optional(inner) => SpecShape::Optional(Box::new(shape_model(&**inner))),
        Shape::Union(members) => SpecShape::Union(members_view(members@)),
        Shape::Array(inner) => SpecShape::Array(Box::new(shape_model(&**inner))),
        Shape::Object(fields) => SpecShape::Object(fields_view(fields@)),
    }
}

/// The model of an object field list: each key as its character sequence,
/// each shape as its model.
pub open spec fn fields_view(fields: Seq<(String, Shape)>) -> Seq<(Seq<char>, SpecShape)>
    decreases fields,
{
    if fields.len() == 0 {
        Seq::empty()
    } else {
        seq![(fields[0].0@, shape_model(&fields[0].1))] + fields_view(fields.drop_first())
    }
}

/// The model of a union member list: each member as its model.
pub open spec fn members_view(members: Seq<Shape>) -> Seq<SpecShape>
    decreases members,
{
    if members.len() == 0 {
        Seq::empty()
    } else {
        seq![shape_model(&members[0])] + members_view(members.drop_first())
    }
}

impl View for Shape {
    type V = SpecShape;

    open spec fn view(&self) -> SpecShape {
        shape_model(self)
    }
}

/// A field list and its model have the same length, and the model holds
/// the view of each key and shape at the same position.
pub broadcast proof fn lemma_fields_view(fields: Seq<(String, Shape)>)
    ensures
        (#[trigger] fields_view(fields)).len() == fields.len(),
        forall|i: int|
            0 <= i < fields.len() ==> #[trigger] fields_view(fields)[i] == (
                fields[i].0@,
                fields[i].1@,
            ),
    decreases fields,
{
    if fields.len() > 0 {
        lemma_fields_view(fields.drop_first());
        assert forall|i: int|
            0 <= i < fields.len() implies #[trigger] fields_view(fields)[i] == (
            fields[i].0@,
            fields[i].1@,
        ) by {
            if i > 0 {
                assert(fields_view(fields)[i] == fields_view(fields.drop_first())[i - 1]);
                assert(fields.drop_first()[i - 1] == fields[i]);
            }
        }
    }
}

/// A member list and its model have the same length, and the model holds
/// the view of each member at the same position.
pub broadcast proof fn lemma_members_view(members: Seq<Shape>)
    ensures
        (#[trigger] members_view(members)).len() == members.len(),
        forall|i: int|
            0 <= i < members.len() ==> #[trigger] members_view(members)[i] == members[i]@,
    decreases members,
{
    if members.len() > 0 {
        lemma_members_view(members.drop_first());
        assert forall|i: int|
            0 <= i < members.len() implies #[trigger] members_view(members)[i]
            == members[i]@ by {
            if i > 0 {
                assert(members_view(members)[i] == members_view(members.drop_first())[i - 1]);
                assert(members.drop_first()[i - 1] == members[i]);
            }
        }
    }
}

/// The byte order never holds a sequence before itself.
pub proof fn lemma_bytes_lt_irrefl(a: Seq<u8>)
    ensures
        !bytes_lt(a, a),
    decreases a.len(),
{
    if a.len() > 0 {
        lemma_bytes_lt_irrefl(a.drop_first());
    }
}

/// The byte order holds two sequences in at most one direction, and never
/// holds between equal sequences.
pub proof fn lemma_bytes_lt_asym(a: Seq<u8>, b: Seq<u8>)
    requires
        bytes_lt(a, b),
    ensures
        !bytes_lt(b, a),
        a != b,
    decreases a.len(),
{
    if a.len() > 0 && b.len() > 0 && a[0] == b[0] {
        lemma_bytes_lt_asym(a.drop_first(), b.drop_first());
        assert(a != b) by {
            assert(a.drop_first() != b.drop_first());
        }
    }
}

/// Two byte sequences that the order holds in neither direction are equal.
pub proof fn lemma_bytes_lt_connected(a: Seq<u8>, b: Seq<u8>)
    requires
        !bytes_lt(a, b),
        !bytes_lt(b, a),
    ensures
        a == b,
    decreases a.len(),
{
    if a.len() == 0 {
        assert(a =~= b);
    } else {
        lemma_bytes_lt_connected(a.drop_first(), b.drop_first());
        assert(a.len() == b.len());
        assert forall|i: int| 0 <= i < a.len() implies a[i] == b[i] by {
            if i > 0 {
                assert(a[i] == a.drop_first()[i - 1]);
                assert(b[i] == b.drop_first()[i - 1]);
            }
        }
        assert(a =~= b);
    }
}

/// The byte order is transitive.
pub proof fn lemma_bytes_lt_trans(a: Seq<u8>, b: Seq<u8>, c: Seq<u8>)
    requires
        bytes_lt(a, b),
        bytes_lt(b, c),
    ensures
        bytes_lt(a, c),
    decreases a.len(),
{
    if a.len() > 0 && b.len() > 0 && c.len() > 0 && a[0] == b[0] && b[0] == c[0] {
        lemma_bytes_lt_trans(a.drop_first(), b.drop_first(), c.drop_first());
    }
}

/// A sequence that shares its first `i` bytes with another and then either
/// ends or carries the smaller byte comes first in the byte order.
proof fn lemma_bytes_lt_at(a: Seq<u8>, b: Seq<u8>, i: int)
    requires
        0 <= i <= a.len(),
        i <= b.len(),
        forall|k: int| 0 <= k < i ==> a[k] == b[k],
        i == a.len() ==> i < b.len(),
        i < a.len() ==> i < b.len() && a[i] < b[i],
    ensures
        bytes_lt(a, b),
    decreases i,
{
    if i > 0 {
        lemma_bytes_lt_at(a.drop_first(), b.drop_first(), i - 1);
    }
}

/// Keys whose UTF-8 encodings are equal are the same key.
pub proof fn lemma_key_encoding_injective(a: Seq<char>, b: Seq<char>)
    requires
        vstd::utf8::encode_utf8(a) == vstd::utf8::encode_utf8(b),
    ensures
        a == b,
{
    vstd::utf8::encode_utf8_decode_utf8(a);
    vstd::utf8::encode_utf8_decode_utf8(b);
}

/// The key order never holds a key before itself.
pub proof fn lemma_key_lt_irrefl(a: Seq<char>)
    ensures
        !key_lt(a, a),
{
    lemma_bytes_lt_irrefl(vstd::utf8::encode_utf8(a));
}

/// The key order holds two keys in at most one direction, and never holds
/// between equal keys.
pub proof fn lemma_key_lt_asym(a: Seq<char>, b: Seq<char>)
    requires
        key_lt(a, b),
    ensures
        !key_lt(b, a),
        a != b,
{
    lemma_bytes_lt_asym(vstd::utf8::encode_utf8(a), vstd::utf8::encode_utf8(b));
    if a == b {
        lemma_bytes_lt_irrefl(vstd::utf8::encode_utf8(a));
    }
}

/// Two keys that the order holds in neither direction are equal.
pub proof fn lemma_key_lt_connected(a: Seq<char>, b: Seq<char>)
    requires
        !key_lt(a, b),
        !key_lt(b, a),
    ensures
        a == b,
{
    lemma_bytes_lt_connected(vstd::utf8::encode_utf8(a), vstd::utf8::encode_utf8(b));
    lemma_key_encoding_injective(a, b);
}

/// The key order is transitive.
pub proof fn lemma_key_lt_trans(a: Seq<char>, b: Seq<char>, c: Seq<char>)
    requires
        key_lt(a, b),
        key_lt(b, c),
    ensures
        key_lt(a, c),
{
    lemma_bytes_lt_trans(
        vstd::utf8::encode_utf8(a),
        vstd::utf8::encode_utf8(b),
        vstd::utf8::encode_utf8(c),
    );
}

/// Three-way comparison of two keys in the key order: `-1`, `0` or `1` as
/// `a` comes before, equals, or comes after `b`.
pub(crate) fn key_cmp(a: &str, b: &str) -> (r: i8)
    ensures
        r == -1i8 || r == 0i8 || r == 1i8,
        r == -1i8 ==> key_lt(a@, b@),
        r == 0i8 ==> a@ == b@,
        r == 1i8 ==> key_lt(b@, a@),
{
    let abytes = a.as_bytes();
    let bbytes = b.as_bytes();
    let alen = abytes.len();
    let blen = bbytes.len();
    let mut i: usize = 0;
    while i < alen && i < blen
        invariant
            0 <= i <= alen,
            i <= blen,
            alen == abytes@.len(),
            blen == bbytes@.len(),
            abytes@ == vstd::utf8::encode_utf8(a@),
            bbytes@ == vstd::utf8::encode_utf8(b@),
            forall|k: int| 0 <= k < i ==> abytes@[k] == bbytes@[k],
        decreases alen - i,
    {
        let x = abytes[i];
        let y = bbytes[i];
        if x < y {
            proof {
                lemma_bytes_lt_at(abytes@, bbytes@, i as int);
            }
            return -1;
        }
        if y < x {
            proof {
                lemma_bytes_lt_at(bbytes@, abytes@, i as int);
            }
            return 1;
        }
        i = i + 1;
    }
    if alen < blen {
        proof {
            lemma_bytes_lt_at(abytes@, bbytes@, i as int);
        }
        -1
    } else if blen < alen {
        proof {
            lemma_bytes_lt_at(bbytes@, abytes@, i as int);
        }
        1
    } else {
        proof {
            assert(abytes@ =~= bbytes@);
            lemma_key_encoding_injective(a@, b@);
        }
        0
    }
}

impl Shape {
    /// Moves the shape to the heap; convenient when building compound shapes.
    pub fn boxed(self) -> (r: Box<Self>)
        ensures
            *r == self,
    {
        Box::new(self)
    }

    /// Builds a structurally identical copy of the shape.
    #[verifier::loop_isolation(false)]
    fn deep_copy(&self) -> (r: Shape)
        ensures
            r@ == self@,
        decreases self,
    {
        broadcast use {lemma_fields_view, lemma_members_view};

        match self {
            Shape::Unknown => Shape::Unknown,
            Shape::Null => Shape::Null,
            Shape::Number => Shape::Number,
            Shape::Bool => Shape::Bool,
            Shape::String => Shape::String,
            Shape::Optional(inner) => Shape::Optional(Box::new(inner.deep_copy())),
            Shape::Array(inner) => Shape::Array(Box::new(inner.deep_copy())),
            Shape::Union(members) => {
                let n = members.len();
                let mut out: Vec<Shape> = Vec::new();
                let mut i: usize = 0;
                while i < n
                    invariant
                        0 <= i <= n,
                        n == members@.len(),
                        out@.len() == i,
                        forall|k: int| 0 <= k < i ==> (#[trigger] out@[k])@ == members@[k]@,
                    decreases n - i,
                {
                    let copied = members[i].deep_copy();
                    out.push(copied);
                    i = i + 1;
                }
                proof {
                    assert(members_view(out@) =~= members_view(members@));
                }
                Shape::Union(out)
            },
            Shape::Object(fields) => {
                let n = fields.len();
                let mut out: Vec<(String, Shape)> = Vec::new();
                let mut i: usize = 0;
                while i < n
                    invariant
                        0 <= i <= n,
                        n == fields@.len(),
                        out@.len() == i,
                        forall|k: int|
                            0 <= k < i ==> (#[trigger] out@[k]).0@ == fields@[k].0@ && out@[k].1@
                                == fields@[k].1@,
                    decreases n - i,
                {
                    let key = fields[i].0.clone();
                    let copied = fields[i].1.deep_copy();
                    out.push((key, copied));
                    i = i + 1;
                }
                proof {
                    assert(fields_view(out@) =~= fields_view(fields@));
                }
                Shape::Object(out)
            },
        }
    }

    /// Structural equality of two shapes: true exactly when their models
    /// are equal.
    #[verifier::loop_isolation(false)]
    fn deep_eq(&self, other: &Shape) -> (r: bool)
        ensures
            r == (self@ == other@),
        decreases self,
    {
        broadcast use {lemma_fields_view, lemma_members_view};

        match (self, other) {
            (Shape::Unknown, Shape::Unknown) => true,
            (Shape::Null, Shape::Null) => true,
            (Shape::Number, Shape::Number) => true,
            (Shape::Bool, Shape::Bool) => true,
            (Shape::String, Shape::String) => true,
            (Shape::Optional(x), Shape::Optional(y)) => x.deep_eq(y),
            (Shape::Array(x), Shape::Array(y)) => x.deep_eq(y),
            (Shape::Union(xs), Shape::Union(ys)) => {
                let n = xs.len();
                if n != ys.len() {
                    proof {
                        assert(members_view(xs@).len() == xs@.len());
                        assert(members_view(ys@).len() == ys@.len());
                    }
                    return false;
                }
                let mut i: usize = 0;
                while i < n
                    invariant
                        0 <= i <= n,
                        n == xs@.len(),
                        n == ys@.len(),
                        self@ == SpecShape::Union(members_view(xs@)),
                        other@ == SpecShape::Union(members_view(ys@)),
                        forall|k: int| 0 <= k < i ==> (#[trigger] xs@[k])@ == ys@[k]@,
                    decreases n - i,
                {
                    if !xs[i].deep_eq(&ys[i]) {
                        proof {
                            assert(members_view(xs@)[i as int] != members_view(ys@)[i as int]);
                        }
                        return false;
                    }
                    i = i + 1;
                }
                proof {
                    assert(members_view(xs@) =~= members_view(ys@));
                }
                true
            },
            (Shape::Object(fs), Shape::Object(gs)) => {
                let n = fs.len();
                if n != gs.len() {
                    proof {
                        assert(fields_view(fs@).len() == fs@.len());
                        assert(fields_view(gs@).len() == gs@.len());
                    }
                    return false;
                }
                let mut i: usize = 0;
                while i < n
                    invariant
                        0 <= i <= n,
                        n == fs@.len(),
                        n == gs@.len(),
                        self@ == SpecShape::Object(fields_view(fs@)),
                        other@ == SpecShape::Object(fields_view(gs@)),
                        forall|k: int|
                            0 <= k < i ==> (#[trigger] fs@[k]).0@ == gs@[k].0@ && fs@[k].1@
                                == gs@[k].1@,
                    decreases n - i,
                {
                    if !(fs[i].0 == gs[i].0) {
                        proof {
                            assert(fields_view(fs@)[i as int] != fields_view(gs@)[i as int]);
                        }
                        return false;
                    }
                    if !fs[i].1.deep_eq(&gs[i].1) {
                        proof {
                            assert(fields_view(fs@)[i as int] != fields_view(gs@)[i as int]);
                        }
                        return false;
                    }
                    i = i + 1;
                }
                proof {
                    assert(fields_view(fs@) =~= fields_view(gs@));
                }
                true
            },
            _ => false,
        }
    }
}

/// Unfolding step for [`dedup`] when one more candidate is appended.
proof fn lemma_dedup_push(s: Seq<SpecShape>, x: SpecShape)
    ensures
        dedup(s.push(x)) == (if dedup(s).contains(x) {
            dedup(s)
        } else {
            dedup(s).push(x)
        }),
{
    assert(s.push(x).drop_last() =~= s);
    assert(s.push(x).last() == x);
}

impl Shape {
    /// Wraps the shape in `Optional` unless it is optional already.
    fn to_optional(&self) -> (r: Shape)
        ensures
            r@ == opt_wrap(self@),
    {
        match self {
            Shape::Optional(_) => self.deep_copy(),
            _ => Shape::Optional(Box::new(self.deep_copy())),
        }
    }
}

/// True exactly when the model of `x` occurs among the models of the
/// elements of `v`.
#[verifier::loop_isolation(false)]
fn contains_shape(v: &Vec<Shape>, x: &Shape) -> (r: bool)
    ensures
        r == members_view(v@).contains(x@),
{
    broadcast use lemma_members_view;

    let n = v.len();
    let mut i: usize = 0;
    while i < n
        invariant
            0 <= i <= n,
            n == v@.len(),
            forall|k: int| 0 <= k < i ==> (#[trigger] members_view(v@)[k]) != x@,
        decreases n - i,
    {
        if v[i].deep_eq(x) {
            proof {
                assert(members_view(v@)[i as int] == x@);
            }
            return true;
        }
        i = i + 1;
    }
    proof {
        if members_view(v@).contains(x@) {
            let k = choose|k: int|
                0 <= k < members_view(v@).len() && members_view(v@)[k] == x@;
            assert(members_view(v@)[k] != x@);
        }
    }
    false
}

/// Appends the union candidates a shape contributes to a member list that
/// is being collected, skipping candidates already present. `processed`
/// names the candidates taken in so far.
#[verifier::loop_isolation(false)]
fn push_candidates(out: &mut Vec<Shape>, s: &Shape, processed: Ghost<Seq<SpecShape>>)
    requires
        members_view(old(out)@) == dedup(processed@),
    ensures
        members_view(final(out)@) == dedup(processed@ + union_members_of(s@)),
{
    broadcast use lemma_members_view;

    match s {
        Shape::Union(members) => {
            let n = members.len();
            let mut i: usize = 0;
            while i < n
                invariant
                    0 <= i <= n,
                    n == members@.len(),
                    members_view(out@) == dedup(
                        processed@ + members_view(members@).take(i as int),
                    ),
                decreases n - i,
            {
                proof {
                    assert(processed@ + members_view(members@).take(i as int + 1) =~= (
                    processed@ + members_view(members@).take(i as int)).push(
                        members@[i as int]@,
                    ));
                    lemma_dedup_push(
                        processed@ + members_view(members@).take(i as int),
                        members@[i as int]@,
                    );
                }
                if !contains_shape(out, &members[i]) {
                    let copied = members[i].deep_copy();
                    out.push(copied);
                    proof {
                        assert(members_view(out@) =~= members_view(
                            out@.drop_last(),
                        ).push(members@[i as int]@));
                    }
                }
                i = i + 1;
            }
            proof {
                assert(members_view(members@).take(n as int) =~= members_view(members@));
                assert(union_members_of(s@) == members_view(members@));
            }
        },
        _ => {
            proof {
                assert(processed@ + union_members_of(s@) =~= processed@.push(s@));
                lemma_dedup_push(processed@, s@);
            }
            if !contains_shape(out, s) {
                let copied = s.deep_copy();
                out.push(copied);
                proof {
                    assert(members_view(out@) =~= members_view(out@.drop_last()).push(s@));
                }
            }
        },
    }
}

impl Shape {
    /// Unifies two shapes: returns the most general shape that can
    /// represent both, as [`spec_unify`] describes.
    #[verifier::loop_isolation(false)]
    pub fn unify(&self, other: &Self) -> (r: Shape)
        ensures
            r@ == spec_unify(self@, other@),
        decreases self,
    {
        broadcast use {lemma_fields_view, lemma_members_view};

        match (self, other) {
            (Shape::Unknown, _) => other.deep_copy(),
            (_, Shape::Unknown) => self.deep_copy(),
            (Shape::Null, Shape::Null) => Shape::Null,
            (Shape::Number, Shape::Number) => Shape::Number,
            (Shape::Bool, Shape::Bool) => Shape::Bool,
            (Shape::String, Shape::String) => Shape::String,
            (Shape::Array(x), Shape::Array(y)) => Shape::Array(Box::new(x.unify(y))),
            (Shape::Object(fs), Shape::Object(gs)) => {
                let ghost fv = fields_view(fs@);
                let ghost gv = fields_view(gs@);
                let flen = fs.len();
                let glen = gs.len();
                let mut out: Vec<(String, Shape)> = Vec::new();
                let mut i: usize = 0;
                let mut j: usize = 0;
                proof {
                    assert(fv.skip(0) =~= fv);
                    assert(gv.skip(0) =~= gv);
                    assert(fields_view(out@) =~= Seq::<(Seq<char>, SpecShape)>::empty());
                }
                while i < flen || j < glen
                    invariant
                        0 <= i <= flen,
                        0 <= j <= glen,
                        flen == fs@.len(),
                        glen == gs@.len(),
                        fields_view(out@) + spec_merge_fields(
                            fv.skip(i as int),
                            gv.skip(j as int),
                        ) == spec_merge_fields(fv, gv),
                    decreases flen - i + glen - j,
                {
                    proof {
                        if i < flen {
                            assert(fv.skip(i as int).len() == flen - i);
                            assert(fv.skip(i as int)[0] == fv[i as int]);
                            assert(fv.skip(i as int).drop_first() =~= fv.skip(i as int + 1));
                        }
                        if j < glen {
                            assert(gv.skip(j as int).len() == glen - j);
                            assert(gv.skip(j as int)[0] == gv[j as int]);
                            assert(gv.skip(j as int).drop_first() =~= gv.skip(j as int + 1));
                        }
                    }
                    let take_left: bool;
                    let take_right: bool;
                    if j >= glen {
                        take_left = true;
                        take_right = false;
                    } else if i >= flen {
                        take_left = false;
                        take_right = true;
                    } else {
                        let c = key_cmp(fs[i].0.as_str(), gs[j].0.as_str());
                        if c < 0 {
                            take_left = true;
                            take_right = false;
                        } else if c > 0 {
                            proof {
                                lemma_key_lt_asym(gs@[j as int].0@, fs@[i as int].0@);
                            }
                            take_left = false;
                            take_right = true;
                        } else {
                            proof {
                                lemma_key_lt_irrefl(fs@[i as int].0@);
                                lemma_key_lt_irrefl(gs@[j as int].0@);
                            }
                            take_left = true;
                            take_right = true;
                        }
                    }
                    if take_left && take_right {
                        let joined = fs[i].1.unify(&gs[j].1);
                        let key = fs[i].0.clone();
                        out.push((key, joined));
                        proof {
                            let h = (fv[i as int].0, spec_unify(fv[i as int].1, gv[j as int].1));
                            let tail = spec_merge_fields(fv.skip(i as int + 1), gv.skip(j as int + 1));
                            assert(spec_merge_fields(fv.skip(i as int), gv.skip(j as int))
                                == seq![h] + tail);
                            assert(fields_view(out@) =~= fields_view(out@.drop_last()).push(h));
                            assert(fields_view(out@.drop_last()).push(h) + tail
                                =~= fields_view(out@.drop_last()) + (seq![h] + tail));
                        }
                        i = i + 1;
                        j = j + 1;
                    } else if take_left {
                        let key = fs[i].0.clone();
                        let wrapped = fs[i].1.to_optional();
                        out.push((key, wrapped));
                        proof {
                            let h = (fv[i as int].0, opt_wrap(fv[i as int].1));
                            let tail = spec_merge_fields(fv.skip(i as int + 1), gv.skip(j as int));
                            if j >= glen {
                                assert(gv.skip(j as int) =~= Seq::<(Seq<char>, SpecShape)>::empty());
                                assert(fields_opt(fv.skip(i as int)) == seq![h] + fields_opt(
                                    fv.skip(i as int).drop_first(),
                                ));
                                if i + 1 < flen {
                                    assert(spec_merge_fields(fv.skip(i as int + 1), gv.skip(j as int))
                                        == fields_opt(fv.skip(i as int + 1)));
                                } else {
                                    assert(fv.skip(i as int + 1)
                                        =~= Seq::<(Seq<char>, SpecShape)>::empty());
                                    assert(spec_merge_fields(fv.skip(i as int + 1), gv.skip(j as int))
                                        =~= fields_opt(fv.skip(i as int + 1)));
                                }
                            }
                            assert(spec_merge_fields(fv.skip(i as int), gv.skip(j as int))
                                == seq![h] + tail);
                            assert(fields_view(out@) =~= fields_view(out@.drop_last()).push(h));
                            assert(fields_view(out@.drop_last()).push(h) + tail
                                =~= fields_view(out@.drop_last()) + (seq![h] + tail));
                        }
                        i = i + 1;
                    } else {
                        let key = gs[j].0.clone();
                        let wrapped = gs[j].1.to_optional();
                        out.push((key, wrapped));
                        proof {
                            let h = (gv[j as int].0, opt_wrap(gv[j as int].1));
                            let tail = spec_merge_fields(fv.skip(i as int), gv.skip(j as int + 1));
                            if i >= flen {
                                assert(fv.skip(i as int) =~= Seq::<(Seq<char>, SpecShape)>::empty());
                                assert(fields_opt(gv.skip(j as int)) == seq![h] + fields_opt(
                                    gv.skip(j as int).drop_first(),
                                ));
                                if j + 1 < glen {
                                    assert(spec_merge_fields(fv.skip(i as int), gv.skip(j as int + 1))
                                        == fields_opt(gv.skip(j as int + 1)));
                                } else {
                                    assert(gv.skip(j as int + 1)
                                        =~= Seq::<(Seq<char>, SpecShape)>::empty());
                                    assert(spec_merge_fields(fv.skip(i as int), gv.skip(j as int + 1))
                                        =~= fields_opt(gv.skip(j as int + 1)));
                                }
                            }
                            assert(spec_merge_fields(fv.skip(i as int), gv.skip(j as int))
                                == seq![h] + tail);
                            assert(fields_view(out@) =~= fields_view(out@.drop_last()).push(h));
                            assert(fields_view(out@.drop_last()).push(h) + tail
                                =~= fields_view(out@.drop_last()) + (seq![h] + tail));
                        }
                        j = j + 1;
                    }
                }
                proof {
                    assert(fv.skip(flen as int) =~= Seq::<(Seq<char>, SpecShape)>::empty());
                    assert(gv.skip(glen as int) =~= Seq::<(Seq<char>, SpecShape)>::empty());
                    assert(fields_view(out@) + spec_merge_fields(
                        fv.skip(flen as int),
                        gv.skip(glen as int),
                    ) =~= fields_view(out@));
                }
                Shape::Object(out)
            },
            (Shape::Optional(x), Shape::Optional(y)) => Shape::Optional(Box::new(x.unify(y))),
            _ => {
                let mut out: Vec<Shape> = Vec::new();
                proof {
                    assert(members_view(out@) =~= Seq::<SpecShape>::empty());
                    assert(dedup(Seq::<SpecShape>::empty()) == Seq::<SpecShape>::empty());
                }
                push_candidates(&mut out, self, Ghost(Seq::empty()));
                proof {
                    assert(Seq::<SpecShape>::empty() + union_members_of(self@)
                        =~= union_members_of(self@));
                }
                push_candidates(&mut out, other, Ghost(union_members_of(self@)));
                Shape::Union(out)
            },
        }
    }
}

impl Clone for Shape {
    /// A clone is structurally identical: it has the same model.
    fn clone(&self) -> (r: Shape)
        ensures
            r@ == self@,
    {
        self.deep_copy()
    }
}

impl PartialEq for Shape {
    fn eq(&self, other: &Shape) -> (r: bool) {
        self.deep_eq(other)
    }
}

impl vstd::std_specs::cmp::PartialEqSpecImpl for Shape {
    open spec fn obeys_eq_spec() -> bool {
        true
    }

    open spec fn eq_spec(&self, other: &Shape) -> bool {
        self@ == other@
    }
}

} // verus!
