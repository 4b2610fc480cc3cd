//! The algebraic laws of unification: identity, commutativity up to
//! union-member order, idempotence, and preservation of well-formedness.

use crate::shape::{
    dedup, fields_opt, key_lt, lemma_key_lt_asym, lemma_key_lt_connected, lemma_key_lt_irrefl,
    lemma_key_lt_trans, opt_wrap, spec_merge_fields, spec_unify, union_members_of, wf, SpecShape,
};
use crate::value::{
    spec_infer, spec_insert_field, spec_object_fields, spec_shape_of, SpecValue,
};
use vstd::prelude::*;

verus! {

/// Pointwise equivalence of two object field lists: the same keys in the
/// same order, with equivalent shapes.
pub open spec fn fields_equiv(
    f: Seq<(Seq<char>, SpecShape)>,
    g: Seq<(Seq<char>, SpecShape)>,
) -> bool
    decreases f,
{
    &&& f.len() == g.len()
    &&& forall|i: int|
        0 <= i < f.len() ==> (#[trigger] f[i]).0 == g[i].0 && equiv(f[i].1, g[i].1)
}

/// Two shapes denote the same set of types: they are structurally equal,
/// except that the members of a union are compared as a set, their order
/// being of no semantic significance.
pub open spec fn equiv(a: SpecShape, b: SpecShape) -> bool
    decreases a,
{
    match (a, b) {
        (SpecShape::Unknown, SpecShape::Unknown) => true,
        (SpecShape::Null, SpecShape::Null) => true,
        (SpecShape::Number, SpecShape::Number) => true,
        (SpecShape::Bool, SpecShape::Bool) => true,
        (SpecShape::String, SpecShape::String) => true,
        (SpecShape::Optional(x), SpecShape::Optional(y)) => equiv(*x, *y),
        (SpecShape::Array(x), SpecShape::Array(y)) => equiv(*x, *y),
        (SpecShape::Object(f), SpecShape::Object(g)) => fields_equiv(f, g),
        (SpecShape::Union(xs), SpecShape::Union(ys)) => xs.to_set() == ys.to_set(),
        _ => false,
    }
}

/// Every shape is equivalent to itself.
pub proof fn lemma_equiv_refl(a: SpecShape)
    ensures
        equiv(a, a),
    decreases a,
{
    match a {
        SpecShape::Optional(x) => lemma_equiv_refl(*x),
        SpecShape::Array(x) => lemma_equiv_refl(*x),
        SpecShape::Object(f) => {
            assert forall|i: int| 0 <= i < f.len() implies (#[trigger] f[i]).0 == f[i].0
                && equiv(f[i].1, f[i].1) by {
                lemma_equiv_refl(f[i].1);
            }
            assert(fields_equiv(f, f));
        },
        _ => {},
    }
}

/// Identity: `Unknown` is the identity element of unification, on either
/// side. Unifying any shape with `Unknown` gives that shape back,
/// unchanged.
pub proof fn lemma_unify_unknown(a: SpecShape)
    ensures
        spec_unify(SpecShape::Unknown, a) == a,
        spec_unify(a, SpecShape::Unknown) == a,
{
}

/// A concatenation holds exactly the members of its two parts.
proof fn lemma_contains_concat(p: Seq<SpecShape>, q: Seq<SpecShape>, x: SpecShape)
    ensures
        (p + q).contains(x) <==> p.contains(x) || q.contains(x),
{
    if p.contains(x) {
        let i = choose|i: int| 0 <= i < p.len() && p[i] == x;
        assert((p + q)[i] == x);
    }
    if q.contains(x) {
        let i = choose|i: int| 0 <= i < q.len() && q[i] == x;
        assert((p + q)[p.len() + i] == x);
    }
    if (p + q).contains(x) {
        let i = choose|i: int| 0 <= i < (p + q).len() && (p + q)[i] == x;
        if i < p.len() {
            assert(p[i] == x);
        } else {
            assert(q[i - p.len()] == x);
        }
    }
}

/// Removing duplicates does not change which members a list holds.
proof fn lemma_dedup_contains(s: Seq<SpecShape>, x: SpecShape)
    ensures
        dedup(s).contains(x) <==> s.contains(x),
    decreases s.len(),
{
    if s.len() > 0 {
        lemma_dedup_contains(s.drop_last(), x);
        let rest = dedup(s.drop_last());
        if s.contains(x) {
            let i = choose|i: int| 0 <= i < s.len() && s[i] == x;
            if i < s.len() - 1 {
                assert(s.drop_last()[i] == x);
            }
            if x == s.last() && !rest.contains(x) {
                assert(dedup(s)[rest.len() as int] == x);
            } else {
                let j = choose|j: int| 0 <= j < rest.len() && rest[j] == x;
                assert(dedup(s)[j] == x);
            }
        }
        if dedup(s).contains(x) {
            let i = choose|i: int| 0 <= i < dedup(s).len() && dedup(s)[i] == x;
            if rest.contains(s.last()) {
                assert(rest[i] == x);
                assert(s.drop_last().contains(x));
            } else {
                if i < rest.len() {
                    assert(rest[i] == x);
                    assert(s.drop_last().contains(x));
                } else {
                    assert(x == s.last());
                }
            }
            assert(s =~= s.drop_last().push(s.last()));
        }
    }
}

/// Prepending the same key with equivalent shapes to pointwise equivalent
/// lists gives pointwise equivalent lists.
proof fn lemma_fields_equiv_cons(
    h1: (Seq<char>, SpecShape),
    h2: (Seq<char>, SpecShape),
    t1: Seq<(Seq<char>, SpecShape)>,
    t2: Seq<(Seq<char>, SpecShape)>,
)
    requires
        h1.0 == h2.0,
        equiv(h1.1, h2.1),
        fields_equiv(t1, t2),
    ensures
        fields_equiv(seq![h1] + t1, seq![h2] + t2),
{
    let c1 = seq![h1] + t1;
    let c2 = seq![h2] + t2;
    assert forall|i: int| 0 <= i < c1.len() implies (#[trigger] c1[i]).0 == c2[i].0 && equiv(
        c1[i].1,
        c2[i].1,
    ) by {
        if i > 0 {
            assert(c1[i] == t1[i - 1]);
            assert(c2[i] == t2[i - 1]);
        }
    }
    assert(fields_equiv(c1, c2));
}

/// Every field list is pointwise equivalent to itself.
proof fn lemma_fields_equiv_refl(t: Seq<(Seq<char>, SpecShape)>)
    ensures
        fields_equiv(t, t),
{
    assert forall|i: int| 0 <= i < t.len() implies (#[trigger] t[i]).0 == t[i].0 && equiv(
        t[i].1,
        t[i].1,
    ) by {
        lemma_equiv_refl(t[i].1);
    }
    assert(fields_equiv(t, t));
}

/// Merging two key-ordered field lists in either order gives pointwise
/// equivalent results: the same keys in the same order, with shapes that
/// differ at most in the order of union members.
pub proof fn lemma_merge_commutative(
    f: Seq<(Seq<char>, SpecShape)>,
    g: Seq<(Seq<char>, SpecShape)>,
)
    ensures
        fields_equiv(spec_merge_fields(f, g), spec_merge_fields(g, f)),
    decreases f, g,
{
    if f.len() == 0 {
        lemma_fields_equiv_refl(spec_merge_fields(f, g));
        assert(spec_merge_fields(g, f) == spec_merge_fields(f, g));
    } else if g.len() == 0 {
        lemma_fields_equiv_refl(spec_merge_fields(f, g));
        assert(spec_merge_fields(g, f) == spec_merge_fields(f, g));
    } else if key_lt(f[0].0, g[0].0) {
        lemma_key_lt_asym(f[0].0, g[0].0);
        lemma_merge_commutative(f.drop_first(), g);
        lemma_equiv_refl(opt_wrap(f[0].1));
        lemma_fields_equiv_cons(
            (f[0].0, opt_wrap(f[0].1)),
            (f[0].0, opt_wrap(f[0].1)),
            spec_merge_fields(f.drop_first(), g),
            spec_merge_fields(g, f.drop_first()),
        );
    } else if key_lt(g[0].0, f[0].0) {
        lemma_key_lt_asym(g[0].0, f[0].0);
        lemma_merge_commutative(f, g.drop_first());
        lemma_equiv_refl(opt_wrap(g[0].1));
        lemma_fields_equiv_cons(
            (g[0].0, opt_wrap(g[0].1)),
            (g[0].0, opt_wrap(g[0].1)),
            spec_merge_fields(f, g.drop_first()),
            spec_merge_fields(g.drop_first(), f),
        );
    } else {
        lemma_key_lt_connected(f[0].0, g[0].0);
        lemma_unify_commutative(f[0].1, g[0].1);
        lemma_merge_commutative(f.drop_first(), g.drop_first());
        lemma_fields_equiv_cons(
            (f[0].0, spec_unify(f[0].1, g[0].1)),
            (g[0].0, spec_unify(g[0].1, f[0].1)),
            spec_merge_fields(f.drop_first(), g.drop_first()),
            spec_merge_fields(g.drop_first(), f.drop_first()),
        );
    }
}

/// Commutativity up to set equality: `unify(a, b)` and `unify(b, a)`
/// denote the same type set. The results are structurally equal except
/// that the members of any union may appear in a different order.
pub proof fn lemma_unify_commutative(a: SpecShape, b: SpecShape)
    ensures
        equiv(spec_unify(a, b), spec_unify(b, a)),
    decreases a, b,
{
    match (a, b) {
        (SpecShape::Unknown, _) => {
            lemma_equiv_refl(b);
        },
        (_, SpecShape::Unknown) => {
            lemma_equiv_refl(a);
        },
        (SpecShape::Array(x), SpecShape::Array(y)) => {
            lemma_unify_commutative(*x, *y);
        },
        (SpecShape::Object(f), SpecShape::Object(g)) => {
            lemma_merge_commutative(f, g);
        },
        (SpecShape::Optional(x), SpecShape::Optional(y)) => {
            lemma_unify_commutative(*x, *y);
        },
        _ => {
            if spec_unify(a, b) == spec_unify(b, a) {
                lemma_equiv_refl(spec_unify(a, b));
            } else {
                let p = union_members_of(a);
                let q = union_members_of(b);
                assert(dedup(p + q).to_set() =~= dedup(q + p).to_set()) by {
                    assert forall|x: SpecShape| #[trigger] dedup(p + q).contains(x)
                        <==> dedup(q + p).contains(x) by {
                        lemma_dedup_contains(p + q, x);
                        lemma_dedup_contains(q + p, x);
                        lemma_contains_concat(p, q, x);
                        lemma_contains_concat(q, p, x);
                    }
                }
            }
        },
    }
}

/// A list without duplicate members is unchanged by [`dedup`].
proof fn lemma_dedup_distinct_id(s: Seq<SpecShape>)
    requires
        forall|i: int, j: int| 0 <= i < j < s.len() ==> s[i] != s[j],
    ensures
        dedup(s) == s,
    decreases s.len(),
{
    if s.len() > 0 {
        lemma_dedup_distinct_id(s.drop_last());
        if s.drop_last().contains(s.last()) {
            let i = choose|i: int|
                0 <= i < s.drop_last().len() && s.drop_last()[i] == s.last();
            assert(s[i] == s[s.len() - 1]);
        }
        assert(dedup(s) =~= s);
    }
}

/// Appending members that a duplicate-free list already holds leaves its
/// deduplication unchanged.
proof fn lemma_dedup_absorb(s: Seq<SpecShape>, t: Seq<SpecShape>)
    requires
        forall|i: int, j: int| 0 <= i < j < s.len() ==> s[i] != s[j],
        forall|x: SpecShape| #[trigger] t.contains(x) ==> s.contains(x),
    ensures
        dedup(s + t) == s,
    decreases t.len(),
{
    if t.len() == 0 {
        assert(s + t =~= s);
        lemma_dedup_distinct_id(s);
    } else {
        assert((s + t).drop_last() =~= s + t.drop_last());
        assert(forall|x: SpecShape| #[trigger] t.drop_last().contains(x) ==> t.contains(x))
            by {
            assert forall|x: SpecShape| #[trigger] t.drop_last().contains(x) implies t.contains(
                x,
            ) by {
                let i = choose|i: int|
                    0 <= i < t.drop_last().len() && t.drop_last()[i] == x;
                assert(t[i] == x);
            }
        }
        lemma_dedup_absorb(s, t.drop_last());
        assert(t.contains(t.last()));
        assert(s.contains((s + t).last()));
    }
}

/// Merging a well-formed, key-ordered field list with itself gives that
/// list back unchanged.
pub proof fn lemma_merge_self(f: Seq<(Seq<char>, SpecShape)>)
    requires
        forall|i: int| 0 <= i < f.len() ==> wf((#[trigger] f[i]).1),
        forall|i: int, j: int| 0 <= i < j < f.len() ==> key_lt(f[i].0, f[j].0),
    ensures
        spec_merge_fields(f, f) == f,
    decreases f,
{
    if f.len() == 0 {
        assert(spec_merge_fields(f, f) =~= f);
    } else {
        lemma_key_lt_irrefl(f[0].0);
        lemma_unify_idempotent(f[0].1);
        let rest = f.drop_first();
        assert(forall|i: int| 0 <= i < rest.len() ==> wf((#[trigger] rest[i]).1));
        assert(forall|i: int, j: int|
            0 <= i < j < rest.len() ==> key_lt(rest[i].0, rest[j].0));
        lemma_merge_self(rest);
        assert((f[0].0, f[0].1) == f[0]);
        assert(spec_merge_fields(f, f) =~= f);
    }
}

/// Idempotence: unifying a well-formed shape with itself gives that shape
/// back, structurally unchanged. Well-formedness matters only for unions,
/// whose member lists must be free of duplicates.
pub proof fn lemma_unify_idempotent(a: SpecShape)
    requires
        wf(a),
    ensures
        spec_unify(a, a) == a,
    decreases a,
{
    match a {
        SpecShape::Optional(x) => {
            lemma_unify_idempotent(*x);
        },
        SpecShape::Array(x) => {
            lemma_unify_idempotent(*x);
        },
        SpecShape::Object(f) => {
            lemma_merge_self(f);
        },
        SpecShape::Union(ms) => {
            lemma_dedup_absorb(ms, ms);
        },
        _ => {},
    }
}

/// Whether some field of the list binds the given key.
pub open spec fn has_key(fields: Seq<(Seq<char>, SpecShape)>, key: Seq<char>) -> bool {
    exists|i: int| 0 <= i < fields.len() && fields[i].0 == key
}

/// Wrapping in `Optional` preserves well-formedness.
proof fn lemma_opt_wrap_wf(s: SpecShape)
    requires
        wf(s),
    ensures
        wf(opt_wrap(s)),
{
}

/// Wrapping every field of a list in `Optional` keeps its length and
/// keys, and wraps each shape.
proof fn lemma_fields_opt_view(f: Seq<(Seq<char>, SpecShape)>)
    ensures
        fields_opt(f).len() == f.len(),
        forall|i: int|
            0 <= i < f.len() ==> #[trigger] fields_opt(f)[i] == (f[i].0, opt_wrap(f[i].1)),
    decreases f.len(),
{
    if f.len() > 0 {
        lemma_fields_opt_view(f.drop_first());
        assert forall|i: int|
            0 <= i < f.len() implies #[trigger] fields_opt(f)[i] == (
            f[i].0,
            opt_wrap(f[i].1),
        ) by {
            if i > 0 {
                assert(fields_opt(f)[i] == fields_opt(f.drop_first())[i - 1]);
                assert(f.drop_first()[i - 1] == f[i]);
            }
        }
    }
}

/// The members of a deduplicated list are pairwise distinct.
proof fn lemma_dedup_distinct(s: Seq<SpecShape>)
    ensures
        forall|i: int, j: int| 0 <= i < j < dedup(s).len() ==> dedup(s)[i] != dedup(s)[j],
    decreases s.len(),
{
    if s.len() > 0 {
        lemma_dedup_distinct(s.drop_last());
        let rest = dedup(s.drop_last());
        if !rest.contains(s.last()) {
            assert forall|i: int, j: int|
                0 <= i < j < dedup(s).len() implies dedup(s)[i] != dedup(s)[j] by {
                if j < rest.len() {
                    assert(dedup(s)[i] == rest[i] && dedup(s)[j] == rest[j]);
                } else {
                    assert(dedup(s)[j] == s.last());
                    assert(dedup(s)[i] == rest[i]);
                    if rest[i] == s.last() {
                        assert(rest.contains(s.last()));
                    }
                }
            }
        }
    }
}

/// Merging two well-formed, key-ordered field lists gives a well-formed,
/// key-ordered list whose keys all come from one of the two sides.
pub proof fn lemma_merge_wf(f: Seq<(Seq<char>, SpecShape)>, g: Seq<(Seq<char>, SpecShape)>)
    requires
        forall|i: int| 0 <= i < f.len() ==> wf((#[trigger] f[i]).1),
        forall|i: int, j: int| 0 <= i < j < f.len() ==> key_lt(f[i].0, f[j].0),
        forall|i: int| 0 <= i < g.len() ==> wf((#[trigger] g[i]).1),
        forall|i: int, j: int| 0 <= i < j < g.len() ==> key_lt(g[i].0, g[j].0),
    ensures
        forall|i: int| 0 <= i < spec_merge_fields(f, g).len() ==> wf(
            (#[trigger] spec_merge_fields(f, g)[i]).1,
        ),
        forall|i: int, j: int|
            0 <= i < j < spec_merge_fields(f, g).len() ==> key_lt(
                spec_merge_fields(f, g)[i].0,
                spec_merge_fields(f, g)[j].0,
            ),
        forall|k: Seq<char>|
            #[trigger] has_key(spec_merge_fields(f, g), k) ==> has_key(f, k) || has_key(g, k),
    decreases f, g,
{
    let m = spec_merge_fields(f, g);
    if f.len() == 0 {
        lemma_fields_opt_view(g);
        assert forall|i: int| 0 <= i < m.len() implies wf((#[trigger] m[i]).1) by {
            lemma_opt_wrap_wf(g[i].1);
        }
        assert forall|k: Seq<char>| #[trigger] has_key(m, k) implies has_key(f, k) || has_key(
            g,
            k,
        ) by {
            let i = choose|i: int| 0 <= i < m.len() && m[i].0 == k;
            assert(g[i].0 == k);
        }
    } else if g.len() == 0 {
        lemma_fields_opt_view(f);
        assert forall|i: int| 0 <= i < m.len() implies wf((#[trigger] m[i]).1) by {
            lemma_opt_wrap_wf(f[i].1);
        }
        assert forall|k: Seq<char>| #[trigger] has_key(m, k) implies has_key(f, k) || has_key(
            g,
            k,
        ) by {
            let i = choose|i: int| 0 <= i < m.len() && m[i].0 == k;
            assert(f[i].0 == k);
        }
    } else {
        let f0 = f[0];
        let g0 = g[0];
        let frest = f.drop_first();
        let grest = g.drop_first();
        assert(forall|i: int| 0 <= i < frest.len() ==> wf((#[trigger] frest[i]).1));
        assert(forall|i: int, j: int|
            0 <= i < j < frest.len() ==> key_lt(frest[i].0, frest[j].0));
        assert(forall|i: int| 0 <= i < grest.len() ==> wf((#[trigger] grest[i]).1));
        assert(forall|i: int, j: int|
            0 <= i < j < grest.len() ==> key_lt(grest[i].0, grest[j].0));
        if key_lt(f0.0, g0.0) {
            let tail = spec_merge_fields(frest, g);
            lemma_merge_wf(frest, g);
            lemma_opt_wrap_wf(f0.1);
            assert(m == seq![(f0.0, opt_wrap(f0.1))] + tail);
            assert forall|k: Seq<char>| #[trigger] has_key(m, k) implies has_key(f, k)
                || has_key(g, k) by {
                let i = choose|i: int| 0 <= i < m.len() && m[i].0 == k;
                if i == 0 {
                    assert(f[0].0 == k);
                } else {
                    assert(tail[i - 1].0 == k);
                    assert(has_key(tail, k));
                    if has_key(frest, k) {
                        let j = choose|j: int| 0 <= j < frest.len() && frest[j].0 == k;
                        assert(f[j + 1].0 == k);
                    }
                }
            }
            assert forall|i: int, j: int|
                0 <= i < j < m.len() implies key_lt(m[i].0, m[j].0) by {
                if i == 0 {
                    assert(m[j].0 == tail[j - 1].0);
                    assert(has_key(tail, m[j].0));
                    if has_key(frest, m[j].0) {
                        let w = choose|w: int|
                            0 <= w < frest.len() && frest[w].0 == m[j].0;
                        assert(key_lt(f[0].0, f[w + 1].0));
                    } else {
                        let w = choose|w: int| 0 <= w < g.len() && g[w].0 == m[j].0;
                        if w > 0 {
                            lemma_key_lt_trans(f0.0, g0.0, g[w].0);
                        }
                    }
                } else {
                    assert(m[i].0 == tail[i - 1].0 && m[j].0 == tail[j - 1].0);
                }
            }
        } else if key_lt(g0.0, f0.0) {
            let tail = spec_merge_fields(f, grest);
            lemma_merge_wf(f, grest);
            lemma_opt_wrap_wf(g0.1);
            assert(m == seq![(g0.0, opt_wrap(g0.1))] + tail);
            assert forall|k: Seq<char>| #[trigger] has_key(m, k) implies has_key(f, k)
                || has_key(g, k) by {
                let i = choose|i: int| 0 <= i < m.len() && m[i].0 == k;
                if i == 0 {
                    assert(g[0].0 == k);
                } else {
                    assert(tail[i - 1].0 == k);
                    assert(has_key(tail, k));
                    if has_key(grest, k) {
                        let j = choose|j: int| 0 <= j < grest.len() && grest[j].0 == k;
                        assert(g[j + 1].0 == k);
                    }
                }
            }
            assert forall|i: int, j: int|
                0 <= i < j < m.len() implies key_lt(m[i].0, m[j].0) by {
                if i == 0 {
                    assert(m[j].0 == tail[j - 1].0);
                    assert(has_key(tail, m[j].0));
                    if has_key(grest, m[j].0) {
                        let w = choose|w: int|
                            0 <= w < grest.len() && grest[w].0 == m[j].0;
                        assert(key_lt(g[0].0, g[w + 1].0));
                    } else {
                        let w = choose|w: int| 0 <= w < f.len() && f[w].0 == m[j].0;
                        if w > 0 {
                            lemma_key_lt_trans(g0.0, f0.0, f[w].0);
                        }
                    }
                } else {
                    assert(m[i].0 == tail[i - 1].0 && m[j].0 == tail[j - 1].0);
                }
            }
        } else {
            lemma_key_lt_connected(f0.0, g0.0);
            let tail = spec_merge_fields(frest, grest);
            lemma_merge_wf(frest, grest);
            lemma_unify_wf(f0.1, g0.1);
            assert(m == seq![(f0.0, spec_unify(f0.1, g0.1))] + tail);
            assert forall|k: Seq<char>| #[trigger] has_key(m, k) implies has_key(f, k)
                || has_key(g, k) by {
                let i = choose|i: int| 0 <= i < m.len() && m[i].0 == k;
                if i == 0 {
                    assert(f[0].0 == k);
                } else {
                    assert(tail[i - 1].0 == k);
                    assert(has_key(tail, k));
                    if has_key(frest, k) {
                        let j = choose|j: int| 0 <= j < frest.len() && frest[j].0 == k;
                        assert(f[j + 1].0 == k);
                    } else {
                        let j = choose|j: int| 0 <= j < grest.len() && grest[j].0 == k;
                        assert(g[j + 1].0 == k);
                    }
                }
            }
            assert forall|i: int, j: int|
                0 <= i < j < m.len() implies key_lt(m[i].0, m[j].0) by {
                if i == 0 {
                    assert(m[j].0 == tail[j - 1].0);
                    assert(has_key(tail, m[j].0));
                    if has_key(frest, m[j].0) {
                        let w = choose|w: int|
                            0 <= w < frest.len() && frest[w].0 == m[j].0;
                        assert(key_lt(f[0].0, f[w + 1].0));
                    } else {
                        let w = choose|w: int|
                            0 <= w < grest.len() && grest[w].0 == m[j].0;
                        assert(key_lt(g[0].0, g[w + 1].0));
                    }
                } else {
                    assert(m[i].0 == tail[i - 1].0 && m[j].0 == tail[j - 1].0);
                }
            }
        }
    }
}

/// Unification preserves well-formedness: the join of two well-formed
/// shapes is well-formed.
pub proof fn lemma_unify_wf(a: SpecShape, b: SpecShape)
    requires
        wf(a),
        wf(b),
    ensures
        wf(spec_unify(a, b)),
    decreases a, b,
{
    match (a, b) {
        (SpecShape::Unknown, _) => {},
        (_, SpecShape::Unknown) => {},
        (SpecShape::Array(x), SpecShape::Array(y)) => {
            lemma_unify_wf(*x, *y);
        },
        (SpecShape::Object(f), SpecShape::Object(g)) => {
            lemma_merge_wf(f, g);
            assert(wf(SpecShape::Object(spec_merge_fields(f, g))));
        },
        (SpecShape::Optional(x), SpecShape::Optional(y)) => {
            lemma_unify_wf(*x, *y);
        },
        _ => {
            if !(spec_unify(a, b) is Union) {
                // a ground kind unified with itself: already well-formed
            } else {
                let p = union_members_of(a);
                let q = union_members_of(b);
                let s = p + q;
                assert forall|x: SpecShape| #[trigger] s.contains(x) implies wf(x) && !(x
                    is Union) by {
                    let i = choose|i: int| 0 <= i < s.len() && s[i] == x;
                    if i < p.len() {
                        assert(p[i] == x);
                        if a is Union {
                            assert(a->Union_0[i] == x);
                        }
                    } else {
                        assert(q[i - p.len()] == x);
                        if b is Union {
                            assert(b->Union_0[i - p.len()] == x);
                        }
                    }
                }
                let d = dedup(s);
                lemma_dedup_distinct(s);
                assert forall|i: int| 0 <= i < d.len() implies wf(#[trigger] d[i]) && !(d[i]
                    is Union) by {
                    assert(d.contains(d[i]));
                    lemma_dedup_contains(s, d[i]);
                }
                assert(wf(SpecShape::Union(d)));
            }
        },
    }
}

/// Inserting a well-formed shape into a well-formed, key-ordered field
/// list gives a well-formed, key-ordered list; every key of the result is
/// a key of the list or the inserted key.
proof fn lemma_insert_field_wf(
    fields: Seq<(Seq<char>, SpecShape)>,
    key: Seq<char>,
    shape: SpecShape,
)
    requires
        forall|i: int| 0 <= i < fields.len() ==> wf((#[trigger] fields[i]).1),
        forall|i: int, j: int| 0 <= i < j < fields.len() ==> key_lt(fields[i].0, fields[j].0),
        wf(shape),
    ensures
        forall|i: int| 0 <= i < spec_insert_field(fields, key, shape).len() ==> wf(
            (#[trigger] spec_insert_field(fields, key, shape)[i]).1,
        ),
        forall|i: int, j: int|
            0 <= i < j < spec_insert_field(fields, key, shape).len() ==> key_lt(
                spec_insert_field(fields, key, shape)[i].0,
                spec_insert_field(fields, key, shape)[j].0,
            ),
        forall|k: Seq<char>|
            #[trigger] has_key(spec_insert_field(fields, key, shape), k) ==> has_key(fields, k)
                || k == key,
    decreases fields.len(),
{
    let r = spec_insert_field(fields, key, shape);
    if fields.len() == 0 {
        assert forall|k: Seq<char>| #[trigger] has_key(r, k) implies has_key(fields, k) || k
            == key by {
            let i = choose|i: int| 0 <= i < r.len() && r[i].0 == k;
        }
    } else if key_lt(key, fields[0].0) {
        assert(r == seq![(key, shape)] + fields);
        assert forall|i: int, j: int| 0 <= i < j < r.len() implies key_lt(r[i].0, r[j].0) by {
            if i == 0 {
                if j > 1 {
                    lemma_key_lt_trans(key, fields[0].0, fields[j - 1].0);
                }
            } else {
                assert(r[i] == fields[i - 1] && r[j] == fields[j - 1]);
            }
        }
        assert forall|k: Seq<char>| #[trigger] has_key(r, k) implies has_key(fields, k) || k
            == key by {
            let i = choose|i: int| 0 <= i < r.len() && r[i].0 == k;
            if i > 0 {
                assert(fields[i - 1].0 == k);
            }
        }
    } else if key_lt(fields[0].0, key) {
        let rest = fields.drop_first();
        assert(forall|i: int| 0 <= i < rest.len() ==> wf((#[trigger] rest[i]).1));
        assert(forall|i: int, j: int|
            0 <= i < j < rest.len() ==> key_lt(rest[i].0, rest[j].0));
        lemma_insert_field_wf(rest, key, shape);
        let tail = spec_insert_field(rest, key, shape);
        assert(r == seq![fields[0]] + tail);
        assert forall|i: int, j: int| 0 <= i < j < r.len() implies key_lt(r[i].0, r[j].0) by {
            if i == 0 {
                assert(r[j].0 == tail[j - 1].0);
                assert(has_key(tail, r[j].0));
                if has_key(rest, r[j].0) {
                    let w = choose|w: int| 0 <= w < rest.len() && rest[w].0 == r[j].0;
                    assert(key_lt(fields[0].0, fields[w + 1].0));
                }
            } else {
                assert(r[i] == tail[i - 1] && r[j] == tail[j - 1]);
            }
        }
        assert forall|k: Seq<char>| #[trigger] has_key(r, k) implies has_key(fields, k) || k
            == key by {
            let i = choose|i: int| 0 <= i < r.len() && r[i].0 == k;
            if i > 0 {
                assert(tail[i - 1].0 == k);
                assert(has_key(tail, k));
                if has_key(rest, k) {
                    let w = choose|w: int| 0 <= w < rest.len() && rest[w].0 == k;
                    assert(fields[w + 1].0 == k);
                }
            }
        }
    } else {
        lemma_key_lt_connected(key, fields[0].0);
        let rest = fields.drop_first();
        assert(r == seq![(key, shape)] + rest);
        assert forall|i: int, j: int| 0 <= i < j < r.len() implies key_lt(r[i].0, r[j].0) by {
            if i == 0 {
                assert(r[j].0 == fields[j].0);
                assert(key_lt(fields[0].0, fields[j].0));
            } else {
                assert(r[i] == fields[i] && r[j] == fields[j]);
            }
        }
        assert forall|k: Seq<char>| #[trigger] has_key(r, k) implies has_key(fields, k) || k
            == key by {
            let i = choose|i: int| 0 <= i < r.len() && r[i].0 == k;
            if i > 0 {
                assert(fields[i].0 == k);
            }
        }
    }
}

/// The field list an object sample converts to is well-formed and
/// key-ordered.
pub proof fn lemma_object_fields_wf(pairs: Seq<(Seq<char>, SpecValue)>)
    ensures
        forall|i: int| 0 <= i < spec_object_fields(pairs).len() ==> wf(
            (#[trigger] spec_object_fields(pairs)[i]).1,
        ),
        forall|i: int, j: int|
            0 <= i < j < spec_object_fields(pairs).len() ==> key_lt(
                spec_object_fields(pairs)[i].0,
                spec_object_fields(pairs)[j].0,
            ),
    decreases pairs,
{
    if pairs.len() > 0 {
        lemma_object_fields_wf(pairs.drop_last());
        lemma_shape_of_wf(pairs.last().1);
        lemma_insert_field_wf(
            spec_object_fields(pairs.drop_last()),
            pairs.last().0,
            spec_shape_of(pairs.last().1),
        );
    }
}

/// Conversion yields a well-formed shape for every sample value.
pub proof fn lemma_shape_of_wf(v: SpecValue)
    ensures
        wf(spec_shape_of(v)),
    decreases v,
{
    match v {
        SpecValue::Array(elems) => {
            lemma_infer_wf(elems);
        },
        SpecValue::Object(pairs) => {
            lemma_object_fields_wf(pairs);
            assert(wf(SpecShape::Object(spec_object_fields(pairs))));
        },
        _ => {},
    }
}

/// Inference yields a well-formed shape for every sequence of samples.
pub proof fn lemma_infer_wf(values: Seq<SpecValue>)
    ensures
        wf(spec_infer(values)),
    decreases values,
{
    if values.len() > 0 {
        lemma_infer_wf(values.drop_last());
        lemma_shape_of_wf(values.last());
        lemma_unify_wf(spec_infer(values.drop_last()), spec_shape_of(values.last()));
    }
}

} // verus!
