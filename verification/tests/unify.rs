//! Behaviour of the binary join operation on shapes.

use procyon::shape::Shape;

#[test]
fn unify_constants() {
    assert_eq!(Shape::Number.unify(&Shape::Number), Shape::Number);
    assert_eq!(Shape::String.unify(&Shape::String), Shape::String);
}

#[test]
fn unify_arrays() {
    assert_eq!(
        Shape::Array(Box::new(Shape::Number)).unify(&Shape::Array(Box::new(Shape::Number))),
        Shape::Array(Box::new(Shape::Number))
    );

    // unification of number[] and string[] results in (number | string)[]
    assert_eq!(
        Shape::Array(Box::new(Shape::Number)).unify(&Shape::Array(Box::new(Shape::String))),
        Shape::Array(Box::new(Shape::Union(vec![Shape::Number, Shape::String])))
    );
}

#[test]
fn unify_maps() {
    let lhs = Shape::Object(vec![
        ("a".to_string(), Shape::Number),
        ("b".to_string(), Shape::String),
    ]);
    let rhs = Shape::Object(vec![
        ("a".to_string(), Shape::Number),
        ("b".to_string(), Shape::String),
        ("c".to_string(), Shape::Bool),
    ]);

    let expected = Shape::Object(vec![
        ("a".to_string(), Shape::Number),
        ("b".to_string(), Shape::String),
        ("c".to_string(), Shape::Optional(Shape::Bool.boxed())),
    ]);

    assert_eq!(expected, lhs.unify(&rhs));
}

#[test]
fn unify_unknown_is_identity() {
    let shapes = vec![
        Shape::Unknown,
        Shape::Null,
        Shape::Number,
        Shape::String,
        Shape::Optional(Shape::Bool.boxed()),
        Shape::Union(vec![Shape::Number, Shape::String]),
        Shape::Array(Shape::Number.boxed()),
        Shape::Object(vec![("k".to_string(), Shape::Null)]),
    ];
    for s in shapes {
        assert_eq!(Shape::Unknown.unify(&s), s);
        assert_eq!(s.unify(&Shape::Unknown), s);
    }
}

#[test]
fn unify_ground_mismatch_makes_union() {
    assert_eq!(
        Shape::String.unify(&Shape::Bool),
        Shape::Union(vec![Shape::String, Shape::Bool])
    );
    assert_eq!(
        Shape::Null.unify(&Shape::Number),
        Shape::Union(vec![Shape::Null, Shape::Number])
    );
}

#[test]
fn unify_is_commutative_up_to_member_order() {
    let ab = Shape::Number.unify(&Shape::String);
    let ba = Shape::String.unify(&Shape::Number);
    assert_eq!(ab, Shape::Union(vec![Shape::Number, Shape::String]));
    assert_eq!(ba, Shape::Union(vec![Shape::String, Shape::Number]));

    // objects merge to the same keys in the same order either way
    let lhs = Shape::Object(vec![("a".to_string(), Shape::Number)]);
    let rhs = Shape::Object(vec![("b".to_string(), Shape::String)]);
    let expected = Shape::Object(vec![
        ("a".to_string(), Shape::Optional(Shape::Number.boxed())),
        ("b".to_string(), Shape::Optional(Shape::String.boxed())),
    ]);
    assert_eq!(expected, lhs.unify(&rhs));
    assert_eq!(expected, rhs.unify(&lhs));
}

#[test]
fn unify_is_idempotent() {
    let shapes = vec![
        Shape::Null,
        Shape::Optional(Shape::Number.boxed()),
        Shape::Union(vec![Shape::Number, Shape::String]),
        Shape::Array(Shape::Union(vec![Shape::Bool, Shape::Null]).boxed()),
        Shape::Object(vec![
            ("a".to_string(), Shape::Number),
            ("b".to_string(), Shape::Optional(Shape::String.boxed())),
        ]),
    ];
    for s in shapes {
        assert_eq!(s.unify(&s), s);
    }
}

#[test]
fn unify_flattens_and_deduplicates_unions() {
    let lhs = Shape::Union(vec![Shape::Number, Shape::String]);
    let rhs = Shape::Union(vec![Shape::String, Shape::Bool]);
    assert_eq!(
        lhs.unify(&rhs),
        Shape::Union(vec![Shape::Number, Shape::String, Shape::Bool])
    );
}

#[test]
fn unify_union_with_other_kind() {
    let union = Shape::Union(vec![Shape::Number, Shape::String]);
    assert_eq!(
        union.unify(&Shape::Bool),
        Shape::Union(vec![Shape::Number, Shape::String, Shape::Bool])
    );
    assert_eq!(
        Shape::Bool.unify(&union),
        Shape::Union(vec![Shape::Bool, Shape::Number, Shape::String])
    );
    // a member already present is not added again
    assert_eq!(union.unify(&Shape::String), union);
}

#[test]
fn unify_optionals_joins_inside_wrapper() {
    assert_eq!(
        Shape::Optional(Shape::Number.boxed()).unify(&Shape::Optional(Shape::Number.boxed())),
        Shape::Optional(Shape::Number.boxed())
    );
    assert_eq!(
        Shape::Optional(Shape::Number.boxed()).unify(&Shape::Optional(Shape::String.boxed())),
        Shape::Optional(Shape::Union(vec![Shape::Number, Shape::String]).boxed())
    );
}

#[test]
fn unify_optional_with_other_kind_stays_union() {
    // the documented asymmetry: a differing non-optional operand joins an
    // optional in a union, not inside the optional wrapper
    assert_eq!(
        Shape::Optional(Shape::Number.boxed()).unify(&Shape::String),
        Shape::Union(vec![
            Shape::Optional(Shape::Number.boxed()),
            Shape::String,
        ])
    );
}

#[test]
fn unify_missing_key_wraps_once() {
    // an already-optional field of a one-sided key is not wrapped again
    let lhs = Shape::Object(vec![(
        "a".to_string(),
        Shape::Optional(Shape::Number.boxed()),
    )]);
    let rhs = Shape::Object(vec![]);
    assert_eq!(
        lhs.unify(&rhs),
        Shape::Object(vec![(
            "a".to_string(),
            Shape::Optional(Shape::Number.boxed()),
        )])
    );
}

#[test]
fn unify_nested_objects() {
    let lhs = Shape::Object(vec![(
        "outer".to_string(),
        Shape::Object(vec![("x".to_string(), Shape::Number)]),
    )]);
    let rhs = Shape::Object(vec![(
        "outer".to_string(),
        Shape::Object(vec![("y".to_string(), Shape::String)]),
    )]);
    let expected = Shape::Object(vec![(
        "outer".to_string(),
        Shape::Object(vec![
            ("x".to_string(), Shape::Optional(Shape::Number.boxed())),
            ("y".to_string(), Shape::Optional(Shape::String.boxed())),
        ]),
    )]);
    assert_eq!(expected, lhs.unify(&rhs));
}
