//! Conversion of sample values to shapes, and the inference driver.

use procyon::shape::Shape;
use procyon::value::{infer, shape_of, Value};

#[test]
fn unify_values() {
    let lhs = shape_of(&Value::Object(vec![
        ("a".to_string(), Value::Number(1)),
        ("b".to_string(), Value::String("hello".to_string())),
    ]));

    let rhs = shape_of(&Value::Object(vec![
        ("a".to_string(), Value::Number(2)),
        ("c".to_string(), Value::Bool(true)),
    ]));

    let expected = Shape::Object(vec![
        ("a".to_string(), Shape::Number),
        ("b".to_string(), Shape::Optional(Shape::String.boxed())),
        ("c".to_string(), Shape::Optional(Shape::Bool.boxed())),
    ]);

    assert_eq!(expected, lhs.unify(&rhs));
}

#[test]
fn convert_leaves() {
    assert_eq!(shape_of(&Value::Null), Shape::Null);
    assert_eq!(shape_of(&Value::Bool(false)), Shape::Bool);
    assert_eq!(shape_of(&Value::Number(-3)), Shape::Number);
    assert_eq!(shape_of(&Value::String("x".to_string())), Shape::String);
}

#[test]
fn convert_empty_array() {
    assert_eq!(
        shape_of(&Value::Array(vec![])),
        Shape::Array(Shape::Unknown.boxed())
    );
}

#[test]
fn convert_heterogeneous_array() {
    // converting [1, 2, "three"] directly yields (number | string)[]
    let sample = Value::Array(vec![
        Value::Number(1),
        Value::Number(2),
        Value::String("three".to_string()),
    ]);
    assert_eq!(
        shape_of(&sample),
        Shape::Array(Shape::Union(vec![Shape::Number, Shape::String]).boxed())
    );
}

#[test]
fn convert_orders_object_keys() {
    let sample = Value::Object(vec![
        ("b".to_string(), Value::Number(2)),
        ("a".to_string(), Value::Number(1)),
    ]);
    assert_eq!(
        shape_of(&sample),
        Shape::Object(vec![
            ("a".to_string(), Shape::Number),
            ("b".to_string(), Shape::Number),
        ])
    );
}

#[test]
fn convert_orders_keys_by_utf8_bytes() {
    // multi-byte keys sort after one-byte keys in UTF-8 byte order
    let sample = Value::Object(vec![
        ("\u{e9}".to_string(), Value::Bool(true)),
        ("z".to_string(), Value::Null),
    ]);
    assert_eq!(
        shape_of(&sample),
        Shape::Object(vec![
            ("z".to_string(), Shape::Null),
            ("\u{e9}".to_string(), Shape::Bool),
        ])
    );
}

#[test]
fn convert_repeated_key_keeps_last_binding() {
    let sample = Value::Object(vec![
        ("a".to_string(), Value::Number(1)),
        ("a".to_string(), Value::String("x".to_string())),
    ]);
    assert_eq!(
        shape_of(&sample),
        Shape::Object(vec![("a".to_string(), Shape::String)])
    );
}

#[test]
fn infer_empty_sequence_is_unknown() {
    assert_eq!(infer(&vec![]), Shape::Unknown);
}

#[test]
fn infer_object_samples() {
    // folding [{"a":1,"b":"x"}, {"a":2,"c":true}]
    let samples = vec![
        Value::Object(vec![
            ("a".to_string(), Value::Number(1)),
            ("b".to_string(), Value::String("x".to_string())),
        ]),
        Value::Object(vec![
            ("a".to_string(), Value::Number(2)),
            ("c".to_string(), Value::Bool(true)),
        ]),
    ];
    let expected = Shape::Object(vec![
        ("a".to_string(), Shape::Number),
        ("b".to_string(), Shape::Optional(Shape::String.boxed())),
        ("c".to_string(), Shape::Optional(Shape::Bool.boxed())),
    ]);
    assert_eq!(infer(&samples), expected);
}

#[test]
fn infer_single_sample_is_its_shape() {
    let samples = vec![Value::Array(vec![Value::Null])];
    assert_eq!(infer(&samples), Shape::Array(Shape::Null.boxed()));
}

#[test]
fn infer_mixed_kinds_fold_into_union() {
    let samples = vec![
        Value::Number(7),
        Value::String("seven".to_string()),
        Value::Number(8),
    ];
    assert_eq!(
        infer(&samples),
        Shape::Union(vec![Shape::Number, Shape::String])
    );
}

#[test]
fn infer_null_key_differs_from_absent_key() {
    // a key present with a null value is not the same as an absent key
    let samples = vec![
        Value::Object(vec![("a".to_string(), Value::Null)]),
        Value::Object(vec![("a".to_string(), Value::Number(1))]),
    ];
    assert_eq!(
        infer(&samples),
        Shape::Object(vec![(
            "a".to_string(),
            Shape::Union(vec![Shape::Null, Shape::Number]),
        )])
    );
}
