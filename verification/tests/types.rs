use contract_database::types::{TupleTypeSignature, TypeSignature, Value};

fn pair_type() -> TypeSignature {
    TypeSignature::Tuple(vec![
        ("id".to_string(), TypeSignature::Int),
        ("tag".to_string(), TypeSignature::Buffer(4)),
    ])
}

fn pair(id: i128, tag: &[u8]) -> Value {
    Value::Tuple(vec![
        ("id".to_string(), Value::Int(id)),
        ("tag".to_string(), Value::Buffer(tag.to_vec())),
    ])
}

#[test]
fn atoms_are_admitted_by_their_own_type_only() {
    let values = vec![
        Value::Void,
        Value::Int(-3),
        Value::Bool(true),
        Value::Buffer(vec![1, 2]),
        Value::Principal(vec![7; 21]),
    ];
    let types = vec![
        TypeSignature::Void,
        TypeSignature::Int,
        TypeSignature::Bool,
        TypeSignature::Buffer(2),
        TypeSignature::Principal,
    ];
    for (i, t) in types.iter().enumerate() {
        for (j, v) in values.iter().enumerate() {
            assert_eq!(t.admits(v), i == j);
        }
    }
}

#[test]
fn buffer_is_admitted_up_to_its_bound() {
    let t = TypeSignature::Buffer(3);
    assert!(t.admits(&Value::Buffer(vec![])));
    assert!(t.admits(&Value::Buffer(vec![1, 2, 3])));
    assert!(!t.admits(&Value::Buffer(vec![1, 2, 3, 4])));
    assert!(TypeSignature::Buffer(0).admits(&Value::Buffer(vec![])));
    assert!(!TypeSignature::Buffer(0).admits(&Value::Buffer(vec![0])));
}

#[test]
fn tuple_is_admitted_field_by_field() {
    let t = pair_type();
    assert!(t.admits(&pair(1, b"abcd")));
    assert!(!t.admits(&pair(1, b"abcde")));
    assert!(!t.admits(&Value::Int(1)));
    assert!(!t.admits(&Value::Tuple(vec![("id".to_string(), Value::Int(1))])));
    assert!(!t.admits(&Value::Tuple(vec![
        ("tag".to_string(), Value::Buffer(vec![])),
        ("id".to_string(), Value::Int(1)),
    ])));
    assert!(!t.admits(&Value::Tuple(vec![
        ("id".to_string(), Value::Int(1)),
        ("label".to_string(), Value::Buffer(vec![])),
    ])));
    assert!(!t.admits(&Value::Tuple(vec![
        ("id".to_string(), Value::Bool(true)),
        ("tag".to_string(), Value::Buffer(vec![])),
    ])));
    assert!(TypeSignature::Tuple(vec![]).admits(&Value::Tuple(vec![])));
}

#[test]
fn nested_tuple_is_admitted() {
    let t = TypeSignature::Tuple(vec![("inner".to_string(), pair_type())]);
    assert!(t.admits(&Value::Tuple(vec![("inner".to_string(), pair(2, b"x"))])));
    assert!(!t.admits(&Value::Tuple(vec![("inner".to_string(), pair(2, b"too long"))])));
    assert!(!t.admits(&pair(2, b"x")));
}

#[test]
fn values_compare_by_content() {
    assert_eq!(pair(1, b"a"), pair(1, b"a"));
    assert_ne!(pair(1, b"a"), pair(2, b"a"));
    assert_ne!(pair(1, b"a"), pair(1, b"b"));
    assert_ne!(Value::Buffer(vec![1]), Value::Principal(vec![1]));
    assert_ne!(Value::Void, Value::Bool(false));
    assert_ne!(Value::Int(0), Value::Bool(false));
    assert_eq!(Value::Void, Value::Void);
    assert_ne!(
        Value::Tuple(vec![("a".to_string(), Value::Int(1))]),
        Value::Tuple(vec![("b".to_string(), Value::Int(1))])
    );
    assert_ne!(Value::Tuple(vec![]), Value::Tuple(vec![("a".to_string(), Value::Void)]));
}

#[test]
fn clones_are_equal_to_their_source() {
    let v = Value::Tuple(vec![("inner".to_string(), pair(2, b"x")), ("p".to_string(), Value::Principal(vec![9; 21]))]);
    assert_eq!(v.clone(), v);
    let t = TypeSignature::Tuple(vec![("inner".to_string(), pair_type())]);
    assert_eq!(t.clone(), t);
}

#[test]
fn tuple_signature_becomes_a_tuple_type() {
    let fields = vec![("id".to_string(), TypeSignature::Int), ("tag".to_string(), TypeSignature::Buffer(4))];
    let t = TupleTypeSignature::new(fields);
    assert_eq!(t.into_signature(), pair_type());
}
