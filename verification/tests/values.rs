use pbuild::document::Node;
use pbuild::value::{Type, Value};

const ALL: [Type; 11] = [
    Type::String,
    Type::Bool,
    Type::U8,
    Type::U16,
    Type::U32,
    Type::U64,
    Type::I8,
    Type::I16,
    Type::I32,
    Type::I64,
    Type::Uuid,
];

#[test]
fn type_names_round_trip() {
    for ty in ALL {
        assert_eq!(Type::parse(ty.as_str()), Some(ty));
    }
}

#[test]
fn type_name_aliases() {
    assert_eq!(Type::parse("str"), Some(Type::String));
    assert_eq!(Type::parse("String"), Some(Type::String));
    assert_eq!(Type::parse("Bool"), Some(Type::Bool));
    assert_eq!(Type::parse("boolean"), Some(Type::Bool));
    assert_eq!(Type::parse("Uuid"), Some(Type::Uuid));
    assert_eq!(Type::parse("U8"), None);
    assert_eq!(Type::parse(""), None);
    assert_eq!(Type::parse("u128"), None);
    assert_eq!(Type::parse(" u8"), None);
}

#[test]
fn defaults_are_zero_values() {
    assert_eq!(Value::default(Type::String), Value::String(String::new()));
    assert_eq!(Value::default(Type::Bool), Value::Bool(false));
    assert_eq!(Value::default(Type::U8), Value::U8(0));
    assert_eq!(Value::default(Type::U16), Value::U16(0));
    assert_eq!(Value::default(Type::U32), Value::U32(0));
    assert_eq!(Value::default(Type::U64), Value::U64(0));
    assert_eq!(Value::default(Type::I8), Value::I8(0));
    assert_eq!(Value::default(Type::I16), Value::I16(0));
    assert_eq!(Value::default(Type::I32), Value::I32(0));
    assert_eq!(Value::default(Type::I64), Value::I64(0));
    assert_eq!(Value::default(Type::Uuid), Value::Uuid(0));
    for ty in ALL {
        assert_eq!(Value::default(ty).ty(), ty);
    }
}

#[test]
fn coerce_matching_scalars() {
    assert_eq!(
        Value::new(Type::String, &Node::String("abc".to_string())),
        Some(Value::String("abc".to_string()))
    );
    assert_eq!(Value::new(Type::Bool, &Node::Boolean(true)), Some(Value::Bool(true)));
    assert_eq!(Value::new(Type::U8, &Node::Integer(255)), Some(Value::U8(255)));
    assert_eq!(Value::new(Type::U16, &Node::Integer(65535)), Some(Value::U16(65535)));
    assert_eq!(
        Value::new(Type::U32, &Node::Integer(4294967295)),
        Some(Value::U32(4294967295))
    );
    assert_eq!(
        Value::new(Type::U64, &Node::Integer(i64::MAX)),
        Some(Value::U64(i64::MAX as u64))
    );
    assert_eq!(Value::new(Type::I8, &Node::Integer(-128)), Some(Value::I8(-128)));
    assert_eq!(Value::new(Type::I16, &Node::Integer(-32768)), Some(Value::I16(-32768)));
    assert_eq!(
        Value::new(Type::I32, &Node::Integer(-2147483648)),
        Some(Value::I32(-2147483648))
    );
    assert_eq!(
        Value::new(Type::I64, &Node::Integer(i64::MIN)),
        Some(Value::I64(i64::MIN))
    );
}

#[test]
fn coerce_out_of_range_is_none() {
    assert_eq!(Value::new(Type::U8, &Node::Integer(300)), None);
    assert_eq!(Value::new(Type::U8, &Node::Integer(256)), None);
    assert_eq!(Value::new(Type::U8, &Node::Integer(-1)), None);
    assert_eq!(Value::new(Type::U16, &Node::Integer(65536)), None);
    assert_eq!(Value::new(Type::U32, &Node::Integer(4294967296)), None);
    assert_eq!(Value::new(Type::U64, &Node::Integer(-1)), None);
    assert_eq!(Value::new(Type::I8, &Node::Integer(128)), None);
    assert_eq!(Value::new(Type::I8, &Node::Integer(-129)), None);
    assert_eq!(Value::new(Type::I16, &Node::Integer(32768)), None);
    assert_eq!(Value::new(Type::I32, &Node::Integer(2147483648)), None);
}

#[test]
fn coerce_wrong_kind_is_none() {
    assert_eq!(Value::new(Type::String, &Node::Integer(1)), None);
    assert_eq!(Value::new(Type::String, &Node::Boolean(true)), None);
    assert_eq!(Value::new(Type::Bool, &Node::String("true".to_string())), None);
    assert_eq!(Value::new(Type::Bool, &Node::Integer(1)), None);
    assert_eq!(Value::new(Type::U8, &Node::String("1".to_string())), None);
    assert_eq!(Value::new(Type::I64, &Node::Float), None);
    assert_eq!(Value::new(Type::I64, &Node::Datetime), None);
    assert_eq!(Value::new(Type::U8, &Node::Array(vec![Node::Integer(1)])), None);
    assert_eq!(Value::new(Type::String, &Node::Table(vec![])), None);
    assert_eq!(Value::new(Type::Uuid, &Node::Integer(0)), None);
}

#[test]
fn narrow_keeps_only_integer_kinds() {
    assert_eq!(Value::narrow(Type::U8, 7), Some(Value::U8(7)));
    assert_eq!(Value::narrow(Type::String, 7), None);
    assert_eq!(Value::narrow(Type::Bool, 1), None);
    assert_eq!(Value::narrow(Type::Uuid, 1), None);
}

#[test]
fn coerce_uuid_from_text() {
    assert_eq!(
        Value::new(
            Type::Uuid,
            &Node::String("936DA01F-9ABD-4D9D-80C7-02AF85C822A8".to_string())
        ),
        Some(Value::Uuid(0x936DA01F9ABD4D9D80C702AF85C822A8))
    );
    assert_eq!(
        Value::new(
            Type::Uuid,
            &Node::String("936da01f9abd4d9d80c702af85c822a8".to_string())
        ),
        Some(Value::Uuid(0x936DA01F9ABD4D9D80C702AF85C822A8))
    );
    assert_eq!(
        Value::new(
            Type::Uuid,
            &Node::String("00000000-0000-0000-0000-000000000000".to_string())
        ),
        Some(Value::Uuid(0))
    );
}

#[test]
fn coerce_malformed_uuid_is_none() {
    assert_eq!(Value::new(Type::Uuid, &Node::String("".to_string())), None);
    assert_eq!(Value::new(Type::Uuid, &Node::String("not a uuid".to_string())), None);
    assert_eq!(
        Value::new(
            Type::Uuid,
            &Node::String("936DA01F-9ABD-4D9D-80C7-02AF85C822AG".to_string())
        ),
        None
    );
    assert_eq!(
        Value::new(
            Type::Uuid,
            &Node::String("936DA01F9ABD-4D9D-80C7-02AF85C822A8-".to_string())
        ),
        None
    );
    assert_eq!(
        Value::new(
            Type::Uuid,
            &Node::String("éééééééééééééééééé".to_string())
        ),
        None
    );
}

#[test]
fn value_kinds() {
    assert_eq!(Value::String("x".to_string()).ty(), Type::String);
    assert_eq!(Value::Bool(true).ty(), Type::Bool);
    assert_eq!(Value::U8(1).ty(), Type::U8);
    assert_eq!(Value::I64(-1).ty(), Type::I64);
    assert_eq!(Value::Uuid(1).ty(), Type::Uuid);
}

#[test]
fn new_or_default_falls_back_to_zero() {
    assert_eq!(Value::new_or_default(Type::U8, &Node::Integer(7)), Value::U8(7));
    assert_eq!(Value::new_or_default(Type::U8, &Node::Integer(300)), Value::U8(0));
    assert_eq!(
        Value::new_or_default(Type::String, &Node::Integer(300)),
        Value::String(String::new())
    );
    assert_eq!(
        Value::new_or_default(Type::Uuid, &Node::String("x".to_string())),
        Value::Uuid(0)
    );
}
