use crush_core::errors::CrushError;
use crush_core::json::{from_json, to_json, Json};
use crush_core::value::{
    BinaryStream, ColumnType, Duration, Row, Struct, Table, TableStream, Time, Value, ValueType,
};

fn obj(fields: Vec<(&str, Json)>) -> Json {
    Json::Object(
        fields
            .into_iter()
            .map(|(k, v)| (k.to_string(), v))
            .collect(),
    )
}

#[test]
fn decode_empty_array_is_empty_value() {
    let v = from_json(&Json::Array(vec![]));
    assert!(matches!(v, Value::Empty));
}

#[test]
fn decode_struct_array_is_table() {
    let j = Json::Array(vec![
        obj(vec![("a", Json::NumU(1))]),
        obj(vec![("a", Json::NumU(2))]),
    ]);
    let v = from_json(&j);
    match v {
        Value::Table(t) => {
            assert_eq!(t.types.len(), 1);
            assert_eq!(t.types[0].name, "a");
            assert_eq!(t.types[0].cell_type, ValueType::Integer);
            assert_eq!(t.rows.len(), 2);
            assert!(matches!(t.rows[0].cells[0], Value::Integer(1)));
            assert!(matches!(t.rows[1].cells[0], Value::Integer(2)));
        }
        _ => panic!("expected a table"),
    }
}

#[test]
fn decode_mixed_array_is_any_list() {
    let j = Json::Array(vec![Json::NumU(1), Json::String("x".to_string())]);
    let v = from_json(&j);
    match v {
        Value::List(l) => {
            assert_eq!(l.element_type, ValueType::Any);
            assert_eq!(l.elements.len(), 2);
        }
        _ => panic!("expected a list"),
    }
}

#[test]
fn decode_struct_array_with_two_signatures_is_struct_list() {
    let j = Json::Array(vec![
        obj(vec![("a", Json::NumU(1))]),
        obj(vec![("b", Json::NumU(2))]),
    ]);
    let v = from_json(&j);
    match v {
        Value::List(l) => {
            assert_eq!(l.element_type, ValueType::Struct);
            assert_eq!(l.elements.len(), 2);
        }
        _ => panic!("expected a list of structs"),
    }
}

#[test]
fn decode_homogeneous_array_is_typed_list() {
    let j = Json::Array(vec![Json::NumU(1), Json::NumI(-2), Json::NumU(3)]);
    let v = from_json(&j);
    match v {
        Value::List(l) => {
            assert_eq!(l.element_type, ValueType::Integer);
            assert_eq!(l.elements.len(), 3);
            assert!(matches!(l.elements[1], Value::Integer(-2)));
        }
        _ => panic!("expected a list"),
    }
}

#[test]
fn decode_scalars() {
    assert!(matches!(from_json(&Json::Null), Value::Empty));
    assert!(matches!(from_json(&Json::Bool(true)), Value::Bool(true)));
    assert!(matches!(from_json(&Json::NumU(7)), Value::Integer(7)));
    assert!(matches!(from_json(&Json::NumI(-7)), Value::Integer(-7)));
    let bits = 1.5f64.to_bits();
    match from_json(&Json::NumF(bits)) {
        Value::Float(b) => assert_eq!(f64::from_bits(b), 1.5),
        _ => panic!("expected a float"),
    }
    match from_json(&Json::String("hej".to_string())) {
        Value::String(s) => assert_eq!(s, "hej"),
        _ => panic!("expected a string"),
    }
}

#[test]
fn encode_bool_true_is_literal_true() {
    assert!(matches!(to_json(Value::Bool(true)), Ok(Json::Bool(true))));
}

#[test]
fn encode_out_of_range_integer_fails() {
    let r = to_json(Value::Integer((i64::MAX as i128) + 1));
    assert!(matches!(r, Err(CrushError::InvalidData)));
    let ok = to_json(Value::Integer(i64::MAX as i128));
    assert!(matches!(ok, Ok(Json::NumU(u)) if u == i64::MAX as u64));
    let neg = to_json(Value::Integer(-5));
    assert!(matches!(neg, Ok(Json::NumI(-5))));
}

#[test]
fn encode_duration_drops_subsecond_precision() {
    let d = crush_core::duration::new(0, 0, 1500, 0, 0, 0, 0);
    let r = to_json(Value::Duration(d));
    assert!(matches!(r, Ok(Json::NumU(1))));
    let neg = to_json(Value::Duration(Duration {
        nanos: -1_500_000_000,
    }));
    assert!(matches!(neg, Ok(Json::NumI(-1))));
}

#[test]
fn struct_round_trip_drops_inherited_fields() {
    let parent = Struct {
        fields: vec![("a".to_string(), Value::Integer(1))],
        parent: None,
    };
    let child = Struct {
        fields: vec![("b".to_string(), Value::Integer(2))],
        parent: Some(Box::new(parent)),
    };
    let encoded = to_json(Value::Struct(child)).unwrap();
    match &encoded {
        Json::Object(o) => {
            assert_eq!(o.len(), 1);
            assert_eq!(o[0].0, "b");
        }
        _ => panic!("expected an object"),
    }
    match from_json(&encoded) {
        Value::Struct(st) => {
            assert_eq!(st.fields.len(), 1);
            assert_eq!(st.fields[0].0, "b");
            assert!(st.parent.is_none());
        }
        _ => panic!("expected a struct"),
    }
}

#[test]
fn encode_unsupported_variants_fail() {
    assert!(matches!(
        to_json(Value::Empty),
        Err(CrushError::Unsupported(ValueType::Empty))
    ));
    let cmd = Value::Command(crush_core::value::Command {
        name: "ls".to_string(),
    });
    assert!(matches!(
        to_json(cmd),
        Err(CrushError::Unsupported(ValueType::Command))
    ));
}

#[test]
fn encode_time_is_rfc3339_text() {
    let r = to_json(Value::Time(Time { nanos: 0 }));
    match r {
        Ok(Json::String(s)) => assert_eq!(s, "1970-01-01T00:00:00+00:00"),
        _ => panic!("expected a string"),
    }
}

#[test]
fn encode_binary_is_byte_array() {
    let r = to_json(Value::Binary(vec![1, 255]));
    match r {
        Ok(Json::Array(a)) => {
            assert!(matches!(a[0], Json::NumU(1)));
            assert!(matches!(a[1], Json::NumU(255)));
        }
        _ => panic!("expected an array"),
    }
}

#[test]
fn encode_table_is_array_of_objects() {
    let t = Table {
        types: vec![ColumnType {
            name: "n".to_string(),
            cell_type: ValueType::Integer,
        }],
        rows: vec![
            Row {
                cells: vec![Value::Integer(1)],
            },
            Row {
                cells: vec![Value::Integer(2)],
            },
        ],
    };
    let r = to_json(Value::Table(t)).unwrap();
    match r {
        Json::Array(a) => {
            assert_eq!(a.len(), 2);
            match &a[1] {
                Json::Object(o) => {
                    assert_eq!(o[0].0, "n");
                    assert!(matches!(o[0].1, Json::NumU(2)));
                }
                _ => panic!("expected an object row"),
            }
        }
        _ => panic!("expected an array"),
    }
}

#[test]
fn encode_materializes_streams() {
    let bs = Value::BinaryStream(BinaryStream {
        bytes: vec![9, 8, 7],
        next: 1,
    });
    match to_json(bs) {
        Ok(Json::Array(a)) => {
            assert_eq!(a.len(), 2);
            assert!(matches!(a[0], Json::NumU(8)));
        }
        _ => panic!("expected an array"),
    }
    let ts = Value::TableStream(TableStream {
        types: vec![ColumnType {
            name: "x".to_string(),
            cell_type: ValueType::Integer,
        }],
        rows: vec![Row {
            cells: vec![Value::Integer(4)],
        }],
        next: 0,
    });
    match to_json(ts) {
        Ok(Json::Array(a)) => assert_eq!(a.len(), 1),
        _ => panic!("expected an array"),
    }
}

#[test]
fn materialize_is_identity_on_concrete_values() {
    let v = Value::Integer(3).materialize();
    assert!(matches!(v, Value::Integer(3)));
}

#[test]
fn encode_first_error_wins() {
    let l = crush_core::value::List {
        element_type: ValueType::Any,
        elements: vec![
            Value::Bool(true),
            Value::Empty,
            Value::Integer((i64::MAX as i128) + 1),
        ],
    };
    assert!(matches!(
        to_json(Value::List(l)),
        Err(CrushError::Unsupported(ValueType::Empty))
    ));
}

#[test]
fn materialization_checks() {
    let v = Value::Integer(1);
    assert!(v.is_materialized());
    assert!(v.can_materialize());
    let bs = Value::BinaryStream(BinaryStream {
        bytes: vec![1],
        next: 0,
    });
    assert!(!bs.is_materialized());
    assert!(bs.can_materialize());
    let nested = Value::List(crush_core::value::List {
        element_type: ValueType::Any,
        elements: vec![Value::BinaryStream(BinaryStream {
            bytes: vec![],
            next: 0,
        })],
    });
    assert!(!nested.is_materialized());
    assert!(!nested.can_materialize());
}
