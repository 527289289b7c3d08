use crush_core::errors::CrushError;
use crush_core::registry::{invoke, Method, Registry};
use crush_core::value::{Duration, Time, Value, ValueType};

#[test]
fn duration_plus_duration() {
    let this = Value::Duration(Duration { nanos: 1_000 });
    let args = vec![Value::Duration(Duration { nanos: 500 })];
    let r = crush_core::duration::add(&this, &args);
    assert!(matches!(r, Ok(Value::Duration(Duration { nanos: 1_500 }))));
}

#[test]
fn duration_plus_time_shifts_the_time() {
    let this = Value::Duration(Duration { nanos: 2_000_000_000 });
    let args = vec![Value::Time(Time { nanos: 1_000_000_000 })];
    let r = crush_core::duration::add(&this, &args);
    assert!(matches!(r, Ok(Value::Time(Time { nanos: 3_000_000_000 }))));
}

#[test]
fn duration_minus_duration() {
    let this = Value::Duration(Duration { nanos: 1_000 });
    let args = vec![Value::Duration(Duration { nanos: 1_500 })];
    let r = crush_core::duration::sub(&this, &args);
    assert!(matches!(r, Ok(Value::Duration(Duration { nanos: -500 }))));
}

#[test]
fn duration_times_integer_truncates_the_factor() {
    let this = Value::Duration(Duration { nanos: 7 });
    let args = vec![Value::Integer(3)];
    let r = crush_core::duration::mul(&this, &args);
    assert!(matches!(r, Ok(Value::Duration(Duration { nanos: 21 }))));
    // The factor is coerced to 32-bit signed before applying: 2^32 + 2
    // scales by 2.
    let args = vec![Value::Integer((1i128 << 32) + 2)];
    let r = crush_core::duration::mul(&this, &args);
    assert!(matches!(r, Ok(Value::Duration(Duration { nanos: 14 }))));
}

#[test]
fn duration_divided_by_integer() {
    let this = Value::Duration(Duration { nanos: -7 });
    let args = vec![Value::Integer(2)];
    let r = crush_core::duration::div(&this, &args);
    assert!(matches!(r, Ok(Value::Duration(Duration { nanos: -3 }))));
}

#[test]
fn dispatch_rejects_wrong_argument_type() {
    let this = Value::Duration(Duration { nanos: 1 });
    let args = vec![Value::Bool(true)];
    let r = crush_core::duration::add(&this, &args);
    assert!(matches!(r, Err(CrushError::TypeError)));
}

#[test]
fn dispatch_rejects_wrong_arity() {
    let this = Value::Duration(Duration { nanos: 1 });
    let args = vec![
        Value::Duration(Duration { nanos: 1 }),
        Value::Duration(Duration { nanos: 2 }),
    ];
    let r = crush_core::duration::add(&this, &args);
    assert!(matches!(r, Err(CrushError::ArityError)));
    let r = crush_core::duration::neg(&this, &args);
    assert!(matches!(r, Err(CrushError::ArityError)));
}

#[test]
fn dispatch_rejects_wrong_receiver() {
    let this = Value::Bool(false);
    let args = vec![Value::Duration(Duration { nanos: 1 })];
    let r = crush_core::duration::add(&this, &args);
    assert!(matches!(r, Err(CrushError::ThisError)));
}

#[test]
fn duration_negate() {
    let this = Value::Duration(Duration { nanos: 250 });
    let r = crush_core::duration::neg(&this, &vec![]);
    assert!(matches!(r, Ok(Value::Duration(Duration { nanos: -250 }))));
}

#[test]
fn duration_new_sums_calendar_units() {
    let d = crush_core::duration::new(1, 2, 3, 4, 5, 6, 7);
    let expected: i128 = 1
        + 1000 * 2
        + 1_000_000 * 3
        + 1_000_000_000 * 4
        + 60_000_000_000 * 5
        + 3_600_000_000_000 * 6
        + 86_400_000_000_000 * 7;
    assert_eq!(d.nanos, expected);
}

#[test]
fn to_duration_by_unit_name() {
    let d = crush_core::duration::to_duration(5, "minutes").unwrap();
    assert_eq!(d.nanos, 300_000_000_000);
    let d = crush_core::duration::to_duration(2, "hour").unwrap();
    assert_eq!(d.nanos, 7_200_000_000_000);
    let r = crush_core::duration::to_duration(1, "fortnight");
    assert!(matches!(r, Err(CrushError::InvalidArgument)));
}

#[test]
fn float_negate_flips_the_sign_bit() {
    let this = Value::Float(1.5f64.to_bits());
    let r = crush_core::float::neg(&this, &vec![]);
    match r {
        Ok(Value::Float(bits)) => assert_eq!(f64::from_bits(bits), -1.5),
        _ => panic!("expected a float"),
    }
}

#[test]
fn float_classification() {
    let nan = Value::Float((0.0f64 / 0.0f64).to_bits());
    let r = crush_core::float::is_nan(&nan, &vec![]);
    assert!(matches!(r, Ok(Value::Bool(true))));
    let one = Value::Float(1.0f64.to_bits());
    let r = crush_core::float::is_nan(&one, &vec![]);
    assert!(matches!(r, Ok(Value::Bool(false))));
    let inf = Value::Float(f64::INFINITY.to_bits());
    let r = crush_core::float::is_infinite(&inf, &vec![]);
    assert!(matches!(r, Ok(Value::Bool(true))));
    let r = crush_core::float::is_infinite(&one, &vec![]);
    assert!(matches!(r, Ok(Value::Bool(false))));
}

#[test]
fn string_upper_and_lower() {
    let reg = Registry::new();
    let this = Value::String("abc".to_string());
    let r = invoke(&reg, ValueType::String, &"upper".to_string(), &this, &vec![]);
    match r {
        Ok(Value::String(s)) => assert_eq!(s, "ABC"),
        _ => panic!("expected a string"),
    }
    let this = Value::String("AbC".to_string());
    let r = invoke(&reg, ValueType::String, &"lower".to_string(), &this, &vec![]);
    match r {
        Ok(Value::String(s)) => assert_eq!(s, "abc"),
        _ => panic!("expected a string"),
    }
}

#[test]
fn string_trim() {
    let this = Value::String("  a b \t".to_string());
    let r = crush_core::string::trim(&this, &vec![]);
    match r {
        Ok(Value::String(s)) => assert_eq!(s, "a b"),
        _ => panic!("expected a string"),
    }
    let this = Value::String("   ".to_string());
    let r = crush_core::string::trim(&this, &vec![]);
    match r {
        Ok(Value::String(s)) => assert_eq!(s, ""),
        _ => panic!("expected a string"),
    }
}

#[test]
fn string_split() {
    let this = Value::String("a,b,,c".to_string());
    let args = vec![Value::String(",".to_string())];
    let r = crush_core::string::split(&this, &args);
    match r {
        Ok(Value::List(l)) => {
            assert_eq!(l.element_type, ValueType::String);
            let texts: Vec<String> = l
                .elements
                .iter()
                .map(|v| match v {
                    Value::String(s) => s.clone(),
                    _ => panic!("expected string elements"),
                })
                .collect();
            assert_eq!(texts, vec!["a", "b", "", "c"]);
        }
        _ => panic!("expected a list"),
    }
}

#[test]
fn string_split_empty_separator() {
    let this = Value::String("ab".to_string());
    let args = vec![Value::String(String::new())];
    let r = crush_core::string::split(&this, &args);
    match r {
        Ok(Value::List(l)) => {
            let texts: Vec<String> = l
                .elements
                .iter()
                .map(|v| match v {
                    Value::String(s) => s.clone(),
                    _ => panic!("expected string elements"),
                })
                .collect();
            assert_eq!(texts, vec!["", "a", "b", ""]);
        }
        _ => panic!("expected a list"),
    }
}

#[test]
fn registry_lookup_failure_is_reported() {
    let reg = Registry::new();
    let this = Value::Bool(true);
    let r = invoke(&reg, ValueType::Bool, &"upper".to_string(), &this, &vec![]);
    assert!(matches!(r, Err(CrushError::UnknownMethod)));
    let this = Value::Duration(Duration { nanos: 1 });
    let r = invoke(
        &reg,
        ValueType::Duration,
        &"no_such".to_string(),
        &this,
        &vec![],
    );
    assert!(matches!(r, Err(CrushError::UnknownMethod)));
}

#[test]
fn registry_dispatches_duration_operators() {
    let reg = Registry::new();
    let this = Value::Duration(Duration { nanos: 10 });
    let args = vec![Value::Duration(Duration { nanos: 5 })];
    let r = invoke(&reg, ValueType::Duration, &"__add__".to_string(), &this, &args);
    assert!(matches!(r, Ok(Value::Duration(Duration { nanos: 15 }))));
    let r = invoke(&reg, ValueType::Duration, &"__sub__".to_string(), &this, &args);
    assert!(matches!(r, Ok(Value::Duration(Duration { nanos: 5 }))));
    let r = invoke(&reg, ValueType::Duration, &"__neg__".to_string(), &this, &vec![]);
    assert!(matches!(r, Ok(Value::Duration(Duration { nanos: -10 }))));
}

#[test]
fn registry_float_table_uses_original_names() {
    let reg = Registry::new();
    let inf = Value::Float(f64::NEG_INFINITY.to_bits());
    let r = invoke(&reg, ValueType::Float, &"is_finite".to_string(), &inf, &vec![]);
    assert!(matches!(r, Ok(Value::Bool(true))));
    let r = invoke(&reg, ValueType::Float, &"is_nan".to_string(), &inf, &vec![]);
    assert!(matches!(r, Ok(Value::Bool(false))));
}

#[test]
fn registry_holds_full_method_tables() {
    let reg = Registry::new();
    assert_eq!(reg.duration_methods.len(), 6);
    assert_eq!(reg.float_methods.len(), 7);
    assert_eq!(reg.string_methods.len(), 5);
    assert_eq!(reg.json_commands.len(), 2);
    assert_eq!(
        reg.string_methods.get(&"format".to_string()),
        Some(Method::StrFormat)
    );
    assert_eq!(
        reg.duration_methods.get(&"new".to_string()),
        Some(Method::DurNew)
    );
    assert_eq!(
        reg.float_methods.get(&"__add__".to_string()),
        Some(Method::FloatAdd)
    );
    assert_eq!(
        reg.json_commands.get(&"from".to_string()),
        Some(Method::JsonFrom)
    );
    // Entries the embedder runs resolve through `invoke` to the
    // unknown-method failure; the embedder intercepts their names first.
    let this = Value::String("a".to_string());
    let r = invoke(&reg, ValueType::String, &"format".to_string(), &this, &vec![]);
    assert!(matches!(r, Err(CrushError::UnknownMethod)));
}

#[test]
fn full_method_paths() {
    let p = crush_core::duration::full("__add__");
    assert_eq!(p, vec!["global", "types", "duration", "__add__"]);
    let p = crush_core::float::full("is_nan");
    assert_eq!(p, vec!["global", "types", "float", "is_nan"]);
}

#[test]
fn error_messages_identify_the_failure() {
    assert_eq!(CrushError::ArityError.message(), "wrong number of arguments");
    assert_eq!(
        CrushError::TypeError.message(),
        "expected only arguments of a compatible type"
    );
    assert_eq!(CrushError::ThisError.message(), "receiver has the wrong type");
    assert_eq!(CrushError::InvalidArgument.message(), "invalid duration");
    assert_eq!(CrushError::InvalidData.message(), "value cannot be represented");
    assert_eq!(
        CrushError::Unsupported(ValueType::Command).message(),
        "unsupported data type command"
    );
    assert_eq!(
        CrushError::Unsupported(ValueType::TableStream).message(),
        "unsupported data type table_stream"
    );
    assert_eq!(CrushError::UnknownMethod.message(), "unknown method");
    assert_eq!(ValueType::Duration.name_text(), "duration");
}

#[test]
fn struct_accessors() {
    let parent = crush_core::value::Struct {
        fields: vec![("a".to_string(), Value::Integer(1))],
        parent: None,
    };
    let child = crush_core::value::Struct {
        fields: vec![("b".to_string(), Value::Integer(2))],
        parent: Some(Box::new(parent)),
    };
    let sig = child.local_signature();
    assert_eq!(sig.len(), 1);
    assert_eq!(sig[0].name, "b");
    assert_eq!(sig[0].cell_type, ValueType::Integer);
    let full = child.full_elements();
    let names: Vec<&str> = full.iter().map(|f| f.0.as_str()).collect();
    assert_eq!(names, vec!["a", "b"]);
}
