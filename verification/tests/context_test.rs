use dredd_rs::context::{ContextValue, RuleContext};
use dredd_rs::error::RuleError;

#[test]
fn bool_round_trip_and_other_kinds_fail() {
    let mut ctx = RuleContext::new();
    ctx.set_bool("k", true);
    assert_eq!(ctx.get_bool("k"), Ok(true));
    assert_eq!(
        ctx.get_int("k"),
        Err(RuleError::TypeMismatch { key: "k", expected: "i64" })
    );
    assert_eq!(
        ctx.get_float("k"),
        Err(RuleError::TypeMismatch { key: "k", expected: "f64" })
    );
    assert_eq!(
        ctx.get_string("k"),
        Err(RuleError::TypeMismatch { key: "k", expected: "String" })
    );
    assert_eq!(
        ctx.get_bytes("k"),
        Err(RuleError::TypeMismatch { key: "k", expected: "Vec<u8>" })
    );
}

#[test]
fn a_read_of_another_kind_names_the_key_that_was_read() {
    let mut ctx = RuleContext::new();
    ctx.set_bool("flag", true);
    match ctx.get_int("flag") {
        Err(RuleError::TypeMismatch { key, expected }) => {
            assert_eq!(key, "flag");
            assert_eq!(expected, "i64");
        }
        other => panic!("expected a TypeMismatch, got {:?}", other),
    }
    ctx.set_int("count", 3);
    assert_eq!(
        ctx.get_bool("count"),
        Err(RuleError::TypeMismatch { key: "count", expected: "bool" })
    );
    ctx.set_bytes("blob", vec![1]);
    assert_eq!(
        ctx.get_string("blob"),
        Err(RuleError::TypeMismatch { key: "blob", expected: "String" })
    );
    ctx.set_string("name", String::from("n"));
    assert_eq!(
        ctx.get_bytes("name"),
        Err(RuleError::TypeMismatch { key: "name", expected: "Vec<u8>" })
    );
    assert_eq!(
        ctx.get_float("name"),
        Err(RuleError::TypeMismatch { key: "name", expected: "f64" })
    );
}

#[test]
fn int_round_trip_and_other_kinds_fail() {
    let mut ctx = RuleContext::new();
    ctx.set_int("n", -42);
    assert_eq!(ctx.get_int("n"), Ok(-42));
    ctx.set_int("n", i64::MAX);
    assert_eq!(ctx.get_int("n"), Ok(i64::MAX));
    ctx.set_int("n", i64::MIN);
    assert_eq!(ctx.get_int("n"), Ok(i64::MIN));
    assert!(matches!(ctx.get_bool("n"), Err(RuleError::TypeMismatch { expected: "bool", .. })));
    assert!(matches!(ctx.get_float("n"), Err(RuleError::TypeMismatch { .. })));
    assert!(matches!(ctx.get_string("n"), Err(RuleError::TypeMismatch { .. })));
    assert!(matches!(ctx.get_bytes("n"), Err(RuleError::TypeMismatch { .. })));
}

#[test]
fn float_round_trip_keeps_every_bit() {
    let mut ctx = RuleContext::new();
    ctx.set_float("x", 3.25f64.to_bits());
    assert_eq!(f64::from_bits(ctx.get_float("x").unwrap()), 3.25);
    ctx.set_float("x", (-0.0f64).to_bits());
    assert_eq!(ctx.get_float("x"), Ok(0x8000_0000_0000_0000));
    let nan = f64::NAN.to_bits() | 1;
    ctx.set_float("x", nan);
    assert_eq!(ctx.get_float("x"), Ok(nan));
    assert!(f64::from_bits(ctx.get_float("x").unwrap()).is_nan());
    assert!(matches!(ctx.get_int("x"), Err(RuleError::TypeMismatch { .. })));
    assert!(matches!(ctx.get_bool("x"), Err(RuleError::TypeMismatch { .. })));
}

#[test]
fn string_round_trip_and_other_kinds_fail() {
    let mut ctx = RuleContext::new();
    ctx.set_string("s", String::from("héllo"));
    assert_eq!(ctx.get_string("s"), Ok("héllo"));
    ctx.set_string("s", String::new());
    assert_eq!(ctx.get_string("s"), Ok(""));
    assert!(matches!(ctx.get_bytes("s"), Err(RuleError::TypeMismatch { .. })));
    assert!(matches!(ctx.get_bool("s"), Err(RuleError::TypeMismatch { .. })));
}

#[test]
fn bytes_round_trip_and_other_kinds_fail() {
    let mut ctx = RuleContext::new();
    ctx.set_bytes("b", vec![0, 255, 7]);
    assert_eq!(ctx.get_bytes("b"), Ok(&[0u8, 255, 7][..]));
    ctx.set_bytes("b", Vec::new());
    assert_eq!(ctx.get_bytes("b"), Ok(&[][..]));
    assert!(matches!(ctx.get_string("b"), Err(RuleError::TypeMismatch { .. })));
    assert!(matches!(ctx.get_int("b"), Err(RuleError::TypeMismatch { .. })));
}

#[test]
fn missing_key_reads_fail_and_name_the_key() {
    let ctx = RuleContext::new();
    assert_eq!(
        ctx.get_bool("absent"),
        Err(RuleError::TypeMismatch { key: "absent", expected: "bool" })
    );
    assert_eq!(
        ctx.get_int("absent"),
        Err(RuleError::TypeMismatch { key: "absent", expected: "i64" })
    );
    assert_eq!(
        ctx.get_float("absent"),
        Err(RuleError::TypeMismatch { key: "absent", expected: "f64" })
    );
    assert_eq!(
        ctx.get_string("absent"),
        Err(RuleError::TypeMismatch { key: "absent", expected: "String" })
    );
    assert_eq!(
        ctx.get_bytes("absent"),
        Err(RuleError::TypeMismatch { key: "absent", expected: "Vec<u8>" })
    );
    assert!(!ctx.contains_key("absent"));
}

#[test]
fn set_overwrites_a_value_of_another_kind() {
    let mut ctx = RuleContext::new();
    ctx.set_bool("k", true);
    ctx.set_int("k", 5);
    assert_eq!(ctx.get_int("k"), Ok(5));
    assert!(ctx.get_bool("k").is_err());
    ctx.set_string("k", String::from("now text"));
    assert_eq!(ctx.get_string("k"), Ok("now text"));
    assert!(ctx.get_int("k").is_err());
}

#[test]
fn writes_under_one_key_leave_other_keys_alone() {
    let mut ctx = RuleContext::new();
    ctx.set_int("a", 1);
    ctx.set_int("b", 2);
    ctx.set_int("a", 3);
    assert_eq!(ctx.get_int("a"), Ok(3));
    assert_eq!(ctx.get_int("b"), Ok(2));
}

#[test]
fn contains_remove_and_clear() {
    let mut ctx = RuleContext::new();
    assert!(ctx.remove("k").is_none());
    ctx.set_int("k", 9);
    ctx.set_bool("other", false);
    assert!(ctx.contains_key("k"));
    match ctx.remove("k") {
        Some(ContextValue::Int(9)) => {}
        other => panic!("expected the integer that was stored, got {:?}", other),
    }
    assert!(!ctx.contains_key("k"));
    assert!(ctx.get_int("k").is_err());
    assert!(ctx.contains_key("other"));
    assert!(ctx.remove("k").is_none());

    ctx.set_string("s", String::from("text"));
    ctx.set_bytes("b", vec![1, 2]);
    match ctx.remove("s") {
        Some(ContextValue::String(s)) => assert_eq!(s, "text"),
        other => panic!("expected the string that was stored, got {:?}", other),
    }
    match ctx.remove("b") {
        Some(ContextValue::Bytes(b)) => assert_eq!(b, vec![1, 2]),
        other => panic!("expected the bytes that were stored, got {:?}", other),
    }

    ctx.clear();
    assert!(!ctx.contains_key("other"));
    assert!(ctx.get_bool("other").is_err());
}

#[test]
fn default_context_is_empty() {
    let ctx = RuleContext::default();
    assert!(!ctx.contains_key("anything"));
}

#[test]
fn values_read_as_their_own_kind_only() {
    assert_eq!(ContextValue::Bool(true).as_bool(), Ok(true));
    assert_eq!(ContextValue::Int(7).as_int(), Ok(7));
    assert_eq!(ContextValue::Float(1.5f64.to_bits()).as_float(), Ok(1.5f64.to_bits()));
    assert_eq!(ContextValue::String(String::from("s")).as_string(), Ok("s"));
    assert_eq!(ContextValue::Bytes(vec![1]).as_bytes(), Ok(&[1u8][..]));

    assert_eq!(
        ContextValue::Int(7).as_bool(),
        Err(RuleError::TypeMismatch { key: "unknown", expected: "bool" })
    );
    assert_eq!(
        ContextValue::Bool(true).as_int(),
        Err(RuleError::TypeMismatch { key: "unknown", expected: "i64" })
    );
    assert_eq!(
        ContextValue::Bool(true).as_float(),
        Err(RuleError::TypeMismatch { key: "unknown", expected: "f64" })
    );
    assert_eq!(
        ContextValue::Bool(true).as_string(),
        Err(RuleError::TypeMismatch { key: "unknown", expected: "String" })
    );
    assert_eq!(
        ContextValue::Bool(true).as_bytes(),
        Err(RuleError::TypeMismatch { key: "unknown", expected: "Vec<u8>" })
    );
}
