use sync_types::encoding::{string_to_u64, u64_to_string};
use sync_types::error::DecodeError;
use sync_types::json::{JsonNumber, JsonValue};
use sync_types::value::Value;

fn s(x: &str) -> JsonValue {
    JsonValue::String(x.to_string())
}

fn obj(members: Vec<(&str, JsonValue)>) -> JsonValue {
    JsonValue::Object(members.into_iter().map(|(k, v)| (k.to_string(), v)).collect())
}

fn assert_roundtrips(v: Value) {
    let j = v.to_json();
    let back = Value::from_json(&j).unwrap();
    assert_eq!(back, v);
}

#[test]
fn test_value_roundtrips_trophies() {
    let trophies = vec![
        Value::Float64(1.0f64.to_bits()),
        Value::Float64(f64::NAN.to_bits()),
        Value::Array(vec![Value::Float64(f64::NAN.to_bits())]),
    ];
    for trophy in trophies {
        assert_roundtrips(trophy);
    }
}

#[test]
fn composite_values_round_trip() {
    let v = Value::Object(vec![
        ("a".to_string(), Value::Int64(-2)),
        ("b".to_string(), Value::Bytes(vec![1, 2, 3])),
        (
            "c".to_string(),
            Value::ValueSet(vec![Value::Float64(f64::NAN.to_bits()), Value::Null]),
        ),
        (
            "d".to_string(),
            Value::ValueMap(vec![(Value::String("k".to_string()), Value::Boolean(true))]),
        ),
        ("e".to_string(), Value::Id("doc".to_string())),
        ("f".to_string(), Value::Float64((-0.0f64).to_bits())),
        ("g".to_string(), Value::Float64(f64::INFINITY.to_bits())),
    ]);
    assert_roundtrips(v);
}

#[test]
fn nan_encodes_as_float_object() {
    let j = Value::Float64(f64::NAN.to_bits()).to_json();
    assert_eq!(j, obj(vec![("$float", s("AAAAAAAA+H8="))]));
    match Value::from_json(&j).unwrap() {
        Value::Float64(b) => assert_eq!(b, f64::NAN.to_bits()),
        _ => panic!("expected a double"),
    }
    let in_set = Value::ValueSet(vec![Value::Float64(f64::NAN.to_bits())]);
    assert_roundtrips(in_set);
}

#[test]
fn one_encodes_as_bare_number() {
    let j = Value::Float64(1.0f64.to_bits()).to_json();
    assert_eq!(j, JsonValue::Number(JsonNumber::Float(0x3ff0000000000000)));
}

#[test]
fn specials_use_float_object() {
    let neg_zero = Value::Float64((-0.0f64).to_bits()).to_json();
    assert_eq!(neg_zero, obj(vec![("$float", s("AAAAAAAAAIA="))]));
    let inf = Value::Float64(f64::INFINITY.to_bits()).to_json();
    assert_eq!(inf, obj(vec![("$float", s("AAAAAAAA8H8="))]));
    let zero = Value::Float64(0.0f64.to_bits()).to_json();
    assert_eq!(zero, JsonValue::Number(JsonNumber::Float(0)));
    let sub = Value::Float64(1);
    assert_eq!(sub.to_json(), JsonValue::Number(JsonNumber::Float(1)));
}

#[test]
fn redundant_float_object_fails() {
    let j = obj(vec![("$float", s("AAAAAAAA8D8="))]);
    assert_eq!(Value::from_json(&j), Err(DecodeError::RedundantFloatEncoding));
    let plus_zero = obj(vec![("$float", s("AAAAAAAAAAA="))]);
    assert_eq!(Value::from_json(&plus_zero), Err(DecodeError::RedundantFloatEncoding));
    let short = obj(vec![("$float", s("AQID"))]);
    assert_eq!(Value::from_json(&short), Err(DecodeError::MalformedEncoding));
}

#[test]
fn duplicate_set_element_fails() {
    let j = obj(vec![("$set", JsonValue::Array(vec![s("x"), s("x")]))]);
    assert_eq!(Value::from_json(&j), Err(DecodeError::DuplicateSetElement));
}

#[test]
fn duplicate_map_key_fails() {
    let pair = |v: bool| JsonValue::Array(vec![s("k"), JsonValue::Bool(v)]);
    let j = obj(vec![("$map", JsonValue::Array(vec![pair(true), pair(false)]))]);
    assert_eq!(Value::from_json(&j), Err(DecodeError::DuplicateMapKey));
}

#[test]
fn reserved_tag_with_bad_payload_fails() {
    let j = obj(vec![("$set", s("x"))]);
    assert_eq!(Value::from_json(&j), Err(DecodeError::ReservedTagAbuse));
    let m = obj(vec![("$map", JsonValue::Array(vec![s("x")]))]);
    assert_eq!(Value::from_json(&m), Err(DecodeError::ReservedTagAbuse));
}

#[test]
fn unknown_tag_is_an_object() {
    let j = obj(vec![("$foo", JsonValue::Bool(true))]);
    assert_eq!(
        Value::from_json(&j),
        Ok(Value::Object(vec![("$foo".to_string(), Value::Boolean(true))]))
    );
}

#[test]
fn integer_and_bytes_tokens() {
    assert_eq!(Value::Int64(1).to_json(), obj(vec![("$integer", s("AQAAAAAAAAA="))]));
    assert_eq!(Value::Int64(-2).to_json(), obj(vec![("$integer", s("/v////////8="))]));
    assert_eq!(Value::Bytes(vec![1, 2, 3]).to_json(), obj(vec![("$bytes", s("AQID"))]));
    assert_eq!(
        Value::from_json(&obj(vec![("$integer", s("/v////////8="))])),
        Ok(Value::Int64(-2))
    );
    assert_eq!(
        Value::from_json(&obj(vec![("$bytes", s("!!"))])),
        Err(DecodeError::MalformedEncoding)
    );
}

#[test]
fn integer_numbers_decode_as_doubles() {
    let seven = JsonValue::Number(JsonNumber::PosInt(7));
    assert_eq!(Value::from_json(&seven), Ok(Value::Float64(7.0f64.to_bits())));
    let minus_three = JsonValue::Number(JsonNumber::NegInt(-3));
    assert_eq!(Value::from_json(&minus_three), Ok(Value::Float64((-3.0f64).to_bits())));
}

#[test]
fn u64_token_round_trips() {
    let x: u64 = 1 << 60;
    let t = u64_to_string(x);
    assert_eq!(t, "AAAAAAAAABA=");
    assert_eq!(string_to_u64(&t), Ok(x));
    assert_eq!(string_to_u64(&u64_to_string(u64::MAX)), Ok(u64::MAX));
    assert_eq!(string_to_u64("AQID"), Err(DecodeError::MalformedEncoding));
}
