use std::collections::HashMap;

use bencoder::compound::{DictEncoder, ListEncoder};
use bencoder::encoder::{to_string, Encoder};
use bencoder::errors::EncoderError;
use bencoder::key::KeyEncoder;
use bencoder::value::Value;

fn text(s: &str) -> Value {
    Value::Str(s.to_string())
}

#[test]
fn string_encode() {
    assert_eq!(to_string(text("helloworld")), Ok("10:helloworld".to_string()));
}

#[test]
fn number_encode() {
    assert_eq!(to_string(Value::I8(10 as i8)), Ok("i10e".to_string()));
    assert_eq!(to_string(Value::I16(10 as i16)), Ok("i10e".to_string()));
    assert_eq!(to_string(Value::I32(10 as i32)), Ok("i10e".to_string()));
    assert_eq!(to_string(Value::U8(10 as u8)), Ok("i10e".to_string()));
    assert_eq!(to_string(Value::U16(10 as u16)), Ok("i10e".to_string()));
    assert_eq!(to_string(Value::U32(10 as u32)), Ok("i10e".to_string()));
}

#[test]
fn vec_encode() {
    let v = vec![0, 1, 2, 3];
    let items = v.into_iter().map(Value::I32).collect();
    assert_eq!(to_string(Value::List(items)), Ok("li0ei1ei2ei3ee".to_string()));
}

#[test]
fn hm_encode() {
    let mut hm = HashMap::new();
    hm.insert("a", "ok");
    hm.insert("b", "test");
    let entries = hm.iter().map(|(k, v)| (text(k), text(v))).collect();
    let r = to_string(Value::Mapping(entries));
    // a hash map hands its entries out in no fixed order
    assert!(
        r == Ok("da2:okb4:teste".to_string()) || r == Ok("db4:testa2:oke".to_string()),
        "{:?}",
        r
    );
}

#[test]
fn struct_encode() {
    let p = Value::Struct(
        "Person".to_string(),
        vec![("name".to_string(), text("john")), ("surname".to_string(), text("doe"))],
    );
    assert_eq!(to_string(p), Ok("dname4:johnsurname3:doee".to_string()));
}

#[test]
fn fixed_order_mapping() {
    let m = Value::Mapping(vec![(text("a"), text("ok")), (text("b"), text("test"))]);
    assert_eq!(to_string(m), Ok("da2:okb4:teste".to_string()));
}

#[test]
fn booleans_are_integers() {
    assert_eq!(to_string(Value::Bool(true)), Ok("i1e".to_string()));
    assert_eq!(to_string(Value::Bool(false)), Ok("i0e".to_string()));
}

#[test]
fn integers_at_the_edges() {
    assert_eq!(to_string(Value::I64(0)), Ok("i0e".to_string()));
    assert_eq!(to_string(Value::I64(-42)), Ok("i-42e".to_string()));
    assert_eq!(to_string(Value::I8(i8::MIN)), Ok("i-128e".to_string()));
    assert_eq!(to_string(Value::I64(i64::MIN)), Ok("i-9223372036854775808e".to_string()));
    assert_eq!(to_string(Value::I64(i64::MAX)), Ok("i9223372036854775807e".to_string()));
    assert_eq!(to_string(Value::U64(u64::MAX)), Ok("i18446744073709551615e".to_string()));
    assert_eq!(to_string(Value::U32(100)), Ok("i100e".to_string()));
}

#[test]
fn empty_string_and_empty_list() {
    assert_eq!(to_string(text("")), Ok("0:".to_string()));
    assert_eq!(to_string(Value::List(vec![])), Ok("le".to_string()));
    assert_eq!(to_string(Value::Mapping(vec![])), Ok("de".to_string()));
    assert_eq!(to_string(Value::Struct("E".to_string(), vec![])), Ok("de".to_string()));
}

#[test]
fn string_length_counts_bytes() {
    assert_eq!(to_string(text("é")), Ok("2:é".to_string()));
    assert_eq!(to_string(text("a€b")), Ok("5:a€b".to_string()));
    assert_eq!(to_string(text("0123456789ab")), Ok("12:0123456789ab".to_string()));
}

#[test]
fn characters_have_length_one() {
    assert_eq!(to_string(Value::Char('x')), Ok("1:x".to_string()));
}

#[test]
fn floats_are_refused() {
    assert_eq!(to_string(Value::Float("1.5".to_string())), Err(EncoderError::FloatNotSupported));
    let nested = Value::List(vec![Value::I8(1), Value::Float("2".to_string())]);
    assert_eq!(to_string(nested), Err(EncoderError::FloatNotSupported));
}

#[test]
fn bytes_are_refused() {
    assert_eq!(to_string(Value::Bytes(vec![1, 2, 3])), Err(EncoderError::NotSupported));
    assert_eq!(to_string(Value::Bytes(vec![])), Err(EncoderError::NotSupported));
}

#[test]
fn first_error_wins() {
    let v = Value::List(vec![Value::Bytes(vec![0]), Value::Float("1".to_string())]);
    assert_eq!(to_string(v), Err(EncoderError::NotSupported));
    let v = Value::List(vec![Value::Float("1".to_string()), Value::Bytes(vec![0])]);
    assert_eq!(to_string(v), Err(EncoderError::FloatNotSupported));
}

#[test]
fn unit_like_values() {
    assert_eq!(to_string(Value::Unit), Ok("".to_string()));
    assert_eq!(to_string(Value::Absent), Ok("".to_string()));
    assert_eq!(to_string(Value::Present(Box::new(Value::I8(5)))), Ok("i5e".to_string()));
    assert_eq!(to_string(Value::UnitStruct("Marker".to_string())), Ok("6:Marker".to_string()));
    assert_eq!(
        to_string(Value::UnitVariant("Color".to_string(), "Red".to_string())),
        Ok("8:ColorRed".to_string())
    );
}

#[test]
fn unsupported_shapes() {
    let one = || Box::new(Value::I8(1));
    let n = || "N".to_string();
    let cases = vec![
        Value::NewtypeStruct(n(), one()),
        Value::NewtypeVariant(n(), n(), one()),
        Value::Tuple(vec![Value::I8(1)]),
        Value::TupleStruct(n(), vec![]),
        Value::TupleVariant(n(), n(), vec![]),
        Value::StructVariant(n(), n(), vec![]),
        Value::Skipped,
    ];
    for v in cases {
        assert_eq!(to_string(v), Err(EncoderError::NotSupported));
    }
}

#[test]
fn skipped_field_fails_the_record() {
    let v = Value::Struct("S".to_string(), vec![("a".to_string(), Value::Skipped)]);
    assert_eq!(to_string(v), Err(EncoderError::NotSupported));
}

#[test]
fn keys_are_plain_text() {
    let entries = vec![
        (Value::Bool(true), Value::I8(1)),
        (Value::I64(-7), Value::I8(2)),
        (Value::U8(7), Value::I8(3)),
        (Value::Float("1.5".to_string()), Value::I8(4)),
        (Value::Char('c'), Value::I8(5)),
        (Value::UnitStruct("U".to_string()), Value::I8(6)),
        (Value::UnitVariant("E".to_string(), "V".to_string()), Value::I8(7)),
        (Value::Present(Box::new(text("k"))), Value::I8(8)),
        (Value::Unit, Value::I8(9)),
    ];
    assert_eq!(
        to_string(Value::Mapping(entries)),
        Ok("dtruei1e-7i2e7i3e1.5i4eci5eUi6eEVi7eki8ei9ee".to_string())
    );
    let m = Value::Mapping(vec![(Value::Bool(false), Value::Unit)]);
    assert_eq!(to_string(m), Ok("dfalsee".to_string()));
}

#[test]
fn composite_keys_are_refused() {
    let keys = vec![
        Value::List(vec![]),
        Value::Mapping(vec![]),
        Value::Struct("S".to_string(), vec![]),
        Value::Tuple(vec![]),
        Value::Bytes(vec![1]),
        Value::NewtypeStruct("N".to_string(), Box::new(Value::Unit)),
    ];
    for k in keys {
        let m = Value::Mapping(vec![(k, Value::I8(1))]);
        assert_eq!(to_string(m), Err(EncoderError::NotSupported));
    }
}

#[test]
fn nested_values() {
    let inner = Value::Mapping(vec![(text("k"), Value::List(vec![text("x"), Value::I8(-1)]))]);
    let v = Value::List(vec![inner, Value::List(vec![])]);
    assert_eq!(to_string(v), Ok("ldkl1:xi-1eeelee".to_string()));
}

#[test]
fn encoder_pieces() {
    let mut e = Encoder::new();
    let list = ListEncoder::new(&mut e);
    assert_eq!(e.serialize_u16(300), Ok(()));
    assert_eq!(list.end(&mut e), Ok(()));
    let dict = DictEncoder::new(&mut e);
    assert_eq!(dict.add_field(&mut e, "f", &Value::Char('z')), Ok(()));
    assert_eq!(dict.serialize_key(&mut e, &text("g")), Ok(()));
    assert_eq!(e.serialize_str("h"), Ok(()));
    assert_eq!(dict.end_dict(&mut e), Ok(()));
    e.extend_buffer("!");
    assert_eq!(e.take(), "li300eedf1:zg1:he!".to_string());
    assert_eq!(e.take(), "".to_string());
}

#[test]
fn key_encoder_alone() {
    let mut e = Encoder::new();
    let k = KeyEncoder::new();
    assert_eq!(k.encode_key(&mut e, &Value::I32(-3)), Ok(()));
    assert_eq!(k.encode_key(&mut e, &Value::List(vec![])), Err(EncoderError::NotSupported));
    assert_eq!(e.take(), "-3".to_string());
}
