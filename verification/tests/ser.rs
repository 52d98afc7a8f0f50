//! Serialization tests.

use strkey::to_vec;
use strkey::Error;
use strkey::Serializer;
use strkey::Value;

#[test]
fn ser_test_bool() {
    let key = to_vec(&Value::Bool(true)).unwrap();
    assert_eq!(&key, b"true");

    let key = to_vec(&Value::Bool(false)).unwrap();
    assert_eq!(&key, b"false");
}

#[test]
fn ser_test_unsigned_integer() {
    let key = to_vec(&Value::U8(0xaa)).unwrap();
    assert_eq!(&key, b"aa");

    let key = to_vec(&Value::U16(0xaabb)).unwrap();
    assert_eq!(&key, b"aabb");

    let key = to_vec(&Value::U32(0xaabbccdd)).unwrap();
    assert_eq!(&key, b"aabbccdd");

    let key = to_vec(&Value::U64(0xaabbccdd11223344)).unwrap();
    assert_eq!(&key, b"aabbccdd11223344");

    let key = to_vec(&Value::U128(0xaabbccdd11223344eeffabcd55667788)).unwrap();
    assert_eq!(&key, b"aabbccdd11223344eeffabcd55667788");
}

#[test]
fn ser_test_signed_integer() {
    let key = to_vec(&Value::I8(123)).unwrap();
    assert_eq!(&key, b"fb");

    let key = to_vec(&Value::I16(12345)).unwrap();
    assert_eq!(&key, b"b039");

    let key = to_vec(&Value::I32(1234567890)).unwrap();
    assert_eq!(&key, b"c99602d2");

    let key = to_vec(&Value::I64(1234567890123)).unwrap();
    assert_eq!(&key, b"8000011f71fb04cb");

    let key = to_vec(&Value::I128(123456789012345678901234567890)).unwrap();
    assert_eq!(&key, b"800000018ee90ff6c373e0ee4e3f0ad2");

    let mut keys = Vec::new();
    for num in i8::MIN..=i8::MAX {
        keys.push(to_vec(&Value::I8(num)).unwrap());
    }

    assert!(is_sorted(&keys));
}

#[test]
fn ser_test_float() {
    let key = to_vec(&Value::F32Bits(1234.56f32.to_bits())).unwrap();
    assert_eq!(&key, b"c49a51ec");

    let key = to_vec(&Value::F64Bits(1234.5678f64.to_bits())).unwrap();
    assert_eq!(&key, b"c0934a456d5cfaad");

    let key1 = to_vec(&Value::F32Bits((-123.456f32).to_bits())).unwrap();
    let key2 = to_vec(&Value::F32Bits(0.123f32.to_bits())).unwrap();
    assert!(key1 < key2);
}

#[test]
fn ser_test_char() {
    let key = to_vec(&Value::Char('\u{1F43A}')).unwrap();
    assert_eq!(&key, b"\xF0\x9F\x90\xBA");
}

#[test]
fn ser_test_string() {
    let key = to_vec(&Value::Str(String::from("hello world!"))).unwrap();
    assert_eq!(&key, b"hello world!");
}

#[test]
fn ser_test_bytes() {
    let key = to_vec(&Value::Bytes(b"\xca\xfe".to_vec())).unwrap();
    assert_eq!(&key, b"cafe");
}

#[test]
fn ser_test_option() {
    assert!(to_vec(&Value::OptionNone).is_err());
    assert!(to_vec(&Value::OptionSome(Box::new(Value::U8(1)))).is_err());
}

#[test]
fn ser_test_unit() {
    let key = to_vec(&Value::Unit).unwrap();
    assert_eq!(&key, b"");
}

#[test]
fn ser_test_unit_struct() {
    let key = to_vec(&Value::Unit).unwrap();
    assert_eq!(&key, b"");
}

#[test]
fn ser_test_unit_variant() {
    let key = to_vec(&Value::UnitVariant(String::from("World"))).unwrap();
    assert_eq!(&key, b"World");
}

#[test]
fn ser_test_newtype_struct() {
    let key = to_vec(&Value::Newtype(Box::new(Value::U16(2)))).unwrap();
    assert_eq!(&key, b"0002");
}

#[test]
fn ser_test_newtype_variant() {
    let value = Value::PayloadVariant(String::from("Hello"), vec![Value::U8(1)]);
    assert!(to_vec(&value).is_err());
}

#[test]
fn ser_test_seq() {
    let seq_value = Value::List(vec![Value::I32(123), Value::I32(456)]);

    assert!(to_vec(&seq_value).is_err());
}

#[test]
fn ser_test_tuple() {
    let value = Value::Tuple(vec![Value::Str(String::from("hello world")), Value::U16(2)]);
    let key = to_vec(&value).unwrap();
    assert_eq!(&key, b"hello world:0002");
}

#[test]
fn ser_test_tuple_struct() {
    let value = Value::Tuple(vec![Value::Str(String::from("hello world")), Value::U16(2)]);
    let key = to_vec(&value).unwrap();
    assert_eq!(&key, b"hello world:0002");
}

#[test]
fn ser_test_tuple_variant() {
    let value = Value::PayloadVariant(String::from("Hello"), vec![Value::U8(1), Value::U8(2)]);
    assert!(to_vec(&value).is_err());
}

#[test]
fn ser_test_map() {
    let map_value = Value::Dict(vec![(Value::I32(1), Value::I32(2))]);

    assert!(to_vec(&map_value).is_err());
}

#[test]
fn ser_test_struct() {
    let value = Value::Tuple(vec![Value::Str(String::from("hello")), Value::U8(1)]);
    let key = to_vec(&value).unwrap();
    assert_eq!(&key, b"hello:01");
}

#[test]
fn ser_test_struct_variant() {
    let value = Value::PayloadVariant(String::from("Hello"), vec![Value::U8(1)]);
    assert!(to_vec(&value).is_err());
}

#[test]
fn ser_test_deliminator() {
    let mut serializer = Serializer::new(Vec::new()).with_deliminator("/");

    assert_eq!(serializer.deliminator(), "/");

    let value = Value::Tuple(vec![
        Value::Str(String::from("hello")),
        Value::Str(String::from("world")),
    ]);
    serializer.serialize_value(&value).unwrap();

    let key = serializer.into_inner();

    assert_eq!(&key, b"hello/world");
}

#[test]
fn ser_test_deliminator_and_tuple_nesting() {
    let value = Value::Tuple(vec![
        Value::Tuple(vec![
            Value::Str(String::from("hello")),
            Value::Str(String::from("world")),
        ]),
        Value::Tuple(vec![Value::U8(1), Value::U8(2)]),
        Value::Tuple(vec![Value::Unit, Value::Unit]),
    ]);
    let key = to_vec(&value).unwrap();
    assert_eq!(&key, b"hello:world:01:02");
}

#[test]
fn ser_test_unsupported_error_variant() {
    assert_eq!(to_vec(&Value::OptionNone), Err(Error::UnsupportedType));
    assert_eq!(
        to_vec(&Value::Dict(vec![(Value::I32(1), Value::I32(2))])),
        Err(Error::UnsupportedType),
    );
}

// https://stackoverflow.com/a/51272639/1524507
fn is_sorted<T>(data: &[T]) -> bool
where
    T: Ord,
{
    data.windows(2).all(|w| w[0] <= w[1])
}
