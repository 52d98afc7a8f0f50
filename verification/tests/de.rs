//! Deserialization tests.

use strkey::from_reader;
use strkey::from_slice;
use strkey::Deserializer;
use strkey::Error;
use strkey::Shape;
use strkey::Value;

#[test]
fn de_test_bool() {
    let value = from_slice(b"true", &Shape::Bool).unwrap();
    assert_eq!(value, Value::Bool(true));

    let value = from_slice(b"false", &Shape::Bool).unwrap();
    assert_eq!(value, Value::Bool(false));

    assert!(from_slice(b"h", &Shape::Bool).is_err());
}

#[test]
fn de_test_unsigned_integer() {
    let value = from_slice(b"aa", &Shape::U8).unwrap();
    assert_eq!(value, Value::U8(0xaa));

    let value = from_slice(b"aabb", &Shape::U16).unwrap();
    assert_eq!(value, Value::U16(0xaabb));

    let value = from_slice(b"aabbccdd", &Shape::U32).unwrap();
    assert_eq!(value, Value::U32(0xaabbccdd));

    let value = from_slice(b"aabbccdd11223344", &Shape::U64).unwrap();
    assert_eq!(value, Value::U64(0xaabbccdd11223344));

    let value = from_slice(b"aabbccdd11223344eeffabcd55667788", &Shape::U128).unwrap();
    assert_eq!(value, Value::U128(0xaabbccdd11223344eeffabcd55667788));

    assert!(from_slice(b"h", &Shape::U8).is_err());
    assert!(from_slice(b"hh", &Shape::U16).is_err());
    assert!(from_slice(b"hhh", &Shape::U32).is_err());
    assert!(from_slice(b"hhhh", &Shape::U64).is_err());
    assert!(from_slice(b"hhhhh", &Shape::U128).is_err());
}

#[test]
fn de_test_signed_integer() {
    let value = from_slice(b"fb", &Shape::I8).unwrap();
    assert_eq!(value, Value::I8(123));

    let value = from_slice(b"b039", &Shape::I16).unwrap();
    assert_eq!(value, Value::I16(12345));

    let value = from_slice(b"c99602d2", &Shape::I32).unwrap();
    assert_eq!(value, Value::I32(1234567890));

    let value = from_slice(b"8000011f71fb04cb", &Shape::I64).unwrap();
    assert_eq!(value, Value::I64(1234567890123));

    let value = from_slice(b"800000018ee90ff6c373e0ee4e3f0ad2", &Shape::I128).unwrap();
    assert_eq!(value, Value::I128(123456789012345678901234567890));

    assert!(from_slice(b"h", &Shape::I8).is_err());
    assert!(from_slice(b"hh", &Shape::I16).is_err());
    assert!(from_slice(b"hhh", &Shape::I32).is_err());
    assert!(from_slice(b"hhhh", &Shape::I64).is_err());
    assert!(from_slice(b"hhhhh", &Shape::I128).is_err());
}

#[test]
fn de_test_float() {
    let value = from_slice(b"c49a51ec", &Shape::F32).unwrap();
    match value {
        Value::F32Bits(bits) => {
            assert!((f32::from_bits(bits) - 1234.56f32).abs() < f32::EPSILON);
        },
        _ => panic!("expected a thirty-two-bit float"),
    }

    let value = from_slice(b"c0934a456d5cfaad", &Shape::F64).unwrap();
    match value {
        Value::F64Bits(bits) => {
            assert!((f64::from_bits(bits) - 1234.5678f64).abs() < f64::EPSILON);
        },
        _ => panic!("expected a sixty-four-bit float"),
    }

    assert!(from_slice(b"h", &Shape::F32).is_err());
    assert!(from_slice(b"hh", &Shape::F64).is_err());
}

#[test]
fn de_test_char() {
    let value = from_slice(b"\xF0\x9F\x90\xBA", &Shape::Char).unwrap();
    assert_eq!(value, Value::Char('\u{1F43A}'));

    assert!(from_slice(b"\xfe", &Shape::Char).is_err());
    assert!(from_slice(b"abc", &Shape::Char).is_err());
}

#[test]
fn de_test_string() {
    let value = from_slice(b"hello world!", &Shape::Str).unwrap();
    assert_eq!(value, Value::Str(String::from("hello world!")));

    assert!(from_slice(b"\xfe", &Shape::Str).is_err());
}

#[test]
fn de_test_bytes() {
    // A borrowed byte view can never be handed out of decoded hex.
    assert!(from_slice(b"cafe", &Shape::BytesBorrowed).is_err());

    let value = from_slice(b"cafe", &Shape::Bytes).unwrap();
    assert_eq!(value, Value::Bytes(vec![0xca, 0xfe]));

    assert!(from_slice(b"h", &Shape::BytesBorrowed).is_err());
    assert!(from_slice(b"hh", &Shape::Bytes).is_err());
}

#[test]
fn de_test_option() {
    assert!(from_slice(b"h", &Shape::Optional(Box::new(Shape::I32))).is_err());
}

#[test]
fn de_test_unit() {
    from_slice(b"", &Shape::Unit).unwrap();
}

#[test]
fn de_test_unit_struct() {
    from_slice(b"", &Shape::Unit).unwrap();
}

#[test]
fn de_test_unit_variant() {
    let shape = Shape::Enum(vec![String::from("Hello"), String::from("World")]);

    let value = from_slice(b"World", &shape).unwrap();
    assert_eq!(value, Value::UnitVariant(String::from("World")));
}

#[test]
fn de_test_newtype_struct() {
    let shape = Shape::Newtype(Box::new(Shape::U16));

    let value = from_slice(b"0002", &shape).unwrap();
    assert_eq!(value, Value::Newtype(Box::new(Value::U16(2))));
}

#[test]
fn de_test_newtype_variant() {
    assert!(from_slice(b"h", &Shape::PayloadEnum).is_err());
}

#[test]
fn de_test_seq() {
    assert!(from_slice(b"h", &Shape::List(Box::new(Shape::I32))).is_err());
}

#[test]
fn de_test_tuple() {
    let shape = Shape::Tuple(vec![Shape::Str, Shape::U16]);

    let value = from_slice(b"hello world:0002", &shape).unwrap();
    assert_eq!(
        value,
        Value::Tuple(vec![Value::Str(String::from("hello world")), Value::U16(2)]),
    );
}

#[test]
fn de_test_tuple_struct() {
    let shape = Shape::Tuple(vec![Shape::Str, Shape::U16]);

    let value = from_slice(b"hello world:0002", &shape).unwrap();
    assert_eq!(
        value,
        Value::Tuple(vec![Value::Str(String::from("hello world")), Value::U16(2)]),
    );
}

#[test]
fn de_test_tuple_variant() {
    assert!(from_slice(b"h", &Shape::PayloadEnum).is_err());
}

#[test]
fn de_test_map() {
    assert!(from_slice(b"h", &Shape::Dict(Box::new(Shape::I32), Box::new(Shape::I32))).is_err());
}

#[test]
fn de_test_struct() {
    let shape = Shape::Tuple(vec![Shape::Str, Shape::U8]);

    let value = from_slice(b"hello:01", &shape).unwrap();
    assert_eq!(
        value,
        Value::Tuple(vec![Value::Str(String::from("hello")), Value::U8(1)]),
    );
}

#[test]
fn de_test_struct_variant() {
    assert!(from_slice(b"h", &Shape::PayloadEnum).is_err());
}

#[test]
fn de_test_write() {
    let encoded = b"hello".to_vec();

    let value = from_reader(encoded.as_slice(), &Shape::Str).unwrap();

    assert_eq!(value, Value::Str(String::from("hello")));
}

#[test]
fn de_test_deliminator() {
    let mut deserializer = Deserializer::from_slice(b"hello/world").with_deliminator("/");

    let shape = Shape::Tuple(vec![Shape::Str, Shape::Str]);
    let value = deserializer.decode_value(&shape).unwrap();

    assert_eq!(
        value,
        Value::Tuple(vec![
            Value::Str(String::from("hello")),
            Value::Str(String::from("world")),
        ]),
    );
}

#[test]
fn de_test_deliminator_and_tuple_nesting() {
    let shape = Shape::Tuple(vec![
        Shape::Tuple(vec![Shape::Str, Shape::Str]),
        Shape::Tuple(vec![Shape::U8, Shape::U8]),
        Shape::Tuple(vec![Shape::Unit, Shape::Unit]),
    ]);

    let value = from_slice(b"hello:world:01:02", &shape).unwrap();

    assert_eq!(
        value,
        Value::Tuple(vec![
            Value::Tuple(vec![
                Value::Str(String::from("hello")),
                Value::Str(String::from("world")),
            ]),
            Value::Tuple(vec![Value::U8(1), Value::U8(2)]),
            Value::Tuple(vec![Value::Unit, Value::Unit]),
        ]),
    );
}

#[test]
fn de_test_error_variants() {
    assert_eq!(
        from_slice(b"h", &Shape::Optional(Box::new(Shape::I32))),
        Err(Error::UnsupportedType),
    );
    assert_eq!(from_slice(b"\xfe", &Shape::Str), Err(Error::Utf8StringDecode));
    assert_eq!(
        from_slice(b"zz", &Shape::Bool),
        Err(Error::Data(String::from("zz"))),
    );
    assert_eq!(from_slice(b"", &Shape::Bool), Err(Error::Syntax));
    assert_eq!(from_slice(b"aa:bb", &Shape::U8), Err(Error::Syntax));
}

struct BrokenReader;

impl std::io::Read for BrokenReader {
    fn read(&mut self, _buf: &mut [u8]) -> std::io::Result<usize> {
        Err(std::io::Error::new(std::io::ErrorKind::Other, "broken"))
    }
}

#[test]
fn de_test_reader_failure() {
    let result = from_reader(BrokenReader, &Shape::Str);
    assert!(matches!(result, Err(Error::Io(_))));
}

#[test]
fn de_test_trailing_end_check() {
    // Decoding any non-empty input against a zero-component shape fails
    // with a syntax error.
    assert_eq!(from_slice(b"x", &Shape::Unit), Err(Error::Syntax));
    // The check holds even for all-unit documents: the queue is
    // materialized before the arity check.
    from_slice(b"", &Shape::Tuple(vec![Shape::Unit, Shape::Unit])).unwrap();
}
