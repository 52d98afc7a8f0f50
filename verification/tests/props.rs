//! Round-trip and ordering checks on concrete values.

use strkey::from_slice;
use strkey::to_vec;
use strkey::Shape;
use strkey::Value;

#[test]
fn prop_round_trip_account_key() {
    let value = Value::Tuple(vec![Value::Str(String::from("account")), Value::U32(1234)]);
    let encoded = to_vec(&value).unwrap();
    assert_eq!(&encoded, b"account:000004d2");

    let shape = Shape::Tuple(vec![Shape::Str, Shape::U32]);
    let decoded = from_slice(&encoded, &shape).unwrap();
    assert_eq!(decoded, value);
}

#[test]
fn prop_round_trip_every_scalar_kind() {
    let cases: Vec<(Value, Shape)> = vec![
        (Value::Bool(true), Shape::Bool),
        (Value::U8(7), Shape::U8),
        (Value::U16(40000), Shape::U16),
        (Value::U32(123456), Shape::U32),
        (Value::U64(1 << 50), Shape::U64),
        (Value::U128(1 << 100), Shape::U128),
        (Value::I8(-5), Shape::I8),
        (Value::I16(-12345), Shape::I16),
        (Value::I32(-1234567), Shape::I32),
        (Value::I64(-1234567890123), Shape::I64),
        (Value::I128(-123456789012345678901234567890), Shape::I128),
        (Value::F32Bits((-123.456f32).to_bits()), Shape::F32),
        (Value::F64Bits(1234.5678f64.to_bits()), Shape::F64),
        (Value::Char('x'), Shape::Char),
        (Value::Str(String::from("hello world!")), Shape::Str),
        (Value::Bytes(vec![0xca, 0xfe]), Shape::Bytes),
        (Value::Unit, Shape::Unit),
        (
            Value::UnitVariant(String::from("World")),
            Shape::Enum(vec![String::from("Hello"), String::from("World")]),
        ),
        (
            Value::Newtype(Box::new(Value::U16(2))),
            Shape::Newtype(Box::new(Shape::U16)),
        ),
        (
            Value::Tuple(vec![Value::Bool(false), Value::Char('\u{1F43A}')]),
            Shape::Tuple(vec![Shape::Bool, Shape::Char]),
        ),
    ];
    for (value, shape) in cases {
        let encoded = to_vec(&value).unwrap();
        let decoded = from_slice(&encoded, &shape).unwrap();
        assert_eq!(decoded, value);
    }
}

#[test]
fn prop_ordering_unsigned_exhaustive_u8() {
    let mut keys = Vec::new();
    for num in u8::MIN..=u8::MAX {
        keys.push(to_vec(&Value::U8(num)).unwrap());
    }
    assert!(keys.windows(2).all(|w| w[0] < w[1]));
}

#[test]
fn prop_ordering_signed_exhaustive_i8() {
    let mut keys = Vec::new();
    for num in i8::MIN..=i8::MAX {
        keys.push(to_vec(&Value::I8(num)).unwrap());
    }
    assert!(keys.windows(2).all(|w| w[0] < w[1]));
}

#[test]
fn prop_ordering_sampled_wider_widths() {
    let u64_samples: Vec<u64> = vec![0, 1, 255, 256, 65535, 1 << 31, (1 << 40) + 3, u64::MAX];
    let mut keys = Vec::new();
    for v in &u64_samples {
        keys.push(to_vec(&Value::U64(*v)).unwrap());
    }
    assert!(keys.windows(2).all(|w| w[0] < w[1]));

    let i64_samples: Vec<i64> = vec![i64::MIN, -1000000, -1, 0, 1, 1000000, i64::MAX];
    let mut keys = Vec::new();
    for v in &i64_samples {
        keys.push(to_vec(&Value::I64(*v)).unwrap());
    }
    assert!(keys.windows(2).all(|w| w[0] < w[1]));
}

#[test]
fn prop_ordering_sampled_floats() {
    let f32_samples: Vec<f32> = vec![
        f32::NEG_INFINITY,
        -1234.56,
        -123.456,
        -0.5,
        0.0,
        0.123,
        1.0,
        1234.56,
        f32::INFINITY,
    ];
    let mut keys = Vec::new();
    for v in &f32_samples {
        keys.push(to_vec(&Value::F32Bits(v.to_bits())).unwrap());
    }
    assert!(keys.windows(2).all(|w| w[0] < w[1]));

    let f64_samples: Vec<f64> = vec![-1.0e100, -1234.5678, -1.0, 0.0, 1.0, 1234.5678, 1.0e100];
    let mut keys = Vec::new();
    for v in &f64_samples {
        keys.push(to_vec(&Value::F64Bits(v.to_bits())).unwrap());
    }
    assert!(keys.windows(2).all(|w| w[0] < w[1]));
}

#[test]
fn prop_fixed_width_zero_padding() {
    assert_eq!(&to_vec(&Value::U32(1234)).unwrap(), b"000004d2");
    assert_eq!(&to_vec(&Value::U16(2)).unwrap(), b"0002");
    assert_eq!(&to_vec(&Value::U8(0)).unwrap(), b"00");
}

#[test]
fn prop_flattened_nesting_equals_unrolled() {
    let nested = Value::Tuple(vec![
        Value::Tuple(vec![Value::U8(1), Value::U8(2)]),
        Value::U8(3),
    ]);
    let flat = Value::Tuple(vec![Value::U8(1), Value::U8(2), Value::U8(3)]);
    assert_eq!(to_vec(&nested).unwrap(), to_vec(&flat).unwrap());
}

#[test]
fn prop_hex_is_lowercase_and_rejects_uppercase() {
    assert_eq!(&to_vec(&Value::U8(0xAB)).unwrap(), b"ab");
    assert!(from_slice(b"AB", &Shape::U8).is_err());
}
