//! The shapes and values the codec works on.
//!
//! The encoding is not self-describing, so decoding is driven by an explicit
//! [`Shape`]: the caller states the field count and the kind at each
//! position, and the decoder consumes exactly the components that shape
//! implies.  [`Value`] is the matching tagged union of decoded values.
//! Composite shapes are flattened: nesting exists only in the shape, never
//! in the bytes.
//!
//! Floating-point values are carried as their IEEE bit patterns
//! ([`Value::F32Bits`], [`Value::F64Bits`]), so that the order-preserving
//! bit transforms can be stated and proved exactly.

use vstd::prelude::*;

use crate::hex::all_hex;
use crate::hex::bytes_of_hex;
use crate::hex::hex_blob;
use crate::hex::hex_digits_of;
use crate::hex::hex_seq_val;
use crate::split::join_from;
use crate::split::pieces_of;
use crate::transform::float_dec32;
use crate::transform::float_dec64;
use crate::transform::float_enc32;
use crate::transform::float_enc64;
use crate::transform::sign_flip128;
use crate::transform::sign_flip16;
use crate::transform::sign_flip32;
use crate::transform::sign_flip64;
use crate::transform::sign_flip8;
use crate::error::Error;
use vstd::utf8::decode_utf8;
use vstd::utf8::encode_utf8;
use vstd::utf8::valid_utf8;

verus! {

/// A typed value, the tagged union of everything the codec can be asked to
/// encode.  The kinds beyond [`Value::Tuple`] — options, dynamic sequences,
/// maps and payload-carrying enum variants — are representable but always
/// rejected with [`Error::UnsupportedType`], because the non-self-describing
/// format cannot carry them.
#[derive(Debug, PartialEq)]
pub enum Value {
    Bool(bool),
    U8(u8),
    U16(u16),
    U32(u32),
    U64(u64),
    U128(u128),
    I8(i8),
    I16(i16),
    I32(i32),
    I64(i64),
    I128(i128),
    /// A thirty-two-bit floating-point value, as its IEEE bit pattern.
    F32Bits(u32),
    /// A sixty-four-bit floating-point value, as its IEEE bit pattern.
    F64Bits(u64),
    Char(char),
    Str(String),
    Bytes(Vec<u8>),
    Unit,
    /// A unit enum variant, carrying the variant's name.
    UnitVariant(String),
    /// A transparent wrapper: recurses, contributes no boundary of its own.
    Newtype(Box<Value>),
    /// A fixed-arity sequence of fields: tuple, tuple struct or plain
    /// struct.  Field names are never encoded; order is the only identity.
    Tuple(Vec<Value>),
    /// An absent optional value.  Rejected.
    OptionNone,
    /// A present optional value.  Rejected.
    OptionSome(Box<Value>),
    /// A dynamically sized sequence.  Rejected.
    List(Vec<Value>),
    /// An associative map.  Rejected.
    Dict(Vec<(Value, Value)>),
    /// An enum variant with a payload.  Rejected.
    PayloadVariant(String, Vec<Value>),
}

/// The mathematical model of a [`Value`].
pub enum ValueView {
    Bool(bool),
    U8(u8),
    U16(u16),
    U32(u32),
    U64(u64),
    U128(u128),
    I8(i8),
    I16(i16),
    I32(i32),
    I64(i64),
    I128(i128),
    F32Bits(u32),
    F64Bits(u64),
    Char(char),
    Str(Seq<char>),
    Bytes(Seq<u8>),
    Unit,
    UnitVariant(Seq<char>),
    Newtype(Box<ValueView>),
    Tuple(Seq<ValueView>),
    OptionNone,
    OptionSome(Box<ValueView>),
    List(Seq<ValueView>),
    Dict(Seq<(ValueView, ValueView)>),
    PayloadVariant(Seq<char>, Seq<ValueView>),
}

pub open spec fn value_view(v: Value) -> ValueView
    decreases v, 0nat, 0nat,
{
    match v {
        Value::Bool(b) => ValueView::Bool(b),
        Value::U8(x) => ValueView::U8(x),
        Value::U16(x) => ValueView::U16(x),
        Value::U32(x) => ValueView::U32(x),
        Value::U64(x) => ValueView::U64(x),
        Value::U128(x) => ValueView::U128(x),
        Value::I8(x) => ValueView::I8(x),
        Value::I16(x) => ValueView::I16(x),
        Value::I32(x) => ValueView::I32(x),
        Value::I64(x) => ValueView::I64(x),
        Value::I128(x) => ValueView::I128(x),
        Value::F32Bits(x) => ValueView::F32Bits(x),
        Value::F64Bits(x) => ValueView::F64Bits(x),
        Value::Char(c) => ValueView::Char(c),
        Value::Str(s) => ValueView::Str(s@),
        Value::Bytes(bs) => ValueView::Bytes(bs@),
        Value::Unit => ValueView::Unit,
        Value::UnitVariant(n) => ValueView::UnitVariant(n@),
        Value::Newtype(b) => ValueView::Newtype(Box::new(value_view(*b))),
        Value::Tuple(fs) => ValueView::Tuple(values_view(fs@, 0)),
        Value::OptionNone => ValueView::OptionNone,
        Value::OptionSome(b) => ValueView::OptionSome(Box::new(value_view(*b))),
        Value::List(fs) => ValueView::List(values_view(fs@, 0)),
        Value::Dict(ps) => ValueView::Dict(pairs_view(ps@, 0)),
        Value::PayloadVariant(n, fs) => ValueView::PayloadVariant(n@, values_view(fs@, 0)),
    }
}

pub open spec fn values_view(vs: Seq<Value>, j: int) -> Seq<ValueView>
    decreases vs, 1nat, vs.len() - j,
{
    if j < 0 || j >= vs.len() {
        seq![]
    } else {
        seq![value_view(vs[j])] + values_view(vs, j + 1)
    }
}

pub open spec fn pairs_view(ps: Seq<(Value, Value)>, j: int) -> Seq<(ValueView, ValueView)>
    decreases ps, 1nat, ps.len() - j,
{
    if j < 0 || j >= ps.len() {
        seq![]
    } else {
        seq![(value_view(ps[j].0), value_view(ps[j].1))] + pairs_view(ps, j + 1)
    }
}

impl View for Value {
    type V = ValueView;

    open spec fn view(&self) -> ValueView {
        value_view(*self)
    }
}

/// The elementwise reading of [`values_view`].
pub proof fn lemma_values_view(vs: Seq<Value>, j: int)
    requires
        0 <= j <= vs.len(),
    ensures
        values_view(vs, j).len() == vs.len() - j,
        forall|k: int|
            0 <= k < vs.len() - j ==> #[trigger] values_view(vs, j)[k] == value_view(vs[j + k]),
    decreases vs.len() - j,
{
    if j < vs.len() {
        lemma_values_view(vs, j + 1);
    }
}

/// A target shape: the kind of value expected at each position.  Decoding
/// consumes components in the order and arity this dictates.  The kinds
/// beyond [`Shape::Tuple`] are representable but always rejected.
#[derive(Debug, PartialEq)]
pub enum Shape {
    Bool,
    U8,
    U16,
    U32,
    U64,
    U128,
    I8,
    I16,
    I32,
    I64,
    I128,
    F32,
    F64,
    Char,
    Str,
    Bytes,
    /// A borrowed byte view.  Rejected: hex decoding always produces a
    /// fresh buffer, so a borrowed view can never be handed out.
    BytesBorrowed,
    Unit,
    /// A unit-variant enum, with the names of its variants.
    Enum(Vec<String>),
    /// A transparent wrapper around the inner shape.
    Newtype(Box<Shape>),
    /// A fixed-arity sequence of field shapes.
    Tuple(Vec<Shape>),
    /// An optional value.  Rejected.
    Optional(Box<Shape>),
    /// A dynamically sized sequence.  Rejected.
    List(Box<Shape>),
    /// An associative map.  Rejected.
    Dict(Box<Shape>, Box<Shape>),
    /// An enum with tuple- or struct-payload variants.  Rejected.
    PayloadEnum,
}

/// The mathematical model of a [`Shape`].
pub enum ShapeView {
    Bool,
    U8,
    U16,
    U32,
    U64,
    U128,
    I8,
    I16,
    I32,
    I64,
    I128,
    F32,
    F64,
    Char,
    Str,
    Bytes,
    BytesBorrowed,
    Unit,
    Enum(Seq<Seq<char>>),
    Newtype(Box<ShapeView>),
    Tuple(Seq<ShapeView>),
    Optional(Box<ShapeView>),
    List(Box<ShapeView>),
    Dict(Box<ShapeView>, Box<ShapeView>),
    PayloadEnum,
}

pub open spec fn names_view(ns: Seq<String>) -> Seq<Seq<char>> {
    Seq::new(ns.len(), |i: int| ns[i]@)
}

pub open spec fn shape_view(s: Shape) -> ShapeView
    decreases s, 0nat, 0nat,
{
    match s {
        Shape::Bool => ShapeView::Bool,
        Shape::U8 => ShapeView::U8,
        Shape::U16 => ShapeView::U16,
        Shape::U32 => ShapeView::U32,
        Shape::U64 => ShapeView::U64,
        Shape::U128 => ShapeView::U128,
        Shape::I8 => ShapeView::I8,
        Shape::I16 => ShapeView::I16,
        Shape::I32 => ShapeView::I32,
        Shape::I64 => ShapeView::I64,
        Shape::I128 => ShapeView::I128,
        Shape::F32 => ShapeView::F32,
        Shape::F64 => ShapeView::F64,
        Shape::Char => ShapeView::Char,
        Shape::Str => ShapeView::Str,
        Shape::Bytes => ShapeView::Bytes,
        Shape::BytesBorrowed => ShapeView::BytesBorrowed,
        Shape::Unit => ShapeView::Unit,
        Shape::Enum(ns) => ShapeView::Enum(names_view(ns@)),
        Shape::Newtype(b) => ShapeView::Newtype(Box::new(shape_view(*b))),
        Shape::Tuple(fs) => ShapeView::Tuple(shapes_view(fs@, 0)),
        Shape::Optional(b) => ShapeView::Optional(Box::new(shape_view(*b))),
        Shape::List(b) => ShapeView::List(Box::new(shape_view(*b))),
        Shape::Dict(k, v) => ShapeView::Dict(
            Box::new(shape_view(*k)),
            Box::new(shape_view(*v)),
        ),
        Shape::PayloadEnum => ShapeView::PayloadEnum,
    }
}

pub open spec fn shapes_view(ss: Seq<Shape>, j: int) -> Seq<ShapeView>
    decreases ss, 1nat, ss.len() - j,
{
    if j < 0 || j >= ss.len() {
        seq![]
    } else {
        seq![shape_view(ss[j])] + shapes_view(ss, j + 1)
    }
}

impl View for Shape {
    type V = ShapeView;

    open spec fn view(&self) -> ShapeView {
        shape_view(*self)
    }
}

/// The elementwise reading of [`shapes_view`].
pub proof fn lemma_shapes_view(ss: Seq<Shape>, j: int)
    requires
        0 <= j <= ss.len(),
    ensures
        shapes_view(ss, j).len() == ss.len() - j,
        forall|k: int|
            0 <= k < ss.len() - j ==> #[trigger] shapes_view(ss, j)[k] == shape_view(ss[j + k]),
    decreases ss.len() - j,
{
    if j < ss.len() {
        lemma_shapes_view(ss, j + 1);
    }
}

// ---------------------------------------------------------------------------
// What the encoder writes
// ---------------------------------------------------------------------------

/// The characters of the boolean literal `true`.
pub open spec fn true_chars() -> Seq<char> {
    seq!['t', 'r', 'u', 'e']
}

/// The characters of the boolean literal `false`.
pub open spec fn false_chars() -> Seq<char> {
    seq!['f', 'a', 'l', 's', 'e']
}

/// Whether the encoder supports a value: nothing in it may be an option, a
/// dynamic sequence, a map, or a payload-carrying enum variant.
pub open spec fn enc_ok(v: ValueView) -> bool
    decreases v, 0nat, 0nat,
{
    match v {
        ValueView::OptionNone => false,
        ValueView::OptionSome(_) => false,
        ValueView::List(_) => false,
        ValueView::Dict(_) => false,
        ValueView::PayloadVariant(_, _) => false,
        ValueView::Newtype(b) => enc_ok(*b),
        ValueView::Tuple(fs) => enc_ok_list(fs, 0),
        _ => true,
    }
}

pub open spec fn enc_ok_list(fs: Seq<ValueView>, j: int) -> bool
    decreases fs, 1nat, fs.len() - j,
{
    j < 0 || j >= fs.len() || (enc_ok(fs[j]) && enc_ok_list(fs, j + 1))
}

/// The flat component sequence the encoder emits for a value, in order.
/// For an unsupported value this is what has been written before the walk
/// stops: encoding is not transactional.
pub open spec fn emitted(v: ValueView) -> Seq<Seq<char>>
    decreases v, 0nat, 0nat,
{
    match v {
        ValueView::Bool(b) => seq![
            if b {
                true_chars()
            } else {
                false_chars()
            },
        ],
        ValueView::U8(x) => seq![hex_digits_of(x as nat, 2)],
        ValueView::U16(x) => seq![hex_digits_of(x as nat, 4)],
        ValueView::U32(x) => seq![hex_digits_of(x as nat, 8)],
        ValueView::U64(x) => seq![hex_digits_of(x as nat, 16)],
        ValueView::U128(x) => seq![hex_digits_of(x as nat, 32)],
        ValueView::I8(x) => seq![hex_digits_of(sign_flip8(x as u8) as nat, 2)],
        ValueView::I16(x) => seq![hex_digits_of(sign_flip16(x as u16) as nat, 4)],
        ValueView::I32(x) => seq![hex_digits_of(sign_flip32(x as u32) as nat, 8)],
        ValueView::I64(x) => seq![hex_digits_of(sign_flip64(x as u64) as nat, 16)],
        ValueView::I128(x) => seq![hex_digits_of(sign_flip128(x as u128) as nat, 32)],
        ValueView::F32Bits(x) => seq![hex_digits_of(float_enc32(x) as nat, 8)],
        ValueView::F64Bits(x) => seq![hex_digits_of(float_enc64(x) as nat, 16)],
        ValueView::Char(c) => seq![seq![c]],
        ValueView::Str(s) => seq![s],
        ValueView::Bytes(bs) => seq![hex_blob(bs)],
        ValueView::Unit => seq![],
        ValueView::UnitVariant(n) => seq![n],
        ValueView::Newtype(b) => emitted(*b),
        ValueView::Tuple(fs) => emitted_list(fs, 0),
        ValueView::OptionNone => seq![],
        ValueView::OptionSome(_) => seq![],
        ValueView::List(_) => seq![],
        ValueView::Dict(_) => seq![],
        ValueView::PayloadVariant(_, _) => seq![],
    }
}

/// The components emitted for a field list: fields in order, stopping after
/// the first unsupported field.
pub open spec fn emitted_list(fs: Seq<ValueView>, j: int) -> Seq<Seq<char>>
    decreases fs, 1nat, fs.len() - j,
{
    if j < 0 || j >= fs.len() {
        seq![]
    } else {
        emitted(fs[j]) + (if enc_ok(fs[j]) {
            emitted_list(fs, j + 1)
        } else {
            seq![]
        })
    }
}

/// The shape a supported value encodes as, for decoding it back.
pub open spec fn shape_of(v: ValueView) -> ShapeView
    decreases v, 0nat, 0nat,
{
    match v {
        ValueView::Bool(_) => ShapeView::Bool,
        ValueView::U8(_) => ShapeView::U8,
        ValueView::U16(_) => ShapeView::U16,
        ValueView::U32(_) => ShapeView::U32,
        ValueView::U64(_) => ShapeView::U64,
        ValueView::U128(_) => ShapeView::U128,
        ValueView::I8(_) => ShapeView::I8,
        ValueView::I16(_) => ShapeView::I16,
        ValueView::I32(_) => ShapeView::I32,
        ValueView::I64(_) => ShapeView::I64,
        ValueView::I128(_) => ShapeView::I128,
        ValueView::F32Bits(_) => ShapeView::F32,
        ValueView::F64Bits(_) => ShapeView::F64,
        ValueView::Char(_) => ShapeView::Char,
        ValueView::Str(_) => ShapeView::Str,
        ValueView::Bytes(_) => ShapeView::Bytes,
        ValueView::Unit => ShapeView::Unit,
        ValueView::UnitVariant(n) => ShapeView::Enum(seq![n]),
        ValueView::Newtype(b) => ShapeView::Newtype(Box::new(shape_of(*b))),
        ValueView::Tuple(fs) => ShapeView::Tuple(shape_of_list(fs, 0)),
        ValueView::OptionNone => ShapeView::Optional(Box::new(ShapeView::Unit)),
        ValueView::OptionSome(b) => ShapeView::Optional(Box::new(shape_of(*b))),
        ValueView::List(_) => ShapeView::List(Box::new(ShapeView::Unit)),
        ValueView::Dict(_) => ShapeView::Dict(
            Box::new(ShapeView::Unit),
            Box::new(ShapeView::Unit),
        ),
        ValueView::PayloadVariant(_, _) => ShapeView::PayloadEnum,
    }
}

pub open spec fn shape_of_list(fs: Seq<ValueView>, j: int) -> Seq<ShapeView>
    decreases fs, 1nat, fs.len() - j,
{
    if j < 0 || j >= fs.len() {
        seq![]
    } else {
        seq![shape_of(fs[j])] + shape_of_list(fs, j + 1)
    }
}

// ---------------------------------------------------------------------------
// What the decoder returns
// ---------------------------------------------------------------------------

/// The abstract decoding error: which kind of failure, and for a data error
/// the text of the offending component.
pub enum DecErr {
    Unsupported,
    Text,
    Data(Seq<char>),
    Syntax,
}

/// One fixed-width hexadecimal component taken from the front of the
/// queue: its value and the remaining queue, or the error.
pub open spec fn dec_fixed(q: Seq<Seq<char>>, digits: nat) -> Result<
    (nat, Seq<Seq<char>>),
    DecErr,
> {
    if q.len() == 0 {
        Err(DecErr::Syntax)
    } else if q[0].len() == digits && all_hex(q[0]) {
        Ok((hex_seq_val(q[0]), q.drop_first()))
    } else {
        Err(DecErr::Data(q[0]))
    }
}

/// Decoding a shape against the front of the component queue `q`: the
/// decoded value and the remaining queue, or the first error.
pub open spec fn dec_value(shape: ShapeView, q: Seq<Seq<char>>) -> Result<
    (ValueView, Seq<Seq<char>>),
    DecErr,
>
    decreases shape, 0nat, 0nat,
{
    match shape {
        ShapeView::Bool => {
            if q.len() == 0 {
                Err(DecErr::Syntax)
            } else if q[0] == true_chars() {
                Ok((ValueView::Bool(true), q.drop_first()))
            } else if q[0] == false_chars() {
                Ok((ValueView::Bool(false), q.drop_first()))
            } else {
                Err(DecErr::Data(q[0]))
            }
        },
        ShapeView::U8 => {
            match dec_fixed(q, 2) {
                Ok((n, qr)) => Ok((ValueView::U8(n as u8), qr)),
                Err(e) => Err(e),
            }
        },
        ShapeView::U16 => {
            match dec_fixed(q, 4) {
                Ok((n, qr)) => Ok((ValueView::U16(n as u16), qr)),
                Err(e) => Err(e),
            }
        },
        ShapeView::U32 => {
            match dec_fixed(q, 8) {
                Ok((n, qr)) => Ok((ValueView::U32(n as u32), qr)),
                Err(e) => Err(e),
            }
        },
        ShapeView::U64 => {
            match dec_fixed(q, 16) {
                Ok((n, qr)) => Ok((ValueView::U64(n as u64), qr)),
                Err(e) => Err(e),
            }
        },
        ShapeView::U128 => {
            match dec_fixed(q, 32) {
                Ok((n, qr)) => Ok((ValueView::U128(n as u128), qr)),
                Err(e) => Err(e),
            }
        },
        ShapeView::I8 => {
            match dec_fixed(q, 2) {
                Ok((n, qr)) => Ok((ValueView::I8(sign_flip8(n as u8) as i8), qr)),
                Err(e) => Err(e),
            }
        },
        ShapeView::I16 => {
            match dec_fixed(q, 4) {
                Ok((n, qr)) => Ok((ValueView::I16(sign_flip16(n as u16) as i16), qr)),
                Err(e) => Err(e),
            }
        },
        ShapeView::I32 => {
            match dec_fixed(q, 8) {
                Ok((n, qr)) => Ok((ValueView::I32(sign_flip32(n as u32) as i32), qr)),
                Err(e) => Err(e),
            }
        },
        ShapeView::I64 => {
            match dec_fixed(q, 16) {
                Ok((n, qr)) => Ok((ValueView::I64(sign_flip64(n as u64) as i64), qr)),
                Err(e) => Err(e),
            }
        },
        ShapeView::I128 => {
            match dec_fixed(q, 32) {
                Ok((n, qr)) => Ok((ValueView::I128(sign_flip128(n as u128) as i128), qr)),
                Err(e) => Err(e),
            }
        },
        ShapeView::F32 => {
            match dec_fixed(q, 8) {
                Ok((n, qr)) => Ok((ValueView::F32Bits(float_dec32(n as u32)), qr)),
                Err(e) => Err(e),
            }
        },
        ShapeView::F64 => {
            match dec_fixed(q, 16) {
                Ok((n, qr)) => Ok((ValueView::F64Bits(float_dec64(n as u64)), qr)),
                Err(e) => Err(e),
            }
        },
        ShapeView::Char => {
            if q.len() == 0 {
                Err(DecErr::Syntax)
            } else if q[0].len() == 1 {
                Ok((ValueView::Char(q[0][0]), q.drop_first()))
            } else {
                Err(DecErr::Data(q[0]))
            }
        },
        ShapeView::Str => {
            if q.len() == 0 {
                Err(DecErr::Syntax)
            } else {
                Ok((ValueView::Str(q[0]), q.drop_first()))
            }
        },
        ShapeView::Bytes => {
            if q.len() == 0 {
                Err(DecErr::Syntax)
            } else if q[0].len() % 2 == 0 && all_hex(q[0]) {
                Ok((ValueView::Bytes(bytes_of_hex(q[0])), q.drop_first()))
            } else {
                Err(DecErr::Data(q[0]))
            }
        },
        ShapeView::BytesBorrowed => Err(DecErr::Unsupported),
        ShapeView::Unit => Ok((ValueView::Unit, q)),
        ShapeView::Enum(names) => {
            if q.len() == 0 {
                Err(DecErr::Syntax)
            } else if names.contains(q[0]) {
                Ok((ValueView::UnitVariant(q[0]), q.drop_first()))
            } else {
                Err(DecErr::Data(q[0]))
            }
        },
        ShapeView::Newtype(b) => {
            match dec_value(*b, q) {
                Ok((v, qr)) => Ok((ValueView::Newtype(Box::new(v)), qr)),
                Err(e) => Err(e),
            }
        },
        ShapeView::Tuple(shapes) => {
            match dec_tuple(shapes, 0, q) {
                Ok((vs, qr)) => Ok((ValueView::Tuple(vs), qr)),
                Err(e) => Err(e),
            }
        },
        ShapeView::Optional(_) => Err(DecErr::Unsupported),
        ShapeView::List(_) => Err(DecErr::Unsupported),
        ShapeView::Dict(_, _) => Err(DecErr::Unsupported),
        ShapeView::PayloadEnum => Err(DecErr::Unsupported),
    }
}

/// Decoding a field-shape list from index `k`, against the front of the
/// queue.
pub open spec fn dec_tuple(shapes: Seq<ShapeView>, k: int, q: Seq<Seq<char>>) -> Result<
    (Seq<ValueView>, Seq<Seq<char>>),
    DecErr,
>
    decreases shapes, 1nat, shapes.len() - k,
{
    if k < 0 || k >= shapes.len() {
        Ok((seq![], q))
    } else {
        match dec_value(shapes[k], q) {
            Err(e) => Err(e),
            Ok((v, q1)) => match dec_tuple(shapes, k + 1, q1) {
                Err(e) => Err(e),
                Ok((vs, q2)) => Ok((seq![v] + vs, q2)),
            },
        }
    }
}

// ---------------------------------------------------------------------------
// Whole documents
// ---------------------------------------------------------------------------

/// The document text of a value: its components joined by the deliminator.
pub open spec fn doc_chars(v: ValueView, d: Seq<char>) -> Seq<char> {
    join_from(emitted(v), d, false)
}

/// The encoded document of a value: the UTF-8 bytes of its text.
pub open spec fn enc_doc(v: ValueView, d: Seq<char>) -> Seq<u8> {
    encode_utf8(doc_chars(v, d))
}

/// Whether a requested shape is of an unsupported kind, detected before
/// any byte of the input is consulted.
pub open spec fn top_rejected(shape: ShapeView) -> bool {
    match shape {
        ShapeView::BytesBorrowed => true,
        ShapeView::Optional(_) => true,
        ShapeView::List(_) => true,
        ShapeView::Dict(_, _) => true,
        ShapeView::PayloadEnum => true,
        _ => false,
    }
}

/// Decoding a whole document given as text: reject an unsupported shape
/// before looking at the input; then cut the text into components, decode
/// the shape against them, and demand that every component was consumed.
pub open spec fn dec_text(text: Seq<char>, shape: ShapeView, d: Seq<char>) -> Result<
    ValueView,
    DecErr,
> {
    if top_rejected(shape) {
        Err(DecErr::Unsupported)
    } else {
        let q = pieces_of(text, d);
        match dec_value(shape, q) {
            Err(e) => Err(e),
            Ok((v, qr)) => if qr.len() == 0 {
                Ok(v)
            } else {
                Err(DecErr::Syntax)
            },
        }
    }
}

/// Decoding a whole document given as bytes: reject an unsupported shape
/// before looking at the bytes; then decode the bytes as UTF-8 text and
/// decode the document.
pub open spec fn dec_doc(bytes: Seq<u8>, shape: ShapeView, d: Seq<char>) -> Result<
    ValueView,
    DecErr,
> {
    if top_rejected(shape) {
        Err(DecErr::Unsupported)
    } else if !valid_utf8(bytes) {
        Err(DecErr::Text)
    } else {
        dec_text(decode_utf8(bytes), shape, d)
    }
}

/// Whether an executable error is the one the abstract decoding names,
/// with the same component text for a data error.
pub open spec fn exec_err_matches(x: Error, e: DecErr) -> bool {
    match e {
        DecErr::Unsupported => x is UnsupportedType,
        DecErr::Text => x is Utf8StringDecode,
        DecErr::Syntax => x is Syntax,
        DecErr::Data(cs) => x matches Error::Data(s) && s@ == cs,
    }
}

/// Whether an executable decoding result means what the abstract one says:
/// the same value, or the same error with the same component text.
pub open spec fn res_matches(r: Result<Value, Error>, m: Result<ValueView, DecErr>) -> bool {
    match m {
        Ok(mv) => r matches Ok(v) && value_view(v) == mv,
        Err(e) => r matches Err(x) && exec_err_matches(x, e),
    }
}

/// Whether an executable one-value decoding step against the queue `q0`
/// returned `r` and left the queue `qf`, exactly as the abstract decoding
/// says.  After an error the remaining queue is not pinned down: decoding
/// is not transactional.
pub open spec fn decode_rel(
    shape: ShapeView,
    q0: Seq<Seq<char>>,
    r: Result<Value, Error>,
    qf: Seq<Seq<char>>,
) -> bool {
    match dec_value(shape, q0) {
        Ok((vv, qr)) => (r matches Ok(v) && value_view(v) == vv) && qf == qr,
        Err(e) => r matches Err(x) && exec_err_matches(x, e),
    }
}

} // verus!

verus! {

/// The view of a character value.
pub proof fn lemma_char_view(c: char)
    ensures
        value_view(Value::Char(c)) == ValueView::Char(c),
{
}

} // verus!
