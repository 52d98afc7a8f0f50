//! The two guarantees the codec is built around, stated and proved over the
//! encoder's and decoder's own specifications: decoding inverts encoding,
//! and byte order of encodings follows value order.

use vstd::prelude::*;

use crate::hex::all_hex;
use crate::hex::ascii_bytes;
use crate::hex::hex_digits_of;
use crate::hex::hex_seq_val;
use crate::hex::lemma_ascii_encode;
use crate::hex::lemma_bytes_of_hex_blob;
use crate::hex::lemma_hex_blob;
use crate::hex::lemma_hex_digits_of;
use crate::hex::lemma_hex_digits_order;
use crate::hex::lemma_lex_ascii;
use crate::hex::lemma_pow16_widths;
use crate::hex::lex_lt_bytes;
use crate::hex::lex_lt_chars;
use crate::hex::pow16;
use crate::split::contains_char;
use crate::split::join_from;
use crate::split::lemma_join_from_len;
use crate::split::lemma_split_of_join;
use crate::split::pieces_of;
use crate::transform::float_enc32;
use crate::transform::float_enc64;
use crate::transform::float_key32;
use crate::transform::float_key64;
use crate::transform::lemma_float32;
use crate::transform::lemma_float64;
use crate::transform::lemma_float_enc32_order;
use crate::transform::lemma_float_enc64_order;
use crate::transform::lemma_sign_flip128;
use crate::transform::lemma_sign_flip16;
use crate::transform::lemma_sign_flip32;
use crate::transform::lemma_sign_flip64;
use crate::transform::lemma_sign_flip8;
use crate::transform::sign_flip128;
use crate::transform::sign_flip16;
use crate::transform::sign_flip32;
use crate::transform::sign_flip64;
use crate::transform::sign_flip8;
use crate::value::dec_doc;
use crate::value::dec_tuple;
use crate::value::dec_value;
use crate::value::emitted;
use crate::value::emitted_list;
use crate::value::enc_doc;
use crate::value::enc_ok;
use crate::value::enc_ok_list;
use crate::value::doc_chars;
use crate::value::shape_of;
use crate::value::shape_of_list;
use crate::value::top_rejected;
use crate::value::DecErr;
use crate::value::ShapeView;
use crate::value::ValueView;
use vstd::utf8::decode_utf8;
use vstd::utf8::encode_utf8;
use vstd::utf8::encode_utf8_decode_utf8;
use vstd::utf8::encode_utf8_valid_utf8;

verus! {

/// The elementwise reading of [`shape_of_list`].
proof fn lemma_shape_of_list(vs: Seq<ValueView>, j: int)
    requires
        0 <= j <= vs.len(),
    ensures
        shape_of_list(vs, j).len() == vs.len() - j,
        forall|k: int|
            0 <= k < vs.len() - j ==> #[trigger] shape_of_list(vs, j)[k] == shape_of(vs[j + k]),
    decreases vs.len() - j,
{
    if j < vs.len() {
        lemma_shape_of_list(vs, j + 1);
    }
}

/// Decoding a value's own components, against the shape it encodes as,
/// recovers the value and leaves whatever follows untouched.
proof fn lemma_dec_enc(v: ValueView, tail: Seq<Seq<char>>)
    requires
        enc_ok(v),
    ensures
        dec_value(shape_of(v), emitted(v) + tail) == Ok::<
            (ValueView, Seq<Seq<char>>),
            DecErr,
        >((v, tail)),
    decreases v, 0nat, 0nat,
{
    let q = emitted(v) + tail;
    lemma_pow16_widths();
    match v {
        ValueView::Bool(b) => {
            assert(q[0] == emitted(v)[0]);
            assert(q.drop_first() =~= tail);
            if b {
                assert(crate::value::true_chars() != crate::value::false_chars()) by {
                    assert(crate::value::true_chars().len() == 4);
                    assert(crate::value::false_chars().len() == 5);
                }
            }
        },
        ValueView::U8(x) => {
            lemma_fixed_comp(x as nat, 2, q, tail);
        },
        ValueView::U16(x) => {
            lemma_fixed_comp(x as nat, 4, q, tail);
        },
        ValueView::U32(x) => {
            lemma_fixed_comp(x as nat, 8, q, tail);
        },
        ValueView::U64(x) => {
            lemma_fixed_comp(x as nat, 16, q, tail);
        },
        ValueView::U128(x) => {
            lemma_fixed_comp(x as nat, 32, q, tail);
        },
        ValueView::I8(x) => {
            lemma_fixed_comp(sign_flip8(x as u8) as nat, 2, q, tail);
            lemma_sign_flip8(x);
        },
        ValueView::I16(x) => {
            lemma_fixed_comp(sign_flip16(x as u16) as nat, 4, q, tail);
            lemma_sign_flip16(x);
        },
        ValueView::I32(x) => {
            lemma_fixed_comp(sign_flip32(x as u32) as nat, 8, q, tail);
            lemma_sign_flip32(x);
        },
        ValueView::I64(x) => {
            lemma_fixed_comp(sign_flip64(x as u64) as nat, 16, q, tail);
            lemma_sign_flip64(x);
        },
        ValueView::I128(x) => {
            lemma_fixed_comp(sign_flip128(x as u128) as nat, 32, q, tail);
            lemma_sign_flip128(x);
        },
        ValueView::F32Bits(x) => {
            lemma_fixed_comp(float_enc32(x) as nat, 8, q, tail);
            lemma_float32(x);
        },
        ValueView::F64Bits(x) => {
            lemma_fixed_comp(float_enc64(x) as nat, 16, q, tail);
            lemma_float64(x);
        },
        ValueView::Char(c) => {
            assert(q[0] == seq![c]);
            assert(q[0].len() == 1 && q[0][0] == c);
            assert(q.drop_first() =~= tail);
        },
        ValueView::Str(s) => {
            assert(q[0] == s);
            assert(q.drop_first() =~= tail);
        },
        ValueView::Bytes(bs) => {
            assert(q[0] == crate::hex::hex_blob(bs));
            lemma_hex_blob(bs);
            lemma_bytes_of_hex_blob(bs);
            assert(q.drop_first() =~= tail);
        },
        ValueView::Unit => {
            assert(emitted(v) + tail =~= tail);
        },
        ValueView::UnitVariant(n) => {
            assert(q[0] == n);
            assert(shape_of(v) == ShapeView::Enum(seq![n]));
            assert(seq![n].contains(q[0])) by {
                assert(seq![n][0] == n);
            }
            assert(q.drop_first() =~= tail);
        },
        ValueView::Newtype(b) => {
            lemma_dec_enc(*b, tail);
        },
        ValueView::Tuple(fs) => {
            lemma_shape_of_list(fs, 0);
            lemma_dec_enc_list(fs, 0, tail);
            assert(emitted(v) == emitted_list(fs, 0));
            assert(fs.skip(0) =~= fs);
        },
        ValueView::OptionNone => {
            assert(false);
        },
        ValueView::OptionSome(_) => {
            assert(false);
        },
        ValueView::List(_) => {
            assert(false);
        },
        ValueView::Dict(_) => {
            assert(false);
        },
        ValueView::PayloadVariant(_, _) => {
            assert(false);
        },
    }
}

/// A fixed-width hexadecimal component at the front of the queue parses
/// back to its value.
proof fn lemma_fixed_comp(x: nat, n: nat, q: Seq<Seq<char>>, tail: Seq<Seq<char>>)
    requires
        x < pow16(n),
        q == seq![hex_digits_of(x, n)] + tail,
    ensures
        q.len() > 0,
        q[0] == hex_digits_of(x, n),
        q[0].len() == n,
        all_hex(q[0]),
        hex_seq_val(q[0]) == x,
        q.drop_first() == tail,
{
    lemma_hex_digits_of(x, n);
    assert(q[0] == hex_digits_of(x, n));
    assert(q.drop_first() =~= tail);
}

/// Decoding the components of a field list, against the shapes its fields
/// encode as, recovers the fields and leaves whatever follows untouched.
proof fn lemma_dec_enc_list(fs: Seq<ValueView>, j: int, tail: Seq<Seq<char>>)
    requires
        0 <= j <= fs.len(),
        enc_ok_list(fs, j),
    ensures
        dec_tuple(shape_of_list(fs, 0), j, emitted_list(fs, j) + tail) == Ok::<
            (Seq<ValueView>, Seq<Seq<char>>),
            DecErr,
        >((fs.skip(j), tail)),
    decreases fs, 1nat, fs.len() - j,
{
    lemma_shape_of_list(fs, 0);
    let shapes = shape_of_list(fs, 0);
    if j == fs.len() {
        assert(emitted_list(fs, j) + tail =~= tail);
        assert(fs.skip(j) =~= Seq::<ValueView>::empty());
    } else {
        assert(enc_ok(fs[j]) && enc_ok_list(fs, j + 1));
        assert(emitted_list(fs, j) == emitted(fs[j]) + emitted_list(fs, j + 1));
        let rest = emitted_list(fs, j + 1) + tail;
        assert(emitted_list(fs, j) + tail =~= emitted(fs[j]) + rest);
        lemma_dec_enc(fs[j], rest);
        assert(shapes[j] == shape_of(fs[j]));
        lemma_dec_enc_list(fs, j + 1, tail);
        assert(seq![fs[j]] + fs.skip(j + 1) =~= fs.skip(j));
    }
}

/// Round trip: decoding an encoded document, against the shape the value
/// encodes as and with the same deliminator, returns the value.
///
/// This holds for every supported value whose text components do not
/// themselves contain the deliminator character (no escaping is performed,
/// so such a document cannot be split back), and whose component sequence
/// is not one single empty component (a lone empty string or unit-variant
/// name encodes to an empty document, which decodes as zero components).
pub proof fn lemma_round_trip(v: ValueView)
    requires
        enc_ok(v),
        forall|k: int|
            0 <= k < emitted(v).len() ==> !contains_char(#[trigger] emitted(v)[k], ':'),
        emitted(v) != seq![Seq::<char>::empty()],
    ensures
        dec_doc(enc_doc(v, seq![':']), shape_of(v), seq![':']) == Ok::<ValueView, DecErr>(v),
{
    let d = seq![':'];
    let parts = emitted(v);
    let doc = doc_chars(v, d);
    let bytes = enc_doc(v, d);
    assert(!top_rejected(shape_of(v)));
    encode_utf8_valid_utf8(doc);
    encode_utf8_decode_utf8(doc);
    assert(decode_utf8(bytes) == doc);
    assert(pieces_of(doc, d) == parts) by {
        if parts.len() == 0 {
            assert(doc =~= Seq::<char>::empty());
            assert(pieces_of(doc, d) =~= parts);
        } else {
            assert(d[0] == ':');
            lemma_split_of_join(parts, d);
            if parts.len() == 1 {
                assert(doc =~= parts[0]) by {
                    assert(parts.drop_first() =~= Seq::<Seq<char>>::empty());
                    assert(join_from(Seq::<Seq<char>>::empty(), d, true)
                        =~= Seq::<char>::empty());
                }
                assert(parts[0].len() > 0) by {
                    if parts[0].len() == 0 {
                        assert(parts =~= seq![Seq::<char>::empty()]);
                    }
                }
                assert(doc.len() > 0);
            } else {
                lemma_join_from_len(parts, d);
                assert(doc.len() > 0);
            }
        }
    }
    lemma_dec_enc(v, Seq::<Seq<char>>::empty());
    assert(parts + Seq::<Seq<char>>::empty() =~= parts);
    assert(dec_value(shape_of(v), parts) == Ok::<(ValueView, Seq<Seq<char>>), DecErr>((
        v,
        Seq::<Seq<char>>::empty(),
    )));
}

/// The encoded document of a single fixed-width hexadecimal component.
proof fn lemma_single_hex_doc(x: nat, n: nat, comp: Seq<char>, d: Seq<char>)
    requires
        comp == hex_digits_of(x, n),
    ensures
        join_from(seq![comp], d, false) == comp,
        encode_utf8(comp) == ascii_bytes(comp),
{
    assert(seq![comp].drop_first() =~= Seq::<Seq<char>>::empty());
    assert(join_from(Seq::<Seq<char>>::empty(), d, true) =~= Seq::<char>::empty());
    assert(join_from(seq![comp], d, false) =~= comp);
    lemma_hex_digits_of(x, n);
    lemma_ascii_encode(comp);
}

/// Byte order of two single-numeral documents follows the numeral values.
proof fn lemma_hex_doc_order(a: nat, b: nat, n: nat, d: Seq<char>)
    requires
        a < b,
        b < pow16(n),
    ensures
        lex_lt_bytes(
            encode_utf8(join_from(seq![hex_digits_of(a, n)], d, false)),
            encode_utf8(join_from(seq![hex_digits_of(b, n)], d, false)),
        ),
{
    let ca = hex_digits_of(a, n);
    let cb = hex_digits_of(b, n);
    lemma_single_hex_doc(a, n, ca, d);
    lemma_single_hex_doc(b, n, cb, d);
    lemma_hex_digits_of(a, n);
    lemma_hex_digits_of(b, n);
    lemma_hex_digits_order(a, b, n);
    lemma_lex_ascii(ca, cb);
}

/// Ordering: for unsigned values of one width, byte order of encodings
/// follows value order.
pub proof fn lemma_order_u8(a: u8, b: u8)
    requires
        a < b,
    ensures
        lex_lt_bytes(enc_doc(ValueView::U8(a), seq![':']), enc_doc(ValueView::U8(b), seq![':'])),
{
    lemma_pow16_widths();
    lemma_hex_doc_order(a as nat, b as nat, 2, seq![':']);
}

pub proof fn lemma_order_u16(a: u16, b: u16)
    requires
        a < b,
    ensures
        lex_lt_bytes(
            enc_doc(ValueView::U16(a), seq![':']),
            enc_doc(ValueView::U16(b), seq![':']),
        ),
{
    lemma_pow16_widths();
    lemma_hex_doc_order(a as nat, b as nat, 4, seq![':']);
}

pub proof fn lemma_order_u32(a: u32, b: u32)
    requires
        a < b,
    ensures
        lex_lt_bytes(
            enc_doc(ValueView::U32(a), seq![':']),
            enc_doc(ValueView::U32(b), seq![':']),
        ),
{
    lemma_pow16_widths();
    lemma_hex_doc_order(a as nat, b as nat, 8, seq![':']);
}

pub proof fn lemma_order_u64(a: u64, b: u64)
    requires
        a < b,
    ensures
        lex_lt_bytes(
            enc_doc(ValueView::U64(a), seq![':']),
            enc_doc(ValueView::U64(b), seq![':']),
        ),
{
    lemma_pow16_widths();
    lemma_hex_doc_order(a as nat, b as nat, 16, seq![':']);
}

pub proof fn lemma_order_u128(a: u128, b: u128)
    requires
        a < b,
    ensures
        lex_lt_bytes(
            enc_doc(ValueView::U128(a), seq![':']),
            enc_doc(ValueView::U128(b), seq![':']),
        ),
{
    lemma_pow16_widths();
    lemma_hex_doc_order(a as nat, b as nat, 32, seq![':']);
}

/// Ordering: for signed values of one width, byte order of encodings
/// follows value order; in particular negative values sort before
/// non-negative ones.
pub proof fn lemma_order_i8(a: i8, b: i8)
    requires
        a < b,
    ensures
        lex_lt_bytes(enc_doc(ValueView::I8(a), seq![':']), enc_doc(ValueView::I8(b), seq![':'])),
{
    lemma_pow16_widths();
    lemma_sign_flip8(a);
    lemma_sign_flip8(b);
    lemma_hex_doc_order(sign_flip8(a as u8) as nat, sign_flip8(b as u8) as nat, 2, seq![':']);
}

pub proof fn lemma_order_i16(a: i16, b: i16)
    requires
        a < b,
    ensures
        lex_lt_bytes(
            enc_doc(ValueView::I16(a), seq![':']),
            enc_doc(ValueView::I16(b), seq![':']),
        ),
{
    lemma_pow16_widths();
    lemma_sign_flip16(a);
    lemma_sign_flip16(b);
    lemma_hex_doc_order(
        sign_flip16(a as u16) as nat,
        sign_flip16(b as u16) as nat,
        4,
        seq![':'],
    );
}

pub proof fn lemma_order_i32(a: i32, b: i32)
    requires
        a < b,
    ensures
        lex_lt_bytes(
            enc_doc(ValueView::I32(a), seq![':']),
            enc_doc(ValueView::I32(b), seq![':']),
        ),
{
    lemma_pow16_widths();
    lemma_sign_flip32(a);
    lemma_sign_flip32(b);
    lemma_hex_doc_order(
        sign_flip32(a as u32) as nat,
        sign_flip32(b as u32) as nat,
        8,
        seq![':'],
    );
}

pub proof fn lemma_order_i64(a: i64, b: i64)
    requires
        a < b,
    ensures
        lex_lt_bytes(
            enc_doc(ValueView::I64(a), seq![':']),
            enc_doc(ValueView::I64(b), seq![':']),
        ),
{
    lemma_pow16_widths();
    lemma_sign_flip64(a);
    lemma_sign_flip64(b);
    lemma_hex_doc_order(
        sign_flip64(a as u64) as nat,
        sign_flip64(b as u64) as nat,
        16,
        seq![':'],
    );
}

pub proof fn lemma_order_i128(a: i128, b: i128)
    requires
        a < b,
    ensures
        lex_lt_bytes(
            enc_doc(ValueView::I128(a), seq![':']),
            enc_doc(ValueView::I128(b), seq![':']),
        ),
{
    lemma_pow16_widths();
    lemma_sign_flip128(a);
    lemma_sign_flip128(b);
    lemma_hex_doc_order(
        sign_flip128(a as u128) as nat,
        sign_flip128(b as u128) as nat,
        32,
        seq![':'],
    );
}

/// Ordering: for thirty-two-bit floating-point bit patterns, byte order of
/// encodings follows the signed-magnitude key, which mirrors the IEEE
/// order of all non-NaN values.
pub proof fn lemma_order_f32(a: u32, b: u32)
    requires
        float_key32(a) < float_key32(b),
    ensures
        lex_lt_bytes(
            enc_doc(ValueView::F32Bits(a), seq![':']),
            enc_doc(ValueView::F32Bits(b), seq![':']),
        ),
{
    lemma_pow16_widths();
    lemma_float_enc32_order(a, b);
    lemma_hex_doc_order(float_enc32(a) as nat, float_enc32(b) as nat, 8, seq![':']);
}

/// Ordering: for sixty-four-bit floating-point bit patterns, byte order of
/// encodings follows the signed-magnitude key, which mirrors the IEEE
/// order of all non-NaN values.
pub proof fn lemma_order_f64(a: u64, b: u64)
    requires
        float_key64(a) < float_key64(b),
    ensures
        lex_lt_bytes(
            enc_doc(ValueView::F64Bits(a), seq![':']),
            enc_doc(ValueView::F64Bits(b), seq![':']),
        ),
{
    lemma_pow16_widths();
    lemma_float_enc64_order(a, b);
    lemma_hex_doc_order(float_enc64(a) as nat, float_enc64(b) as nat, 16, seq![':']);
}

} // verus!
