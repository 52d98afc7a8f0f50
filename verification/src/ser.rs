//! Serialization.
//!
//! The serializer walks a [`Value`] depth first and writes one printable
//! component per scalar into its output buffer, a deliminator (`:` by
//! default) before every component except the very first.  Deliminator
//! placement is purely positional: a document of `n` components holds
//! exactly `n - 1` deliminators, independent of shape nesting.
//!
//! Per kind: booleans become the literals `true`/`false`; integers become
//! fixed-width lowercase hexadecimal of their big-endian representation,
//! signed ones after the sign-bit flip so that negative values sort first;
//! floating-point bit patterns likewise, after the order-preserving
//! transform; characters and strings are written as their raw text; byte
//! blobs as hexadecimal; unit values write nothing at all; unit enum
//! variants write the bare variant name.  Options, dynamic sequences, maps
//! and payload-carrying variants are rejected with
//! [`Error::UnsupportedType`].

use vstd::prelude::*;

use crate::error::Error;
use crate::hex::ascii_bytes;
use crate::hex::hex_blob;
use crate::hex::hex_digits_of;
use crate::hex::lemma_ascii_encode;
use crate::hex::lemma_hex_blob;
use crate::hex::lemma_hex_digits_of;
use crate::hex::push_hex_blob;
use crate::hex::push_hex_fixed;
use crate::split::join_from;
use crate::split::lemma_encode_utf8_concat;
use crate::split::lemma_join_from_concat;
use crate::transform::enc_f32_bits;
use crate::transform::enc_f64_bits;
use crate::transform::flip_i128;
use crate::transform::flip_i16;
use crate::transform::flip_i32;
use crate::transform::flip_i64;
use crate::transform::flip_i8;
use crate::transform::float_enc32;
use crate::transform::float_enc64;
use crate::transform::sign_flip128;
use crate::transform::sign_flip16;
use crate::transform::sign_flip32;
use crate::transform::sign_flip64;
use crate::transform::sign_flip8;
use crate::value::emitted;
use crate::value::emitted_list;
use crate::value::enc_doc;
use crate::value::enc_ok;
use crate::value::enc_ok_list;
use crate::value::false_chars;
use crate::value::lemma_values_view;
use crate::value::true_chars;
use crate::value::value_view;
use crate::value::values_view;
use crate::value::Value;
use vstd::string::StrSliceExecFns;
use vstd::string::StringExecFns;
use vstd::string::StringSliceAdditionalSpecFns;
use vstd::utf8::encode_scalar;
use vstd::utf8::encode_utf8;

verus! {

/// Appends the bytes of a slice to the output.
fn push_bytes(out: &mut Vec<u8>, bs: &[u8])
    ensures
        final(out)@ == old(out)@ + bs@,
{
    let n = bs.len();
    let mut i: usize = 0;
    while i < n
        invariant
            i <= n,
            n == bs@.len(),
            out@ == old(out)@ + bs@.subrange(0, i as int),
        decreases n - i,
    {
        out.push(bs[i]);
        proof {
            assert(out@ =~= old(out)@ + bs@.subrange(0, i + 1 as int));
        }
        i = i + 1;
    }
    proof {
        assert(bs@.subrange(0, n as int) =~= bs@);
    }
}

/// Appends the UTF-8 encoding of one character to the output.
fn push_char_utf8(out: &mut Vec<u8>, c: char)
    ensures
        final(out)@ == old(out)@ + encode_utf8(seq![c]),
{
    let u = c as u32;
    proof {
        vstd::utf8::char_is_scalar(c);
        assert(seq![c].drop_first() =~= Seq::<char>::empty());
        assert(encode_utf8(Seq::<char>::empty()) =~= Seq::<u8>::empty());
        assert(seq![c][0] == c);
        assert(encode_utf8(seq![c]) =~= encode_scalar(u));
    }
    if u < 0x80 {
        out.push(#[verifier::truncate] ((u & 0x7F) as u8));
        proof {
            assert(out@ =~= old(out)@ + encode_scalar(u));
        }
    } else if u < 0x800 {
        out.push(0xC0 | #[verifier::truncate] (((u >> 6) & 0x1F) as u8));
        out.push(0x80 | #[verifier::truncate] ((u & 0x3F) as u8));
        proof {
            assert(out@ =~= old(out)@ + encode_scalar(u));
        }
    } else if u < 0x10000 {
        out.push(0xE0 | #[verifier::truncate] (((u >> 12) & 0x0F) as u8));
        out.push(0x80 | #[verifier::truncate] (((u >> 6) & 0x3F) as u8));
        out.push(0x80 | #[verifier::truncate] ((u & 0x3F) as u8));
        proof {
            assert(out@ =~= old(out)@ + encode_scalar(u));
        }
    } else {
        out.push(0xF0 | #[verifier::truncate] (((u >> 18) & 0x7) as u8));
        out.push(0x80 | #[verifier::truncate] (((u >> 12) & 0x3F) as u8));
        out.push(0x80 | #[verifier::truncate] (((u >> 6) & 0x3F) as u8));
        out.push(0x80 | #[verifier::truncate] ((u & 0x3F) as u8));
        proof {
            assert(out@ =~= old(out)@ + encode_scalar(u));
        }
    }
}

/// Serializer for writing values in the order-preserving text encoding.
/// It owns its output buffer; fields are public so that its specification
/// functions can be stated over them.
pub struct Serializer {
    /// The output buffer.
    pub output: Vec<u8>,
    /// The deliminator written between components.
    pub deliminator: String,
    /// Whether a component has been written already.
    pub first_part_written: bool,
}

/// What one serializing step does: it appends the given components to the
/// output, joined and preceded as the deliminator discipline demands, and
/// records whether anything has been written.
pub open spec fn wrote(s0: Serializer, s2: Serializer, comps: Seq<Seq<char>>) -> bool {
    &&& s2.output@ == s0.output@ + encode_utf8(
        join_from(comps, s0.deliminator@, s0.first_part_written),
    )
    &&& s2.deliminator@ == s0.deliminator@
    &&& s2.first_part_written == (s0.first_part_written || comps.len() > 0)
}

/// Composition of two serializing steps.
pub proof fn lemma_wrote_compose(
    s0: Serializer,
    s1: Serializer,
    s2: Serializer,
    c1: Seq<Seq<char>>,
    c2: Seq<Seq<char>>,
)
    requires
        wrote(s0, s1, c1),
        wrote(s1, s2, c2),
    ensures
        wrote(s0, s2, c1 + c2),
{
    lemma_join_from_concat(c1, c2, s0.deliminator@, s0.first_part_written);
    lemma_encode_utf8_concat(
        join_from(c1, s0.deliminator@, s0.first_part_written),
        join_from(c2, s0.deliminator@, s0.first_part_written || c1.len() > 0),
    );
    assert(s2.output@ =~= s0.output@ + encode_utf8(
        join_from(c1 + c2, s0.deliminator@, s0.first_part_written),
    ));
}

/// A step that writes nothing.
pub proof fn lemma_wrote_nothing(s: Serializer)
    ensures
        wrote(s, s, seq![]),
{
    assert(encode_utf8(join_from(seq![], s.deliminator@, s.first_part_written))
        =~= Seq::<u8>::empty());
    assert(s.output@ =~= s.output@ + Seq::<u8>::empty());
}

/// A step of exactly one component: the deliminator discipline, then the
/// component's text.
proof fn lemma_wrote_single(s0: Serializer, s1: Serializer, s2: Serializer, comp: Seq<char>)
    requires
        s1.output@ == s0.output@ + encode_utf8(
            if s0.first_part_written {
                s0.deliminator@
            } else {
                seq![]
            },
        ),
        s1.first_part_written,
        s1.deliminator@ == s0.deliminator@,
        s2.output@ == s1.output@ + encode_utf8(comp),
        s2.first_part_written == s1.first_part_written,
        s2.deliminator@ == s1.deliminator@,
    ensures
        wrote(s0, s2, seq![comp]),
{
    let d = s0.deliminator@;
    let w = s0.first_part_written;
    let sep: Seq<char> = if w {
        d
    } else {
        seq![]
    };
    assert(seq![comp].drop_first() =~= Seq::<Seq<char>>::empty());
    assert(join_from(Seq::<Seq<char>>::empty(), d, true) =~= Seq::<char>::empty());
    assert(seq![comp][0] == comp);
    assert(join_from(seq![comp], d, w) =~= sep + comp);
    lemma_encode_utf8_concat(sep, comp);
    assert(s2.output@ =~= s0.output@ + encode_utf8(join_from(seq![comp], d, w)));
}

impl Serializer {
    /// Construct a serializer that writes into the given buffer, with the
    /// default deliminator.
    pub fn new(output: Vec<u8>) -> (r: Self)
        ensures
            r.output@ == output@,
            r.deliminator@ == seq![':'],
            !r.first_part_written,
    {
        let r = Serializer {
            output,
            deliminator: String::from_str(":"),
            first_part_written: false,
        };
        proof {
            reveal_strlit(":");
            assert(r.deliminator@ =~= seq![':']);
        }
        r
    }

    /// Unwrap and return the output buffer.
    pub fn into_inner(self) -> (r: Vec<u8>)
        ensures
            r@ == self.output@,
    {
        self.output
    }

    /// Returns the deliminator used to separate values.
    pub fn deliminator(&self) -> (r: &str)
        ensures
            r@ == self.deliminator@,
    {
        self.deliminator.as_str()
    }

    /// Sets the deliminator used to separate values.  The deliminator is
    /// mutable only before any component has been written.
    pub fn set_deliminator(&mut self, deliminator: &str)
        requires
            !old(self).first_part_written,
        ensures
            final(self).output@ == old(self).output@,
            final(self).deliminator@ == deliminator@,
            !final(self).first_part_written,
    {
        self.deliminator = String::from_str(deliminator);
    }

    /// Sets the deliminator used to separate values and returns the
    /// serializer.
    pub fn with_deliminator(self, deliminator: &str) -> (r: Self)
        requires
            !self.first_part_written,
        ensures
            r.output@ == self.output@,
            r.deliminator@ == deliminator@,
            !r.first_part_written,
    {
        let mut s = self;
        s.set_deliminator(deliminator);
        s
    }

    /// Writes the deliminator before every component but the very first.
    fn maybe_write_deliminator(&mut self)
        ensures
            final(self).output@ == old(self).output@ + encode_utf8(
                if old(self).first_part_written {
                    old(self).deliminator@
                } else {
                    seq![]
                },
            ),
            final(self).first_part_written,
            final(self).deliminator@ == old(self).deliminator@,
    {
        if self.first_part_written {
            let bs = self.deliminator.as_str().as_bytes();
            push_bytes(&mut self.output, bs);
        } else {
            self.first_part_written = true;
            proof {
                assert(encode_utf8(Seq::<char>::empty()) =~= Seq::<u8>::empty());
                assert(self.output@ =~= old(self).output@ + Seq::<u8>::empty());
            }
        }
    }

    /// Writes a boolean as the literal `true` or `false`.
    pub fn serialize_bool(&mut self, v: bool) -> (r: Result<(), Error>)
        ensures
            wrote(*old(self), *final(self), seq![
                if v {
                    true_chars()
                } else {
                    false_chars()
                },
            ]),
            r is Ok,
    {
        let ghost s0 = *self;
        self.maybe_write_deliminator();
        let ghost s1 = *self;
        let lit: &str = if v {
            "true"
        } else {
            "false"
        };
        proof {
            reveal_strlit("true");
            reveal_strlit("false");
            assert("true"@ =~= true_chars());
            assert("false"@ =~= false_chars());
        }
        push_bytes(&mut self.output, lit.as_bytes());
        proof {
            lemma_wrote_single(s0, s1, *self, lit@);
        }
        Ok(())
    }

    /// Writes an unsigned value as fixed-width lowercase hexadecimal.
    fn serialize_hex(&mut self, v: u128, digits: usize)
        ensures
            wrote(*old(self), *final(self), seq![hex_digits_of(v as nat, digits as nat)]),
    {
        let ghost s0 = *self;
        self.maybe_write_deliminator();
        let ghost s1 = *self;
        push_hex_fixed(&mut self.output, v, digits);
        proof {
            lemma_hex_digits_of(v as nat, digits as nat);
            lemma_ascii_encode(hex_digits_of(v as nat, digits as nat));
            lemma_wrote_single(s0, s1, *self, hex_digits_of(v as nat, digits as nat));
        }
    }

    pub fn serialize_u8(&mut self, v: u8) -> (r: Result<(), Error>)
        ensures
            wrote(*old(self), *final(self), seq![hex_digits_of(v as nat, 2)]),
            r is Ok,
    {
        self.serialize_hex(v as u128, 2);
        Ok(())
    }

    pub fn serialize_u16(&mut self, v: u16) -> (r: Result<(), Error>)
        ensures
            wrote(*old(self), *final(self), seq![hex_digits_of(v as nat, 4)]),
            r is Ok,
    {
        self.serialize_hex(v as u128, 4);
        Ok(())
    }

    pub fn serialize_u32(&mut self, v: u32) -> (r: Result<(), Error>)
        ensures
            wrote(*old(self), *final(self), seq![hex_digits_of(v as nat, 8)]),
            r is Ok,
    {
        self.serialize_hex(v as u128, 8);
        Ok(())
    }

    pub fn serialize_u64(&mut self, v: u64) -> (r: Result<(), Error>)
        ensures
            wrote(*old(self), *final(self), seq![hex_digits_of(v as nat, 16)]),
            r is Ok,
    {
        self.serialize_hex(v as u128, 16);
        Ok(())
    }

    pub fn serialize_u128(&mut self, v: u128) -> (r: Result<(), Error>)
        ensures
            wrote(*old(self), *final(self), seq![hex_digits_of(v as nat, 32)]),
            r is Ok,
    {
        self.serialize_hex(v, 32);
        Ok(())
    }

    /// Writes a signed value: the sign-bit flip maps it onto the unsigned
    /// range in order, so that the hexadecimal text sorts correctly.
    pub fn serialize_i8(&mut self, v: i8) -> (r: Result<(), Error>)
        ensures
            wrote(*old(self), *final(self), seq![
                hex_digits_of(sign_flip8(v as u8) as nat, 2),
            ]),
            r is Ok,
    {
        let flipped = flip_i8(v);
        self.serialize_hex(flipped as u128, 2);
        Ok(())
    }

    pub fn serialize_i16(&mut self, v: i16) -> (r: Result<(), Error>)
        ensures
            wrote(*old(self), *final(self), seq![
                hex_digits_of(sign_flip16(v as u16) as nat, 4),
            ]),
            r is Ok,
    {
        let flipped = flip_i16(v);
        self.serialize_hex(flipped as u128, 4);
        Ok(())
    }

    pub fn serialize_i32(&mut self, v: i32) -> (r: Result<(), Error>)
        ensures
            wrote(*old(self), *final(self), seq![
                hex_digits_of(sign_flip32(v as u32) as nat, 8),
            ]),
            r is Ok,
    {
        let flipped = flip_i32(v);
        self.serialize_hex(flipped as u128, 8);
        Ok(())
    }

    pub fn serialize_i64(&mut self, v: i64) -> (r: Result<(), Error>)
        ensures
            wrote(*old(self), *final(self), seq![
                hex_digits_of(sign_flip64(v as u64) as nat, 16),
            ]),
            r is Ok,
    {
        let flipped = flip_i64(v);
        self.serialize_hex(flipped as u128, 16);
        Ok(())
    }

    pub fn serialize_i128(&mut self, v: i128) -> (r: Result<(), Error>)
        ensures
            wrote(*old(self), *final(self), seq![
                hex_digits_of(sign_flip128(v as u128) as nat, 32),
            ]),
            r is Ok,
    {
        let flipped = flip_i128(v);
        self.serialize_hex(flipped, 32);
        Ok(())
    }

    /// Writes a thirty-two-bit floating-point bit pattern, after the
    /// order-preserving transform.
    pub fn serialize_f32_bits(&mut self, bits: u32) -> (r: Result<(), Error>)
        ensures
            wrote(*old(self), *final(self), seq![
                hex_digits_of(float_enc32(bits) as nat, 8),
            ]),
            r is Ok,
    {
        let t = enc_f32_bits(bits);
        self.serialize_hex(t as u128, 8);
        Ok(())
    }

    /// Writes a sixty-four-bit floating-point bit pattern, after the
    /// order-preserving transform.
    pub fn serialize_f64_bits(&mut self, bits: u64) -> (r: Result<(), Error>)
        ensures
            wrote(*old(self), *final(self), seq![
                hex_digits_of(float_enc64(bits) as nat, 16),
            ]),
            r is Ok,
    {
        let t = enc_f64_bits(bits);
        self.serialize_hex(t as u128, 16);
        Ok(())
    }

    /// Writes a character as its raw text bytes, unescaped.
    pub fn serialize_char(&mut self, v: char) -> (r: Result<(), Error>)
        ensures
            wrote(*old(self), *final(self), seq![seq![v]]),
            r is Ok,
    {
        let ghost s0 = *self;
        self.maybe_write_deliminator();
        let ghost s1 = *self;
        push_char_utf8(&mut self.output, v);
        proof {
            lemma_wrote_single(s0, s1, *self, seq![v]);
        }
        Ok(())
    }

    /// Writes a string as its raw text bytes, unescaped.  If the text
    /// contains the deliminator, splitting the document cannot recover it:
    /// no escaping is performed.
    pub fn serialize_str(&mut self, v: &str) -> (r: Result<(), Error>)
        ensures
            wrote(*old(self), *final(self), seq![v@]),
            r is Ok,
    {
        let ghost s0 = *self;
        self.maybe_write_deliminator();
        let ghost s1 = *self;
        push_bytes(&mut self.output, v.as_bytes());
        proof {
            lemma_wrote_single(s0, s1, *self, v@);
        }
        Ok(())
    }

    /// Writes a byte blob as lowercase hexadecimal, two digits per byte.
    pub fn serialize_bytes(&mut self, v: &[u8]) -> (r: Result<(), Error>)
        ensures
            wrote(*old(self), *final(self), seq![hex_blob(v@)]),
            r is Ok,
    {
        let ghost s0 = *self;
        self.maybe_write_deliminator();
        let ghost s1 = *self;
        push_hex_blob(&mut self.output, v);
        proof {
            lemma_hex_blob(v@);
            lemma_ascii_encode(hex_blob(v@));
            lemma_wrote_single(s0, s1, *self, hex_blob(v@));
        }
        Ok(())
    }

    /// A unit value is not considered a value: nothing is written and no
    /// deliminator is consumed.
    pub fn serialize_unit(&mut self) -> (r: Result<(), Error>)
        ensures
            *final(self) == *old(self),
            r is Ok,
    {
        Ok(())
    }

    /// Writes a unit enum variant as its bare name; the enclosing type's
    /// name is never encoded.
    pub fn serialize_unit_variant(&mut self, variant: &str) -> (r: Result<(), Error>)
        ensures
            wrote(*old(self), *final(self), seq![variant@]),
            r is Ok,
    {
        self.serialize_str(variant)
    }

    /// Writes a whole value, depth first, components joined by the
    /// deliminator.  Composites are flattened: a tuple of tuples writes the
    /// same component sequence as the unrolled tuple.  Fails with
    /// [`Error::UnsupportedType`] exactly when the value or anything nested
    /// in it is an option, a dynamic sequence, a map, or a payload-carrying
    /// enum variant; what was walked before the failure has already been
    /// written.
    pub fn serialize_value(&mut self, v: &Value) -> (r: Result<(), Error>)
        ensures
            wrote(*old(self), *final(self), emitted(v@)),
            r is Ok <==> enc_ok(v@),
            r matches Err(e) ==> e is UnsupportedType,
        decreases *v, 0nat, 0nat,
    {
        match v {
            Value::Bool(b) => self.serialize_bool(*b),
            Value::U8(x) => self.serialize_u8(*x),
            Value::U16(x) => self.serialize_u16(*x),
            Value::U32(x) => self.serialize_u32(*x),
            Value::U64(x) => self.serialize_u64(*x),
            Value::U128(x) => self.serialize_u128(*x),
            Value::I8(x) => self.serialize_i8(*x),
            Value::I16(x) => self.serialize_i16(*x),
            Value::I32(x) => self.serialize_i32(*x),
            Value::I64(x) => self.serialize_i64(*x),
            Value::I128(x) => self.serialize_i128(*x),
            Value::F32Bits(x) => self.serialize_f32_bits(*x),
            Value::F64Bits(x) => self.serialize_f64_bits(*x),
            Value::Char(c) => self.serialize_char(*c),
            Value::Str(s) => self.serialize_str(s.as_str()),
            Value::Bytes(bs) => self.serialize_bytes(bs.as_slice()),
            Value::Unit => {
                proof {
                    lemma_wrote_nothing(*self);
                }
                Ok(())
            },
            Value::UnitVariant(n) => self.serialize_unit_variant(n.as_str()),
            Value::Newtype(b) => {
                proof {
                    assert(decreases_to!(*v => v->Newtype_0));
                }
                self.serialize_value(b)
            },
            Value::Tuple(fs) => {
                proof {
                    assert(decreases_to!(*v => v->Tuple_0));
                    assert(decreases_to!(v->Tuple_0 => v->Tuple_0@));
                }
                self.serialize_fields(fs, 0)
            },
            Value::OptionNone => {
                proof {
                    lemma_wrote_nothing(*self);
                }
                Err(Error::UnsupportedType)
            },
            Value::OptionSome(_) => {
                proof {
                    lemma_wrote_nothing(*self);
                }
                Err(Error::UnsupportedType)
            },
            Value::List(_) => {
                proof {
                    lemma_wrote_nothing(*self);
                }
                Err(Error::UnsupportedType)
            },
            Value::Dict(_) => {
                proof {
                    lemma_wrote_nothing(*self);
                }
                Err(Error::UnsupportedType)
            },
            Value::PayloadVariant(_, _) => {
                proof {
                    lemma_wrote_nothing(*self);
                }
                Err(Error::UnsupportedType)
            },
        }
    }

    /// Writes the fields of a fixed-arity sequence from index `j` on, in
    /// declared order, stopping at the first unsupported field.
    fn serialize_fields(&mut self, fs: &Vec<Value>, j: usize) -> (r: Result<(), Error>)
        requires
            j <= fs@.len(),
        ensures
            wrote(*old(self), *final(self), emitted_list(values_view(fs@, 0), j as int)),
            r is Ok <==> enc_ok_list(values_view(fs@, 0), j as int),
            r matches Err(e) ==> e is UnsupportedType,
        decreases fs@, 1nat, fs@.len() - j,
    {
        proof {
            lemma_values_view(fs@, 0);
        }
        let ghost vv = values_view(fs@, 0);
        if j >= fs.len() {
            proof {
                lemma_wrote_nothing(*self);
                assert(emitted_list(vv, j as int) =~= Seq::<Seq<char>>::empty());
            }
            Ok(())
        } else {
            proof {
                assert(decreases_to!(fs@ => fs@[j as int]));
            }
            let ghost s0 = *self;
            let field_result = self.serialize_value(&fs[j]);
            let ghost s1 = *self;
            proof {
                assert(vv[j as int] == value_view(fs@[j as int]));
            }
            match field_result {
                Err(e) => {
                    proof {
                        assert(emitted_list(vv, j as int) =~= emitted(vv[j as int]));
                        assert(wrote(s0, s1, emitted_list(vv, j as int)));
                    }
                    Err(e)
                },
                Ok(()) => {
                    let rest = self.serialize_fields(fs, j + 1);
                    proof {
                        lemma_wrote_compose(
                            s0,
                            s1,
                            *self,
                            emitted(vv[j as int]),
                            emitted_list(vv, j + 1 as int),
                        );
                        assert(emitted_list(vv, j as int) =~= emitted(vv[j as int])
                            + emitted_list(vv, j + 1 as int));
                    }
                    rest
                },
            }
        }
    }
}

/// Serializes the given value to a vector: the encoded document, with the
/// default deliminator.  Fails with [`Error::UnsupportedType`] exactly when
/// the value holds an unsupported kind.
pub fn to_vec(value: &Value) -> (r: Result<Vec<u8>, Error>)
    ensures
        r is Ok <==> enc_ok(value@),
        r matches Ok(bs) ==> bs@ == enc_doc(value@, seq![':']),
        r matches Err(e) ==> e is UnsupportedType,
{
    let mut serializer = Serializer::new(Vec::new());
    match serializer.serialize_value(value) {
        Ok(()) => {
            proof {
                assert(serializer.output@ =~= enc_doc(value@, seq![':']));
            }
            Ok(serializer.into_inner())
        },
        Err(e) => Err(e),
    }
}

} // verus!
