//! Deserialization.
//!
//! The deserializer consumes components from a [`ComponentRead`] in the
//! order and arity dictated by a requested [`Shape`].  The format is not
//! self-describing: the caller supplies the exact target shape, and the
//! bytes alone never disambiguate where one nested shape ends and a
//! sibling begins.  After the top-level value, [`Deserializer::end`] must
//! be called to detect trailing unconsumed components.

use vstd::prelude::*;

use core::marker::PhantomData;

use crate::component::Component;
use crate::component::ComponentRead;
use crate::component::IoReader;
use crate::component::SliceReader;
use crate::error::Error;
use crate::hex::all_hex;
use crate::hex::bytes_of_hex;
use crate::hex::hex_seq_val;
use crate::hex::lemma_bytes_of_hex_blob;
use crate::hex::lemma_hex_seq_val;
use crate::hex::lemma_pow16_widths;
use crate::hex::parse_hex_blob;
use crate::hex::parse_hex_fixed;
use crate::hex::pow16;
use crate::split::pieces_of;
use crate::split::str_eq;
use crate::transform::dec_f32_bits;
use crate::transform::dec_f64_bits;
use crate::transform::float_dec32;
use crate::transform::float_dec64;
use crate::transform::restore_i128;
use crate::transform::restore_i16;
use crate::transform::restore_i32;
use crate::transform::restore_i64;
use crate::transform::restore_i8;
use crate::transform::sign_flip128;
use crate::transform::sign_flip16;
use crate::transform::sign_flip32;
use crate::transform::sign_flip64;
use crate::transform::sign_flip8;
use crate::value::dec_doc;
use crate::value::dec_text;
use crate::value::dec_tuple;
use crate::value::dec_value;
use crate::value::decode_rel;
use crate::value::false_chars;
use crate::value::lemma_shapes_view;
use crate::value::lemma_values_view;
use crate::value::names_view;
use crate::value::res_matches;
use crate::value::shape_view;
use crate::value::shapes_view;
use crate::value::top_rejected;
use crate::value::true_chars;
use crate::value::value_view;
use crate::value::values_view;
use crate::value::Shape;
use crate::value::ShapeView;
use crate::value::Value;
use vstd::string::StrSliceExecFns;
use vstd::utf8::decode_utf8;
use vstd::utf8::valid_utf8;

verus! {

/// What one scalar read does to the queue: with nothing left it fails with
/// a syntax error; otherwise it consumes the front component, returning
/// the parsed value or a data error naming the component.
pub open spec fn scalar_step<T>(
    q0: Seq<Seq<char>>,
    r: Result<T, Error>,
    qf: Seq<Seq<char>>,
    parse: spec_fn(Seq<char>) -> Option<T>,
) -> bool {
    &&& q0.len() == 0 ==> (r matches Err(e) && e is Syntax) && qf == q0
    &&& q0.len() > 0 ==> qf == q0.drop_first() && (match parse(q0[0]) {
        Some(v) => r == Ok::<T, Error>(v),
        None => r matches Err(e) && (e matches Error::Data(s) && s@ == q0[0]),
    })
}

/// The load failure a reader reports: a text-decoding error for an
/// in-memory source, a read error for a stream.
pub open spec fn load_err<'de, R: ComponentRead<'de>>(input: R, e: Error) -> bool {
    if input.text_source() {
        e is Utf8StringDecode
    } else {
        e is Io
    }
}

/// Whether `s` is one of the given names.
fn find_name(names: &Vec<String>, s: &str) -> (r: bool)
    ensures
        r == exists|k: int| 0 <= k < names@.len() && (#[trigger] names@[k])@ == s@,
{
    let n = names.len();
    let mut k: usize = 0;
    while k < n
        invariant
            k <= n,
            n == names@.len(),
            forall|j: int| 0 <= j < k ==> (#[trigger] names@[j])@ != s@,
        decreases n - k,
    {
        if str_eq(s, names[k].as_str()) {
            return true;
        }
        k = k + 1;
    }
    false
}

/// Deserializer for decoding values from the order-preserving text
/// encoding.
pub struct Deserializer<'de, R: ComponentRead<'de>> {
    /// The component reader.
    pub input: R,
    /// Carrier for the input lifetime.
    pub marker: PhantomData<&'de ()>,
}

impl<'de, R: ComponentRead<'de>> Deserializer<'de, R> {
    /// Construct a deserializer using the given component reader.
    ///
    /// See also [`Self::from_slice`] and [`Self::from_reader`].
    pub fn new(input: R) -> (r: Self)
        ensures
            r.input == input,
    {
        Deserializer { input, marker: PhantomData }
    }

    /// Returns the deliminator used to separate values.
    pub fn deliminator(&self) -> (r: &str)
        ensures
            r@ == self.input.delim(),
    {
        self.input.deliminator()
    }

    /// Whether the input has been split into components already; the
    /// deliminator can be changed only before that.
    pub fn materialized(&self) -> (r: bool)
        ensures
            r == self.input.loaded(),
    {
        self.input.materialized()
    }

    /// Sets the deliminator used to separate values.  The deliminator is
    /// mutable only before the input has been split.
    pub fn set_deliminator(&mut self, deliminator: &'de str)
        requires
            !old(self).input.loaded(),
        ensures
            !final(self).input.loaded(),
            final(self).input.delim() == deliminator@,
            final(self).input.load_ok() == old(self).input.load_ok(),
    {
        self.input.set_deliminator(deliminator);
    }

    /// Sets the deliminator used to separate values and returns the
    /// deserializer.
    pub fn with_deliminator(self, deliminator: &'de str) -> (r: Self)
        requires
            !self.input.loaded(),
        ensures
            !r.input.loaded(),
            r.input.delim() == deliminator@,
            r.input.load_ok() == self.input.load_ok(),
    {
        let mut d = self;
        d.set_deliminator(deliminator);
        d
    }

    /// Validates that the reader has fully processed the given input:
    /// fails with a syntax error if any component remains unconsumed.
    pub fn end(&mut self) -> (r: Result<(), Error>)
        ensures
            final(self).input.delim() == old(self).input.delim(),
            final(self).input.load_ok() == old(self).input.load_ok(),
            !old(self).input.load_ok() ==> (r matches Err(e) && load_err(old(self).input, e)),
            old(self).input.load_ok() ==> ({
                let q0 = old(self).input.queue();
                &&& q0.len() == 0 ==> r is Ok && final(self).input.queue() == q0
                &&& q0.len() > 0 ==> r == Err::<(), Error>(Error::Syntax) && final(self).input.queue() == q0.drop_first()
            }),
    {
        match self.input.next_component() {
            Err(e) => Err(e),
            Ok(Some(_)) => Err(Error::Syntax),
            Ok(None) => Ok(()),
        }
    }

    /// Takes the next component, failing with a syntax error when none
    /// remains.
    fn next_component(&mut self) -> (r: Result<Component<'de>, Error>)
        ensures
            final(self).input.delim() == old(self).input.delim(),
            final(self).input.load_ok() == old(self).input.load_ok(),
            !old(self).input.load_ok() ==> (r matches Err(e) && load_err(old(self).input, e)),
            old(self).input.load_ok() ==> ({
                let q0 = old(self).input.queue();
                &&& q0.len() == 0 ==> (r matches Err(e) && e is Syntax) && final(self).input.queue() == q0
                &&& q0.len() > 0 ==> (r matches Ok(c) && c@ == q0[0]) && final(self).input.queue() == q0.drop_first()
            }),
    {
        match self.input.next_component() {
            Err(e) => Err(e),
            Ok(None) => Err(Error::Syntax),
            Ok(Some(c)) => Ok(c),
        }
    }

    /// Decodes a boolean from the literals `true` and `false`.
    pub fn deserialize_bool(&mut self) -> (r: Result<bool, Error>)
        ensures
            final(self).input.delim() == old(self).input.delim(),
            final(self).input.load_ok() == old(self).input.load_ok(),
            !old(self).input.load_ok() ==> (r matches Err(e) && load_err(old(self).input, e)),
            old(self).input.load_ok() ==> scalar_step(
                old(self).input.queue(),
                r,
                final(self).input.queue(),
                |cs: Seq<char>|
                    if cs == true_chars() {
                        Some(true)
                    } else if cs == false_chars() {
                        Some(false)
                    } else {
                        None
                    },
            ),
    {
        let component = match self.next_component() {
            Ok(c) => c,
            Err(e) => {
                return Err(e);
            },
        };
        proof {
            reveal_strlit("true");
            reveal_strlit("false");
            assert("true"@ =~= true_chars());
            assert("false"@ =~= false_chars());
        }
        if str_eq(component.as_str(), "true") {
            Ok(true)
        } else if str_eq(component.as_str(), "false") {
            Ok(false)
        } else {
            Err(Error::Data(component.to_owned()))
        }
    }

    /// Takes one component and parses it as fixed-width lowercase
    /// hexadecimal of exactly `digits` characters.
    fn deserialize_fixed(&mut self, digits: usize) -> (r: Result<u128, Error>)
        requires
            digits <= 32,
        ensures
            final(self).input.delim() == old(self).input.delim(),
            final(self).input.load_ok() == old(self).input.load_ok(),
            !old(self).input.load_ok() ==> (r matches Err(e) && load_err(old(self).input, e)),
            old(self).input.load_ok() ==> ({
                let q0 = old(self).input.queue();
                &&& q0.len() == 0 ==> (r matches Err(e) && e is Syntax) && final(self).input.queue() == q0
                &&& q0.len() > 0 ==> final(self).input.queue() == q0.drop_first() && (if q0[0].len()
                    == digits && all_hex(q0[0]) {
                    r matches Ok(v) && v as nat == hex_seq_val(q0[0]) && v < pow16(
                        digits as nat,
                    )
                } else {
                    r matches Err(e) && (e matches Error::Data(s) && s@ == q0[0])
                })
            }),
    {
        let component = match self.next_component() {
            Ok(c) => c,
            Err(e) => {
                return Err(e);
            },
        };
        match parse_hex_fixed(component.as_str(), digits) {
            Some(v) => {
                proof {
                    lemma_hex_seq_val(component@);
                }
                Ok(v)
            },
            None => Err(Error::Data(component.to_owned())),
        }
    }

    pub fn deserialize_u8(&mut self) -> (r: Result<u8, Error>)
        ensures
            final(self).input.delim() == old(self).input.delim(),
            final(self).input.load_ok() == old(self).input.load_ok(),
            !old(self).input.load_ok() ==> (r matches Err(e) && load_err(old(self).input, e)),
            old(self).input.load_ok() ==> scalar_step(
                old(self).input.queue(),
                r,
                final(self).input.queue(),
                |cs: Seq<char>|
                    if cs.len() == 2 && all_hex(cs) {
                        Some(hex_seq_val(cs) as u8)
                    } else {
                        None
                    },
            ),
    {
        proof {
            lemma_pow16_widths();
        }
        match self.deserialize_fixed(2) {
            Ok(v) => Ok(v as u8),
            Err(e) => Err(e),
        }
    }

    pub fn deserialize_u16(&mut self) -> (r: Result<u16, Error>)
        ensures
            final(self).input.delim() == old(self).input.delim(),
            final(self).input.load_ok() == old(self).input.load_ok(),
            !old(self).input.load_ok() ==> (r matches Err(e) && load_err(old(self).input, e)),
            old(self).input.load_ok() ==> scalar_step(
                old(self).input.queue(),
                r,
                final(self).input.queue(),
                |cs: Seq<char>|
                    if cs.len() == 4 && all_hex(cs) {
                        Some(hex_seq_val(cs) as u16)
                    } else {
                        None
                    },
            ),
    {
        proof {
            lemma_pow16_widths();
        }
        match self.deserialize_fixed(4) {
            Ok(v) => Ok(v as u16),
            Err(e) => Err(e),
        }
    }

    pub fn deserialize_u32(&mut self) -> (r: Result<u32, Error>)
        ensures
            final(self).input.delim() == old(self).input.delim(),
            final(self).input.load_ok() == old(self).input.load_ok(),
            !old(self).input.load_ok() ==> (r matches Err(e) && load_err(old(self).input, e)),
            old(self).input.load_ok() ==> scalar_step(
                old(self).input.queue(),
                r,
                final(self).input.queue(),
                |cs: Seq<char>|
                    if cs.len() == 8 && all_hex(cs) {
                        Some(hex_seq_val(cs) as u32)
                    } else {
                        None
                    },
            ),
    {
        proof {
            lemma_pow16_widths();
        }
        match self.deserialize_fixed(8) {
            Ok(v) => Ok(v as u32),
            Err(e) => Err(e),
        }
    }

    pub fn deserialize_u64(&mut self) -> (r: Result<u64, Error>)
        ensures
            final(self).input.delim() == old(self).input.delim(),
            final(self).input.load_ok() == old(self).input.load_ok(),
            !old(self).input.load_ok() ==> (r matches Err(e) && load_err(old(self).input, e)),
            old(self).input.load_ok() ==> scalar_step(
                old(self).input.queue(),
                r,
                final(self).input.queue(),
                |cs: Seq<char>|
                    if cs.len() == 16 && all_hex(cs) {
                        Some(hex_seq_val(cs) as u64)
                    } else {
                        None
                    },
            ),
    {
        proof {
            lemma_pow16_widths();
        }
        match self.deserialize_fixed(16) {
            Ok(v) => Ok(v as u64),
            Err(e) => Err(e),
        }
    }

    pub fn deserialize_u128(&mut self) -> (r: Result<u128, Error>)
        ensures
            final(self).input.delim() == old(self).input.delim(),
            final(self).input.load_ok() == old(self).input.load_ok(),
            !old(self).input.load_ok() ==> (r matches Err(e) && load_err(old(self).input, e)),
            old(self).input.load_ok() ==> scalar_step(
                old(self).input.queue(),
                r,
                final(self).input.queue(),
                |cs: Seq<char>|
                    if cs.len() == 32 && all_hex(cs) {
                        Some(hex_seq_val(cs) as u128)
                    } else {
                        None
                    },
            ),
    {
        proof {
            lemma_pow16_widths();
        }
        self.deserialize_fixed(32)
    }

    pub fn deserialize_i8(&mut self) -> (r: Result<i8, Error>)
        ensures
            final(self).input.delim() == old(self).input.delim(),
            final(self).input.load_ok() == old(self).input.load_ok(),
            !old(self).input.load_ok() ==> (r matches Err(e) && load_err(old(self).input, e)),
            old(self).input.load_ok() ==> scalar_step(
                old(self).input.queue(),
                r,
                final(self).input.queue(),
                |cs: Seq<char>|
                    if cs.len() == 2 && all_hex(cs) {
                        Some(sign_flip8(hex_seq_val(cs) as u8) as i8)
                    } else {
                        None
                    },
            ),
    {
        proof {
            lemma_pow16_widths();
        }
        match self.deserialize_fixed(2) {
            Ok(v) => Ok(restore_i8(v as u8)),
            Err(e) => Err(e),
        }
    }

    pub fn deserialize_i16(&mut self) -> (r: Result<i16, Error>)
        ensures
            final(self).input.delim() == old(self).input.delim(),
            final(self).input.load_ok() == old(self).input.load_ok(),
            !old(self).input.load_ok() ==> (r matches Err(e) && load_err(old(self).input, e)),
            old(self).input.load_ok() ==> scalar_step(
                old(self).input.queue(),
                r,
                final(self).input.queue(),
                |cs: Seq<char>|
                    if cs.len() == 4 && all_hex(cs) {
                        Some(sign_flip16(hex_seq_val(cs) as u16) as i16)
                    } else {
                        None
                    },
            ),
    {
        proof {
            lemma_pow16_widths();
        }
        match self.deserialize_fixed(4) {
            Ok(v) => Ok(restore_i16(v as u16)),
            Err(e) => Err(e),
        }
    }

    pub fn deserialize_i32(&mut self) -> (r: Result<i32, Error>)
        ensures
            final(self).input.delim() == old(self).input.delim(),
            final(self).input.load_ok() == old(self).input.load_ok(),
            !old(self).input.load_ok() ==> (r matches Err(e) && load_err(old(self).input, e)),
            old(self).input.load_ok() ==> scalar_step(
                old(self).input.queue(),
                r,
                final(self).input.queue(),
                |cs: Seq<char>|
                    if cs.len() == 8 && all_hex(cs) {
                        Some(sign_flip32(hex_seq_val(cs) as u32) as i32)
                    } else {
                        None
                    },
            ),
    {
        proof {
            lemma_pow16_widths();
        }
        match self.deserialize_fixed(8) {
            Ok(v) => Ok(restore_i32(v as u32)),
            Err(e) => Err(e),
        }
    }

    pub fn deserialize_i64(&mut self) -> (r: Result<i64, Error>)
        ensures
            final(self).input.delim() == old(self).input.delim(),
            final(self).input.load_ok() == old(self).input.load_ok(),
            !old(self).input.load_ok() ==> (r matches Err(e) && load_err(old(self).input, e)),
            old(self).input.load_ok() ==> scalar_step(
                old(self).input.queue(),
                r,
                final(self).input.queue(),
                |cs: Seq<char>|
                    if cs.len() == 16 && all_hex(cs) {
                        Some(sign_flip64(hex_seq_val(cs) as u64) as i64)
                    } else {
                        None
                    },
            ),
    {
        proof {
            lemma_pow16_widths();
        }
        match self.deserialize_fixed(16) {
            Ok(v) => Ok(restore_i64(v as u64)),
            Err(e) => Err(e),
        }
    }

    pub fn deserialize_i128(&mut self) -> (r: Result<i128, Error>)
        ensures
            final(self).input.delim() == old(self).input.delim(),
            final(self).input.load_ok() == old(self).input.load_ok(),
            !old(self).input.load_ok() ==> (r matches Err(e) && load_err(old(self).input, e)),
            old(self).input.load_ok() ==> scalar_step(
                old(self).input.queue(),
                r,
                final(self).input.queue(),
                |cs: Seq<char>|
                    if cs.len() == 32 && all_hex(cs) {
                        Some(sign_flip128(hex_seq_val(cs) as u128) as i128)
                    } else {
                        None
                    },
            ),
    {
        proof {
            lemma_pow16_widths();
        }
        match self.deserialize_fixed(32) {
            Ok(v) => Ok(restore_i128(v)),
            Err(e) => Err(e),
        }
    }

    /// Decodes a thirty-two-bit floating-point bit pattern, inverting the
    /// order-preserving transform.
    pub fn deserialize_f32_bits(&mut self) -> (r: Result<u32, Error>)
        ensures
            final(self).input.delim() == old(self).input.delim(),
            final(self).input.load_ok() == old(self).input.load_ok(),
            !old(self).input.load_ok() ==> (r matches Err(e) && load_err(old(self).input, e)),
            old(self).input.load_ok() ==> scalar_step(
                old(self).input.queue(),
                r,
                final(self).input.queue(),
                |cs: Seq<char>|
                    if cs.len() == 8 && all_hex(cs) {
                        Some(float_dec32(hex_seq_val(cs) as u32))
                    } else {
                        None
                    },
            ),
    {
        proof {
            lemma_pow16_widths();
        }
        match self.deserialize_fixed(8) {
            Ok(v) => Ok(dec_f32_bits(v as u32)),
            Err(e) => Err(e),
        }
    }

    /// Decodes a sixty-four-bit floating-point bit pattern, inverting the
    /// order-preserving transform.
    pub fn deserialize_f64_bits(&mut self) -> (r: Result<u64, Error>)
        ensures
            final(self).input.delim() == old(self).input.delim(),
            final(self).input.load_ok() == old(self).input.load_ok(),
            !old(self).input.load_ok() ==> (r matches Err(e) && load_err(old(self).input, e)),
            old(self).input.load_ok() ==> scalar_step(
                old(self).input.queue(),
                r,
                final(self).input.queue(),
                |cs: Seq<char>|
                    if cs.len() == 16 && all_hex(cs) {
                        Some(float_dec64(hex_seq_val(cs) as u64))
                    } else {
                        None
                    },
            ),
    {
        proof {
            lemma_pow16_widths();
        }
        match self.deserialize_fixed(16) {
            Ok(v) => Ok(dec_f64_bits(v as u64)),
            Err(e) => Err(e),
        }
    }

    /// Decodes a character: the component must hold exactly one.
    pub fn deserialize_char(&mut self) -> (r: Result<char, Error>)
        ensures
            final(self).input.delim() == old(self).input.delim(),
            final(self).input.load_ok() == old(self).input.load_ok(),
            !old(self).input.load_ok() ==> (r matches Err(e) && load_err(old(self).input, e)),
            old(self).input.load_ok() ==> scalar_step(
                old(self).input.queue(),
                r,
                final(self).input.queue(),
                |cs: Seq<char>|
                    if cs.len() == 1 {
                        Some(cs[0])
                    } else {
                        None
                    },
            ),
    {
        let component = match self.next_component() {
            Ok(c) => c,
            Err(e) => {
                return Err(e);
            },
        };
        let s = component.as_str();
        if s.unicode_len() == 1 {
            Ok(s.get_char(0))
        } else {
            Err(Error::Data(component.to_owned()))
        }
    }

    /// Decodes a string component, borrowed from the input where the
    /// source allows it and owned otherwise.
    pub fn deserialize_str(&mut self) -> (r: Result<Component<'de>, Error>)
        ensures
            final(self).input.delim() == old(self).input.delim(),
            final(self).input.load_ok() == old(self).input.load_ok(),
            !old(self).input.load_ok() ==> (r matches Err(e) && load_err(old(self).input, e)),
            old(self).input.load_ok() ==> ({
                let q0 = old(self).input.queue();
                &&& q0.len() == 0 ==> (r matches Err(e) && e is Syntax) && final(self).input.queue() == q0
                &&& q0.len() > 0 ==> (r matches Ok(c) && c@ == q0[0]) && final(self).input.queue() == q0.drop_first()
            }),
    {
        self.next_component()
    }

    /// Decodes a string component as an owned copy.
    pub fn deserialize_string(&mut self) -> (r: Result<String, Error>)
        ensures
            final(self).input.delim() == old(self).input.delim(),
            final(self).input.load_ok() == old(self).input.load_ok(),
            !old(self).input.load_ok() ==> (r matches Err(e) && load_err(old(self).input, e)),
            old(self).input.load_ok() ==> ({
                let q0 = old(self).input.queue();
                &&& q0.len() == 0 ==> (r matches Err(e) && e is Syntax) && final(self).input.queue() == q0
                &&& q0.len() > 0 ==> (r matches Ok(s) && s@ == q0[0]) && final(self).input.queue() == q0.drop_first()
            }),
    {
        match self.deserialize_str() {
            Ok(c) => Ok(c.to_owned()),
            Err(e) => Err(e),
        }
    }

    /// Decodes a byte blob from lowercase hexadecimal.  The decoded bytes
    /// are always a fresh buffer: a borrowed byte view can never be handed
    /// out.
    pub fn deserialize_bytes(&mut self) -> (r: Result<Vec<u8>, Error>)
        ensures
            final(self).input.delim() == old(self).input.delim(),
            final(self).input.load_ok() == old(self).input.load_ok(),
            !old(self).input.load_ok() ==> (r matches Err(e) && load_err(old(self).input, e)),
            old(self).input.load_ok() ==> ({
                let q0 = old(self).input.queue();
                &&& q0.len() == 0 ==> (r matches Err(e) && e is Syntax) && final(self).input.queue() == q0
                &&& q0.len() > 0 ==> final(self).input.queue() == q0.drop_first() && (if q0[0].len()
                    % 2 == 0 && all_hex(q0[0]) {
                    r matches Ok(bs) && bs@ == bytes_of_hex(q0[0])
                } else {
                    r matches Err(e) && (e matches Error::Data(s) && s@ == q0[0])
                })
            }),
    {
        let component = match self.next_component() {
            Ok(c) => c,
            Err(e) => {
                return Err(e);
            },
        };
        match parse_hex_blob(component.as_str()) {
            Some(bs) => {
                proof {
                    lemma_bytes_of_hex_blob(bs@);
                }
                Ok(bs)
            },
            None => Err(Error::Data(component.to_owned())),
        }
    }

    /// Decodes a unit value: no component is consumed, but the input is
    /// materialized, so that a later arity check is meaningful even for a
    /// document of no components.
    pub fn deserialize_unit(&mut self) -> (r: Result<(), Error>)
        ensures
            final(self).input.delim() == old(self).input.delim(),
            final(self).input.load_ok() == old(self).input.load_ok(),
            final(self).input.queue() == old(self).input.queue(),
            !old(self).input.load_ok() ==> (r matches Err(e) && load_err(old(self).input, e)),
            old(self).input.load_ok() ==> r is Ok && final(self).input.loaded(),
    {
        self.input.preload_components()
    }

    /// Decodes a whole value against the requested shape.  An unsupported
    /// shape kind at the top is rejected before any byte is consulted;
    /// otherwise the input is materialized first, and the walk then
    /// consumes exactly the components the shape implies.
    #[verifier::rlimit(50)]
    pub fn decode_value(&mut self, shape: &Shape) -> (r: Result<Value, Error>)
        ensures
            final(self).input.delim() == old(self).input.delim(),
            final(self).input.load_ok() == old(self).input.load_ok(),
            top_rejected(shape@) ==> r == Err::<Value, Error>(Error::UnsupportedType) && *final(self) == *old(self),
            !top_rejected(shape@) && !old(self).input.load_ok() ==> (r matches Err(e)
                && load_err(old(self).input, e)) && final(self).input.queue() == old(self).input.queue(),
            !top_rejected(shape@) && old(self).input.load_ok() ==> decode_rel(
                shape@,
                old(self).input.queue(),
                r,
                final(self).input.queue(),
            ),
        decreases *shape, 0nat, 0nat,
    {
        let rejected = match shape {
            Shape::BytesBorrowed => true,
            Shape::Optional(_) => true,
            Shape::List(_) => true,
            Shape::Dict(_, _) => true,
            Shape::PayloadEnum => true,
            _ => false,
        };
        if rejected {
            return Err(Error::UnsupportedType);
        }
        match self.input.preload_components() {
            Err(e) => {
                return Err(e);
            },
            Ok(()) => {},
        }
        let ghost q0 = old(self).input.queue();
        match shape {
            Shape::Bool => {
                proof {
                    assert(shape@ == ShapeView::Bool);
                }
                match self.deserialize_bool() {
                    Ok(b) => Ok(Value::Bool(b)),
                    Err(e) => Err(e),
                }
            },
            Shape::U8 => {
                proof {
                    assert(shape@ == ShapeView::U8);
                }
                match self.deserialize_u8() {
                    Ok(v) => Ok(Value::U8(v)),
                    Err(e) => Err(e),
                }
            },
            Shape::U16 => {
                proof {
                    assert(shape@ == ShapeView::U16);
                }
                match self.deserialize_u16() {
                    Ok(v) => Ok(Value::U16(v)),
                    Err(e) => Err(e),
                }
            },
            Shape::U32 => {
                proof {
                    assert(shape@ == ShapeView::U32);
                }
                match self.deserialize_u32() {
                    Ok(v) => Ok(Value::U32(v)),
                    Err(e) => Err(e),
                }
            },
            Shape::U64 => {
                proof {
                    assert(shape@ == ShapeView::U64);
                }
                match self.deserialize_u64() {
                    Ok(v) => Ok(Value::U64(v)),
                    Err(e) => Err(e),
                }
            },
            Shape::U128 => {
                proof {
                    assert(shape@ == ShapeView::U128);
                }
                match self.deserialize_u128() {
                    Ok(v) => Ok(Value::U128(v)),
                    Err(e) => Err(e),
                }
            },
            Shape::I8 => {
                proof {
                    assert(shape@ == ShapeView::I8);
                }
                match self.deserialize_i8() {
                    Ok(v) => Ok(Value::I8(v)),
                    Err(e) => Err(e),
                }
            },
            Shape::I16 => {
                proof {
                    assert(shape@ == ShapeView::I16);
                }
                match self.deserialize_i16() {
                    Ok(v) => Ok(Value::I16(v)),
                    Err(e) => Err(e),
                }
            },
            Shape::I32 => {
                proof {
                    assert(shape@ == ShapeView::I32);
                }
                match self.deserialize_i32() {
                    Ok(v) => Ok(Value::I32(v)),
                    Err(e) => Err(e),
                }
            },
            Shape::I64 => {
                proof {
                    assert(shape@ == ShapeView::I64);
                }
                match self.deserialize_i64() {
                    Ok(v) => Ok(Value::I64(v)),
                    Err(e) => Err(e),
                }
            },
            Shape::I128 => {
                proof {
                    assert(shape@ == ShapeView::I128);
                }
                match self.deserialize_i128() {
                    Ok(v) => Ok(Value::I128(v)),
                    Err(e) => Err(e),
                }
            },
            Shape::F32 => {
                proof {
                    assert(shape@ == ShapeView::F32);
                }
                match self.deserialize_f32_bits() {
                    Ok(v) => Ok(Value::F32Bits(v)),
                    Err(e) => Err(e),
                }
            },
            Shape::F64 => {
                proof {
                    assert(shape@ == ShapeView::F64);
                }
                match self.deserialize_f64_bits() {
                    Ok(v) => Ok(Value::F64Bits(v)),
                    Err(e) => Err(e),
                }
            },
            Shape::Char => {
                proof {
                    assert(shape@ == ShapeView::Char);
                }
                let res: Result<Value, Error> = match self.deserialize_char() {
                    Ok(c) => {
                        let v = Value::Char(c);
                        proof {
                            crate::value::lemma_char_view(c);
                        }
                        Ok(v)
                    },
                    Err(e) => Err(e),
                };
                proof {
                    assert(decode_rel(shape@, q0, res, self.input.queue()));
                }
                res
            },
            Shape::Str => {
                proof {
                    assert(shape@ == ShapeView::Str);
                }
                match self.deserialize_string() {
                    Ok(s) => Ok(Value::Str(s)),
                    Err(e) => Err(e),
                }
            },
            Shape::Bytes => {
                proof {
                    assert(shape@ == ShapeView::Bytes);
                }
                match self.deserialize_bytes() {
                    Ok(bs) => Ok(Value::Bytes(bs)),
                    Err(e) => Err(e),
                }
            },
            Shape::Unit => {
                proof {
                    assert(shape@ == ShapeView::Unit);
                }
                match self.deserialize_unit() {
                    Ok(()) => Ok(Value::Unit),
                    Err(e) => Err(e),
                }
            },
            Shape::Enum(names) => {
                proof {
                    assert(shape@ == ShapeView::Enum(names_view(names@)));
                }
                self.decode_unit_variant(names)
            },
            Shape::Newtype(inner) => {
                proof {
                    assert(decreases_to!(*shape => shape->Newtype_0));
                    assert(shape@ == ShapeView::Newtype(Box::new(shape_view(**inner))));
                }
                match self.decode_value(inner) {
                    Ok(v) => Ok(Value::Newtype(Box::new(v))),
                    Err(e) => Err(e),
                }
            },
            Shape::Tuple(shapes) => {
                proof {
                    assert(decreases_to!(*shape => shape->Tuple_0));
                    assert(decreases_to!(shape->Tuple_0 => shape->Tuple_0@));
                    assert(shape@ == ShapeView::Tuple(shapes_view(shapes@, 0)));
                }
                match self.decode_fields(shapes, 0) {
                    Ok(vs) => Ok(Value::Tuple(vs)),
                    Err(e) => Err(e),
                }
            },
            _ => {
                proof {
                    assert(false);
                }
                Err(Error::UnsupportedType)
            },
        }
    }

    /// Decodes a unit enum variant: the component must be one of the
    /// variant names.
    fn decode_unit_variant(&mut self, names: &Vec<String>) -> (r: Result<Value, Error>)
        requires
            old(self).input.load_ok(),
            old(self).input.loaded(),
        ensures
            final(self).input.delim() == old(self).input.delim(),
            final(self).input.load_ok() == old(self).input.load_ok(),
            decode_rel(
                ShapeView::Enum(names_view(names@)),
                old(self).input.queue(),
                r,
                final(self).input.queue(),
            ),
    {
        let ghost q0 = old(self).input.queue();
        let component = match self.next_component() {
            Ok(c) => c,
            Err(e) => {
                return Err(e);
            },
        };
        let ghost cv = component@;
        if find_name(names, component.as_str()) {
            proof {
                assert(names_view(names@).contains(cv)) by {
                    let k = choose|k: int|
                        0 <= k < names@.len() && (#[trigger] names@[k])@ == cv;
                    assert(names_view(names@)[k] == cv);
                }
            }
            let owned = component.to_owned();
            proof {
                assert(value_view(Value::UnitVariant(owned))
                    == crate::value::ValueView::UnitVariant(cv));
                assert(dec_value(ShapeView::Enum(names_view(names@)), q0) == Ok::<
                    (crate::value::ValueView, Seq<Seq<char>>),
                    crate::value::DecErr,
                >((crate::value::ValueView::UnitVariant(q0[0]), q0.drop_first())));
            }
            Ok(Value::UnitVariant(owned))
        } else {
            proof {
                assert forall|j: int|
                    0 <= j < names_view(names@).len() implies names_view(names@)[j] != cv by {
                    assert(names@[j]@ != cv);
                }
                assert(!names_view(names@).contains(cv));
            }
            Err(Error::Data(component.to_owned()))
        }
    }

    /// Decodes the fields of a fixed-arity sequence from index `j` on,
    /// against the same shared component queue.
    fn decode_fields(&mut self, shapes: &Vec<Shape>, j: usize) -> (r: Result<Vec<Value>, Error>)
        requires
            j <= shapes@.len(),
            old(self).input.load_ok(),
        ensures
            final(self).input.delim() == old(self).input.delim(),
            final(self).input.load_ok() == old(self).input.load_ok(),
            match dec_tuple(shapes_view(shapes@, 0), j as int, old(self).input.queue()) {
                Ok((vs, qr)) => (r matches Ok(out) && values_view(out@, 0) == vs) && final(self).input.queue() == qr,
                Err(e) => r matches Err(x) && crate::value::exec_err_matches(x, e),
            },
        decreases shapes@, 1nat, shapes@.len() - j,
    {
        proof {
            lemma_shapes_view(shapes@, 0);
        }
        let ghost sv = shapes_view(shapes@, 0);
        if j >= shapes.len() {
            let out: Vec<Value> = Vec::new();
            proof {
                assert(values_view(out@, 0) =~= Seq::<crate::value::ValueView>::empty());
            }
            Ok(out)
        } else {
            proof {
                assert(decreases_to!(shapes@ => shapes@[j as int]));
                assert(sv[j as int] == shape_view(shapes@[j as int]));
            }
            let ghost q0 = self.input.queue();
            let head = match self.decode_value(&shapes[j]) {
                Ok(v) => v,
                Err(e) => {
                    proof {
                        let dv = dec_value(sv[j as int], q0);
                        if top_rejected(sv[j as int]) {
                            assert(dv is Err && dv->Err_0 is Unsupported);
                        }
                        assert(dv is Err);
                        assert(dec_tuple(sv, j as int, q0) == Err::<
                            (Seq<crate::value::ValueView>, Seq<Seq<char>>),
                            crate::value::DecErr,
                        >(dv->Err_0));
                        assert(crate::value::exec_err_matches(e, dv->Err_0));
                    }
                    return Err(e);
                },
            };
            let ghost q1 = self.input.queue();
            proof {
                if top_rejected(sv[j as int]) {
                    assert(false);
                }
                assert(dec_value(sv[j as int], q0) == Ok::<
                    (crate::value::ValueView, Seq<Seq<char>>),
                    crate::value::DecErr,
                >((value_view(head), q1)));
            }
            let rest = match self.decode_fields(shapes, j + 1) {
                Ok(vs) => vs,
                Err(e) => {
                    proof {
                        let dt = dec_tuple(sv, j as int + 1, q1);
                        assert(dt is Err);
                        assert(dec_tuple(sv, j as int, q0) == Err::<
                            (Seq<crate::value::ValueView>, Seq<Seq<char>>),
                            crate::value::DecErr,
                        >(dt->Err_0));
                    }
                    return Err(e);
                },
            };
            proof {
                let dt = dec_tuple(sv, j as int + 1, q1);
                assert(dt is Ok);
                assert(dec_tuple(sv, j as int, q0) == Ok::<
                    (Seq<crate::value::ValueView>, Seq<Seq<char>>),
                    crate::value::DecErr,
                >((seq![value_view(head)] + dt->Ok_0.0, dt->Ok_0.1)));
            }
            let ghost head_v = value_view(head);
            let ghost rest0 = rest@;
            let ghost rest_v = values_view(rest0, 0);
            let mut out: Vec<Value> = Vec::new();
            out.push(head);
            let mut rest_vec = rest;
            out.append(&mut rest_vec);
            proof {
                assert(out@ =~= seq![head] + rest0);
                lemma_values_view(out@, 0);
                lemma_values_view(rest0, 0);
                assert forall|i: int|
                    0 <= i < out@.len() implies values_view(out@, 0)[i] == (seq![head_v]
                    + rest_v)[i] by {
                    if i == 0 {
                        assert(out@[0] == head);
                    } else {
                        assert(out@[i] == rest0[i - 1]);
                    }
                }
                assert(values_view(out@, 0) =~= seq![head_v] + rest_v);
            }
            Ok(out)
        }
    }
}

impl<'de> Deserializer<'de, SliceReader<'de>> {
    /// Construct a deserializer to deserialize the given slice.
    pub fn from_slice(input: &'de [u8]) -> (r: Self)
        ensures
            !r.input.loaded(),
            r.input.delim() == seq![':'],
            r.input.input@ == input@,
            r.input.load_ok() == valid_utf8(input@),
            r.input.queue() == pieces_of(decode_utf8(input@), seq![':']),
    {
        Self::new(SliceReader::new(input))
    }
}

impl<'de> Deserializer<'de, IoReader<'de>> {
    /// Construct a deserializer to deserialize data from the given reader,
    /// draining it fully.
    pub fn from_reader<R: std::io::Read>(input: R) -> (r: Self)
        ensures
            !r.input.loaded(),
            r.input.delim() == seq![':'],
            r.input.load_ok() == (r.input.source is Ok),
            r.input.source matches Err(e) ==> e is Io,
            r.input.source matches Ok(b) ==> r.input.queue() == pieces_of(b@, seq![':']),
    {
        Self::new(IoReader::new(input))
    }
}

/// Deserialize the value of the requested shape from a byte slice, with
/// the default deliminator, demanding that no component remains.
pub fn from_slice(input: &[u8], shape: &Shape) -> (r: Result<Value, Error>)
    ensures
        res_matches(r, dec_doc(input@, shape@, seq![':'])),
{
    let mut deserializer = Deserializer::from_slice(input);
    let output = match deserializer.decode_value(shape) {
        Ok(v) => v,
        Err(e) => {
            return Err(e);
        },
    };
    match deserializer.end() {
        Ok(()) => Ok(output),
        Err(e) => Err(e),
    }
}

/// Deserialize the value of the requested shape from a reader, with the
/// default deliminator, demanding that no component remains.  Either the
/// read fails, or the result is the decoding of whatever text the stream
/// yielded.
pub fn from_reader<R: std::io::Read>(reader: R, shape: &Shape) -> (r: Result<Value, Error>)
    ensures
        (r matches Err(e) && e is Io) || exists|text: Seq<char>|
            res_matches(r, #[trigger] dec_text(text, shape@, seq![':'])),
{
    let mut deserializer = Deserializer::from_reader(reader);
    let ghost source = deserializer.input.source;
    let output = match deserializer.decode_value(shape) {
        Ok(v) => v,
        Err(e) => {
            proof {
                if !top_rejected(shape@) && source is Ok {
                    assert(res_matches(Err::<Value, Error>(e), dec_text(
                        source->Ok_0@,
                        shape@,
                        seq![':'],
                    )));
                }
                if top_rejected(shape@) {
                    assert(res_matches(Err::<Value, Error>(e), dec_text(
                        Seq::<char>::empty(),
                        shape@,
                        seq![':'],
                    )));
                }
            }
            return Err(e);
        },
    };
    match deserializer.end() {
        Ok(()) => {
            proof {
                assert(res_matches(Ok::<Value, Error>(output), dec_text(
                    source->Ok_0@,
                    shape@,
                    seq![':'],
                )));
            }
            Ok(output)
        },
        Err(e) => {
            proof {
                assert(res_matches(Err::<Value, Error>(e), dec_text(
                    source->Ok_0@,
                    shape@,
                    seq![':'],
                )));
            }
            Err(e)
        },
    }
}

} // verus!
