//! Order-preserving bit transforms for signed integers and floating-point
//! bit patterns.
//!
//! Unsigned integers sort correctly as fixed-width big-endian hexadecimal
//! already.  Signed integers are mapped onto the full unsigned range by
//! flipping the sign bit, so that negative values sort before non-negative
//! ones.  Floating-point bit patterns are mapped by flipping the sign bit of
//! non-negative values and every bit of negative values, which matches the
//! IEEE ordering of all non-NaN values.  Every transform is a bijection.

use vstd::prelude::*;

verus! {

// ---------------------------------------------------------------------------
// Signed integers: flip the sign bit
// ---------------------------------------------------------------------------

/// Sign-bit flip on eight bits.
pub open spec fn sign_flip8(u: u8) -> u8 {
    u ^ 0x80
}

/// Sign-bit flip on sixteen bits.
pub open spec fn sign_flip16(u: u16) -> u16 {
    u ^ 0x8000
}

/// Sign-bit flip on thirty-two bits.
pub open spec fn sign_flip32(u: u32) -> u32 {
    u ^ 0x8000_0000
}

/// Sign-bit flip on sixty-four bits.
pub open spec fn sign_flip64(u: u64) -> u64 {
    u ^ 0x8000_0000_0000_0000
}

/// Sign-bit flip on one hundred twenty-eight bits.
pub open spec fn sign_flip128(u: u128) -> u128 {
    u ^ 0x8000_0000_0000_0000_0000_0000_0000_0000
}

/// The sign-bit flip of a signed value is that value shifted up by the
/// magnitude of the type's minimum: an order-preserving map onto the
/// unsigned range.  Applying the flip twice restores the value.
pub proof fn lemma_sign_flip8(v: i8)
    ensures
        sign_flip8(v as u8) == v + 0x80,
        sign_flip8(sign_flip8(v as u8)) as i8 == v,
{
    assert(sign_flip8(v as u8) == v + 0x80 && (v as u8 ^ 0x80) ^ 0x80 == v as u8 && (v as u8)
        as i8 == v) by (bit_vector);
}

/// Restoring then flipping is the identity on the unsigned side.
pub proof fn lemma_sign_restore8(u: u8)
    ensures
        sign_flip8((sign_flip8(u) as i8) as u8) == u,
{
    assert(((u ^ 0x80) as i8) as u8 == u ^ 0x80 && (u ^ 0x80) ^ 0x80 == u) by (bit_vector);
}

pub proof fn lemma_sign_flip16(v: i16)
    ensures
        sign_flip16(v as u16) == v + 0x8000,
        sign_flip16(sign_flip16(v as u16)) as i16 == v,
{
    assert(sign_flip16(v as u16) == v + 0x8000 && (v as u16 ^ 0x8000) ^ 0x8000 == v as u16 && (
    v as u16) as i16 == v) by (bit_vector);
}

pub proof fn lemma_sign_restore16(u: u16)
    ensures
        sign_flip16((sign_flip16(u) as i16) as u16) == u,
{
    assert(((u ^ 0x8000) as i16) as u16 == u ^ 0x8000 && (u ^ 0x8000) ^ 0x8000 == u)
        by (bit_vector);
}

pub proof fn lemma_sign_flip32(v: i32)
    ensures
        sign_flip32(v as u32) == v + 0x8000_0000,
        sign_flip32(sign_flip32(v as u32)) as i32 == v,
{
    assert(sign_flip32(v as u32) == v + 0x8000_0000 && (v as u32 ^ 0x8000_0000) ^ 0x8000_0000
        == v as u32 && (v as u32) as i32 == v) by (bit_vector);
}

pub proof fn lemma_sign_restore32(u: u32)
    ensures
        sign_flip32((sign_flip32(u) as i32) as u32) == u,
{
    assert(((u ^ 0x8000_0000) as i32) as u32 == u ^ 0x8000_0000 && (u ^ 0x8000_0000)
        ^ 0x8000_0000 == u) by (bit_vector);
}

pub proof fn lemma_sign_flip64(v: i64)
    ensures
        sign_flip64(v as u64) == v + 0x8000_0000_0000_0000,
        sign_flip64(sign_flip64(v as u64)) as i64 == v,
{
    assert(sign_flip64(v as u64) == v + 0x8000_0000_0000_0000 && (v as u64
        ^ 0x8000_0000_0000_0000) ^ 0x8000_0000_0000_0000 == v as u64 && (v as u64) as i64 == v)
        by (bit_vector);
}

pub proof fn lemma_sign_restore64(u: u64)
    ensures
        sign_flip64((sign_flip64(u) as i64) as u64) == u,
{
    assert(((u ^ 0x8000_0000_0000_0000) as i64) as u64 == u ^ 0x8000_0000_0000_0000 && (u
        ^ 0x8000_0000_0000_0000) ^ 0x8000_0000_0000_0000 == u) by (bit_vector);
}

pub proof fn lemma_sign_flip128(v: i128)
    ensures
        sign_flip128(v as u128) == v + 0x8000_0000_0000_0000_0000_0000_0000_0000,
        sign_flip128(sign_flip128(v as u128)) as i128 == v,
{
    assert(sign_flip128(v as u128) == v + 0x8000_0000_0000_0000_0000_0000_0000_0000 && (v
        as u128 ^ 0x8000_0000_0000_0000_0000_0000_0000_0000)
        ^ 0x8000_0000_0000_0000_0000_0000_0000_0000 == v as u128 && (v as u128) as i128 == v)
        by (bit_vector);
}

pub proof fn lemma_sign_restore128(u: u128)
    ensures
        sign_flip128((sign_flip128(u) as i128) as u128) == u,
{
    assert(((u ^ 0x8000_0000_0000_0000_0000_0000_0000_0000) as i128) as u128 == u
        ^ 0x8000_0000_0000_0000_0000_0000_0000_0000 && (u
        ^ 0x8000_0000_0000_0000_0000_0000_0000_0000)
        ^ 0x8000_0000_0000_0000_0000_0000_0000_0000 == u) by (bit_vector);
}

// ---------------------------------------------------------------------------
// Floating-point bit patterns
// ---------------------------------------------------------------------------

/// The order-preserving transform of a thirty-two-bit IEEE bit pattern: flip
/// every bit of negative values, only the sign bit of non-negative ones.
pub open spec fn float_enc32(bits: u32) -> u32 {
    if bits >= 0x8000_0000 {
        !bits
    } else {
        bits ^ 0x8000_0000
    }
}

/// Inverse of [`float_enc32`].
pub open spec fn float_dec32(e: u32) -> u32 {
    if e >= 0x8000_0000 {
        e ^ 0x8000_0000
    } else {
        !e
    }
}

/// The value a thirty-two-bit IEEE bit pattern stands for, as a signed
/// magnitude: the mantissa-and-exponent magnitude, negated when the sign bit
/// is set.  Two non-NaN floating-point values compare exactly as their keys
/// do, except that both zeroes share the key zero.
pub open spec fn float_key32(bits: u32) -> int {
    if bits >= 0x8000_0000 {
        -((bits ^ 0x8000_0000) as int)
    } else {
        bits as int
    }
}

/// The transform is self-inverse and strictly increases with the key, for
/// every bit pattern.
pub proof fn lemma_float32(bits: u32)
    ensures
        float_dec32(float_enc32(bits)) == bits,
        float_enc32(float_dec32(bits)) == bits,
{
    assert({
        &&& bits >= 0x8000_0000 ==> !bits < 0x8000_0000 && !(!bits) == bits
        &&& bits < 0x8000_0000 ==> (bits ^ 0x8000_0000) >= 0x8000_0000 && (bits ^ 0x8000_0000)
            ^ 0x8000_0000 == bits
        &&& bits >= 0x8000_0000 ==> (bits ^ 0x8000_0000) < 0x8000_0000 && !(bits ^ 0x8000_0000)
            >= 0x8000_0000 && !(!(bits ^ 0x8000_0000)) == bits ^ 0x8000_0000 && (bits
            ^ 0x8000_0000) ^ 0x8000_0000 == bits
        &&& bits < 0x8000_0000 ==> !bits >= 0x8000_0000 && !(!bits) == bits
    }) by (bit_vector);
}

/// Keys order the transformed patterns.
pub proof fn lemma_float_enc32_order(a: u32, b: u32)
    requires
        float_key32(a) < float_key32(b),
    ensures
        float_enc32(a) < float_enc32(b),
{
    assert({
        &&& a >= 0x8000_0000 ==> !a == 0x7FFF_FFFF - (a ^ 0x8000_0000)
        &&& a < 0x8000_0000 ==> (a ^ 0x8000_0000) == 0x8000_0000 + a
        &&& b >= 0x8000_0000 ==> !b == 0x7FFF_FFFF - (b ^ 0x8000_0000)
        &&& b < 0x8000_0000 ==> (b ^ 0x8000_0000) == 0x8000_0000 + b
    }) by (bit_vector);
}

/// The transform of a sixty-four-bit IEEE bit pattern.
pub open spec fn float_enc64(bits: u64) -> u64 {
    if bits >= 0x8000_0000_0000_0000 {
        !bits
    } else {
        bits ^ 0x8000_0000_0000_0000
    }
}

/// Inverse of [`float_enc64`].
pub open spec fn float_dec64(e: u64) -> u64 {
    if e >= 0x8000_0000_0000_0000 {
        e ^ 0x8000_0000_0000_0000
    } else {
        !e
    }
}

/// The signed-magnitude key of a sixty-four-bit IEEE bit pattern.
pub open spec fn float_key64(bits: u64) -> int {
    if bits >= 0x8000_0000_0000_0000 {
        -((bits ^ 0x8000_0000_0000_0000) as int)
    } else {
        bits as int
    }
}

pub proof fn lemma_float64(bits: u64)
    ensures
        float_dec64(float_enc64(bits)) == bits,
        float_enc64(float_dec64(bits)) == bits,
{
    assert({
        &&& bits >= 0x8000_0000_0000_0000 ==> !bits < 0x8000_0000_0000_0000 && !(!bits) == bits
        &&& bits < 0x8000_0000_0000_0000 ==> (bits ^ 0x8000_0000_0000_0000)
            >= 0x8000_0000_0000_0000 && (bits ^ 0x8000_0000_0000_0000) ^ 0x8000_0000_0000_0000
            == bits
        &&& bits >= 0x8000_0000_0000_0000 ==> (bits ^ 0x8000_0000_0000_0000)
            < 0x8000_0000_0000_0000 && !(bits ^ 0x8000_0000_0000_0000) >= 0x8000_0000_0000_0000
            && !(!(bits ^ 0x8000_0000_0000_0000)) == bits ^ 0x8000_0000_0000_0000 && (bits
            ^ 0x8000_0000_0000_0000) ^ 0x8000_0000_0000_0000 == bits
        &&& bits < 0x8000_0000_0000_0000 ==> !bits >= 0x8000_0000_0000_0000 && !(!bits) == bits
    }) by (bit_vector);
}

pub proof fn lemma_float_enc64_order(a: u64, b: u64)
    requires
        float_key64(a) < float_key64(b),
    ensures
        float_enc64(a) < float_enc64(b),
{
    assert({
        &&& a >= 0x8000_0000_0000_0000 ==> !a == 0x7FFF_FFFF_FFFF_FFFF - (a
            ^ 0x8000_0000_0000_0000)
        &&& a < 0x8000_0000_0000_0000 ==> (a ^ 0x8000_0000_0000_0000) == 0x8000_0000_0000_0000
            + a
        &&& b >= 0x8000_0000_0000_0000 ==> !b == 0x7FFF_FFFF_FFFF_FFFF - (b
            ^ 0x8000_0000_0000_0000)
        &&& b < 0x8000_0000_0000_0000 ==> (b ^ 0x8000_0000_0000_0000) == 0x8000_0000_0000_0000
            + b
    }) by (bit_vector);
}

// ---------------------------------------------------------------------------
// Executable transforms
// ---------------------------------------------------------------------------

/// The sign-bit flip of a signed eight-bit value.
pub fn flip_i8(v: i8) -> (r: u8)
    ensures
        r == sign_flip8(v as u8),
{
    #[verifier::truncate] (v as u8) ^ 0x80
}

/// Restores a signed eight-bit value from its sign-bit flip.
pub fn restore_i8(u: u8) -> (r: i8)
    ensures
        r == sign_flip8(u) as i8,
{
    #[verifier::truncate] ((u ^ 0x80) as i8)
}

pub fn flip_i16(v: i16) -> (r: u16)
    ensures
        r == sign_flip16(v as u16),
{
    #[verifier::truncate] (v as u16) ^ 0x8000
}

pub fn restore_i16(u: u16) -> (r: i16)
    ensures
        r == sign_flip16(u) as i16,
{
    #[verifier::truncate] ((u ^ 0x8000) as i16)
}

pub fn flip_i32(v: i32) -> (r: u32)
    ensures
        r == sign_flip32(v as u32),
{
    #[verifier::truncate] (v as u32) ^ 0x8000_0000
}

pub fn restore_i32(u: u32) -> (r: i32)
    ensures
        r == sign_flip32(u) as i32,
{
    #[verifier::truncate] ((u ^ 0x8000_0000) as i32)
}

pub fn flip_i64(v: i64) -> (r: u64)
    ensures
        r == sign_flip64(v as u64),
{
    #[verifier::truncate] (v as u64) ^ 0x8000_0000_0000_0000
}

pub fn restore_i64(u: u64) -> (r: i64)
    ensures
        r == sign_flip64(u) as i64,
{
    #[verifier::truncate] ((u ^ 0x8000_0000_0000_0000) as i64)
}

pub fn flip_i128(v: i128) -> (r: u128)
    ensures
        r == sign_flip128(v as u128),
{
    #[verifier::truncate] (v as u128) ^ 0x8000_0000_0000_0000_0000_0000_0000_0000
}

pub fn restore_i128(u: u128) -> (r: i128)
    ensures
        r == sign_flip128(u) as i128,
{
    #[verifier::truncate] ((u ^ 0x8000_0000_0000_0000_0000_0000_0000_0000) as i128)
}

/// The order-preserving transform of a thirty-two-bit IEEE bit pattern.
pub fn enc_f32_bits(bits: u32) -> (r: u32)
    ensures
        r == float_enc32(bits),
{
    if bits >= 0x8000_0000 {
        !bits
    } else {
        bits ^ 0x8000_0000
    }
}

/// The inverse transform of a thirty-two-bit IEEE bit pattern.
pub fn dec_f32_bits(e: u32) -> (r: u32)
    ensures
        r == float_dec32(e),
{
    if e >= 0x8000_0000 {
        e ^ 0x8000_0000
    } else {
        !e
    }
}

/// The order-preserving transform of a sixty-four-bit IEEE bit pattern.
pub fn enc_f64_bits(bits: u64) -> (r: u64)
    ensures
        r == float_enc64(bits),
{
    if bits >= 0x8000_0000_0000_0000 {
        !bits
    } else {
        bits ^ 0x8000_0000_0000_0000
    }
}

/// The inverse transform of a sixty-four-bit IEEE bit pattern.
pub fn dec_f64_bits(e: u64) -> (r: u64)
    ensures
        r == float_dec64(e),
{
    if e >= 0x8000_0000_0000_0000 {
        e ^ 0x8000_0000_0000_0000
    } else {
        !e
    }
}

} // verus!
