//! Lowercase hexadecimal text: fixed-width numeric components, byte-blob
//! components, and the lexicographic-order facts that make fixed-width hex
//! order-preserving.

use vstd::prelude::*;
use vstd::utf8::encode_utf8;
use vstd::utf8::is_ascii_chars;
use vstd::utf8::is_ascii_chars_encode_utf8;

verus! {

// ---------------------------------------------------------------------------
// Lexicographic order on sequences
// ---------------------------------------------------------------------------

/// Strict lexicographic order on byte sequences: `a` sorts before `b`.
pub open spec fn lex_lt_bytes(a: Seq<u8>, b: Seq<u8>) -> bool
    decreases a.len(),
{
    if b.len() == 0 {
        false
    } else if a.len() == 0 {
        true
    } else if a[0] < b[0] {
        true
    } else if a[0] > b[0] {
        false
    } else {
        lex_lt_bytes(a.drop_first(), b.drop_first())
    }
}

/// Strict lexicographic order on character sequences, by Unicode scalar value.
pub open spec fn lex_lt_chars(a: Seq<char>, b: Seq<char>) -> bool
    decreases a.len(),
{
    if b.len() == 0 {
        false
    } else if a.len() == 0 {
        true
    } else if (a[0] as u32) < (b[0] as u32) {
        true
    } else if (a[0] as u32) > (b[0] as u32) {
        false
    } else {
        lex_lt_chars(a.drop_first(), b.drop_first())
    }
}

/// The bytes of an ASCII character sequence, one byte per character.
pub open spec fn ascii_bytes(cs: Seq<char>) -> Seq<u8> {
    Seq::new(cs.len(), |i: int| cs[i] as u8)
}

/// For ASCII character sequences, the UTF-8 encoding is the byte-per-character
/// translation.
pub proof fn lemma_ascii_encode(cs: Seq<char>)
    requires
        is_ascii_chars(cs),
    ensures
        encode_utf8(cs) == ascii_bytes(cs),
{
    is_ascii_chars_encode_utf8(cs);
    assert(encode_utf8(cs) =~= ascii_bytes(cs));
}

/// Character order and byte order agree on ASCII sequences.
pub proof fn lemma_lex_ascii(a: Seq<char>, b: Seq<char>)
    requires
        is_ascii_chars(a),
        is_ascii_chars(b),
    ensures
        lex_lt_bytes(ascii_bytes(a), ascii_bytes(b)) == lex_lt_chars(a, b),
    decreases a.len(),
{
    if b.len() == 0 || a.len() == 0 {
    } else {
        assert((a[0] as u32) < 128 && (b[0] as u32) < 128);
        assert(a[0] as u8 == a[0] as u32 as u8);
        assert(ascii_bytes(a)[0] == a[0] as u8);
        assert(ascii_bytes(b)[0] == b[0] as u8);
        assert(ascii_bytes(a).drop_first() =~= ascii_bytes(a.drop_first()));
        assert(ascii_bytes(b).drop_first() =~= ascii_bytes(b.drop_first()));
        assert(is_ascii_chars(a.drop_first()));
        assert(is_ascii_chars(b.drop_first()));
        lemma_lex_ascii(a.drop_first(), b.drop_first());
    }
}

/// Appending one element to each of two equal sequences orders the results by
/// the appended elements.
pub proof fn lemma_lex_push_eq(x: Seq<char>, c: char, d: char)
    ensures
        lex_lt_chars(x.push(c), x.push(d)) == ((c as u32) < (d as u32)),
    decreases x.len(),
{
    if x.len() == 0 {
        assert(x.push(c) =~= seq![c]);
        assert(x.push(d) =~= seq![d]);
        if (c as u32) == (d as u32) {
            assert(!lex_lt_chars(seq![c].drop_first(), seq![d].drop_first()));
        }
    } else {
        assert(x.push(c).drop_first() =~= x.drop_first().push(c));
        assert(x.push(d).drop_first() =~= x.drop_first().push(d));
        lemma_lex_push_eq(x.drop_first(), c, d);
    }
}

/// Appending one element to each of two same-length, ordered sequences keeps
/// their order.
pub proof fn lemma_lex_push_lt(x: Seq<char>, y: Seq<char>, c: char, d: char)
    requires
        x.len() == y.len(),
        lex_lt_chars(x, y),
    ensures
        lex_lt_chars(x.push(c), y.push(d)),
    decreases x.len(),
{
    if x.len() == 0 {
        assert(false);
    } else if (x[0] as u32) < (y[0] as u32) {
    } else {
        assert(x.push(c).drop_first() =~= x.drop_first().push(c));
        assert(y.push(d).drop_first() =~= y.drop_first().push(d));
        lemma_lex_push_lt(x.drop_first(), y.drop_first(), c, d);
    }
}

// ---------------------------------------------------------------------------
// Hexadecimal digits
// ---------------------------------------------------------------------------

/// The lowercase hexadecimal character of a digit value below sixteen.
pub open spec fn hex_char_of(d: u8) -> char
    recommends
        d < 16,
{
    if d < 10 {
        ((0x30 + d) as u8) as char
    } else {
        ((0x57 + d) as u8) as char
    }
}

/// Whether a character is a lowercase hexadecimal digit.
pub open spec fn is_hex_char(c: char) -> bool {
    (0x30 <= c as u32 && c as u32 <= 0x39) || (0x61 <= c as u32 && c as u32 <= 0x66)
}

/// The digit value of a lowercase hexadecimal character.
pub open spec fn hex_val(c: char) -> u32
    recommends
        is_hex_char(c),
{
    if c as u32 <= 0x39 {
        (c as u32 - 0x30) as u32
    } else {
        (c as u32 - 0x57) as u32
    }
}

/// Basic facts about the digit characters: they are hex digits, they are
/// ASCII, they decode back to the digit, and they are ordered like the digits.
pub proof fn lemma_hex_char_of(d: u8)
    requires
        d < 16,
    ensures
        is_hex_char(hex_char_of(d)),
        (hex_char_of(d) as u32) < 128,
        hex_val(hex_char_of(d)) == d,
        hex_char_of(d) as u8 == hex_char_of(d) as u32,
{
    if d < 10 {
        assert(hex_char_of(d) as u32 == 0x30 + d) by {
            assert(((0x30 + d) as u8) as char as u32 == 0x30 + d);
        }
    } else {
        assert(hex_char_of(d) as u32 == 0x57 + d) by {
            assert(((0x57 + d) as u8) as char as u32 == 0x57 + d);
        }
    }
}

/// Digit characters are ordered like their digit values.
pub proof fn lemma_hex_char_order(d1: u8, d2: u8)
    requires
        d1 < 16,
        d2 < 16,
        d1 < d2,
    ensures
        (hex_char_of(d1) as u32) < (hex_char_of(d2) as u32),
{
    lemma_hex_char_of(d1);
    lemma_hex_char_of(d2);
}

// ---------------------------------------------------------------------------
// Fixed-width hexadecimal numerals
// ---------------------------------------------------------------------------

/// Sixteen to the power `n`.
pub open spec fn pow16(n: nat) -> nat
    decreases n,
{
    if n == 0 {
        1
    } else {
        16 * pow16((n - 1) as nat)
    }
}

pub proof fn lemma_pow16_monotone(m: nat, n: nat)
    requires
        m <= n,
    ensures
        pow16(m) <= pow16(n),
        pow16(m) >= 1,
    decreases n,
{
    if n > 0 {
        if m <= n - 1 {
            lemma_pow16_monotone(m, (n - 1) as nat);
        } else {
            lemma_pow16_monotone((m - 1) as nat, (n - 1) as nat);
        }
    }
}

/// Sixteen to the thirty-second power is one more than the largest `u128`.
pub proof fn lemma_pow16_32()
    ensures
        pow16(32) == 0x100000000000000000000000000000000nat,
{
    reveal_with_fuel(pow16, 33);
}

/// The powers of sixteen that bound the fixed numeral widths in use: two
/// digits per byte of each integer width.
pub proof fn lemma_pow16_widths()
    ensures
        pow16(2) == 0x100nat,
        pow16(4) == 0x10000nat,
        pow16(8) == 0x100000000nat,
        pow16(16) == 0x10000000000000000nat,
        pow16(32) == 0x100000000000000000000000000000000nat,
{
    reveal_with_fuel(pow16, 33);
}

/// The `n`-digit lowercase hexadecimal numeral of `v`, most significant digit
/// first.  Digits beyond the `n` least significant ones are dropped.
pub open spec fn hex_digits_of(v: nat, n: nat) -> Seq<char>
    decreases n,
{
    if n == 0 {
        seq![]
    } else {
        hex_digits_of(v / 16, (n - 1) as nat).push(hex_char_of((v % 16) as u8))
    }
}

/// The numeric value of a sequence of hexadecimal digit characters, most
/// significant digit first.
pub open spec fn hex_seq_val(cs: Seq<char>) -> nat
    decreases cs.len(),
{
    if cs.len() == 0 {
        0
    } else {
        (16 * hex_seq_val(cs.drop_last()) + hex_val(cs.last())) as nat
    }
}

/// Whether every character of a sequence is a lowercase hexadecimal digit.
pub open spec fn all_hex(cs: Seq<char>) -> bool {
    forall|i: int| 0 <= i < cs.len() ==> is_hex_char(#[trigger] cs[i])
}

/// A fixed-width numeral has the requested width, is made of hexadecimal
/// digits, is ASCII, and decodes back to the encoded value.
pub proof fn lemma_hex_digits_of(v: nat, n: nat)
    ensures
        hex_digits_of(v, n).len() == n,
        all_hex(hex_digits_of(v, n)),
        is_ascii_chars(hex_digits_of(v, n)),
        v < pow16(n) ==> hex_seq_val(hex_digits_of(v, n)) == v,
    decreases n,
{
    if n == 0 {
    } else {
        let q = v / 16;
        let r = v % 16;
        lemma_hex_digits_of(q, (n - 1) as nat);
        lemma_hex_char_of(r as u8);
        let prefix = hex_digits_of(q, (n - 1) as nat);
        let whole = prefix.push(hex_char_of(r as u8));
        assert(whole.drop_last() =~= prefix);
        assert(whole.last() == hex_char_of(r as u8));
        assert forall|i: int| 0 <= i < whole.len() implies is_hex_char(#[trigger] whole[i]) by {
            if i < prefix.len() {
                assert(whole[i] == prefix[i]);
            }
        }
        assert forall|i: int| 0 <= i < whole.len() implies '\0' <= #[trigger] whole[i]
            <= '\u{7f}' by {
            if i < prefix.len() {
                assert(whole[i] == prefix[i]);
                assert('\0' <= prefix[i] <= '\u{7f}');
            } else {
                assert(whole[i] as u32 <= 0x66);
            }
        }
        if v < pow16(n) {
            assert(pow16(n) == 16 * pow16((n - 1) as nat));
            assert(v == 16 * q + r);
            assert(16 * q <= v);
            assert(q < pow16((n - 1) as nat));
            assert(hex_seq_val(whole) == 16 * hex_seq_val(prefix) + hex_val(whole.last()));
            assert(hex_seq_val(prefix) == q);
            assert(hex_val(hex_char_of(r as u8)) == r);
        }
    }
}

/// A sequence of hexadecimal digits is the numeral of its value: printing the
/// parsed value at the same width gives back the digits, and the value is
/// bounded by the width.
pub proof fn lemma_hex_seq_val(cs: Seq<char>)
    requires
        all_hex(cs),
    ensures
        hex_seq_val(cs) < pow16(cs.len()),
        hex_digits_of(hex_seq_val(cs), cs.len()) == cs,
    decreases cs.len(),
{
    if cs.len() == 0 {
        assert(hex_digits_of(0, 0) =~= cs);
    } else {
        let prefix = cs.drop_last();
        let c = cs.last();
        assert(is_hex_char(c));
        assert(all_hex(prefix)) by {
            assert(forall|i: int|
                0 <= i < prefix.len() ==> #[trigger] prefix[i] == cs[i]);
        }
        lemma_hex_seq_val(prefix);
        let q = hex_seq_val(prefix);
        let r = hex_val(c);
        let v = hex_seq_val(cs);
        assert(v == 16 * q + r);
        assert(r < 16);
        assert(pow16(cs.len()) == 16 * pow16((cs.len() - 1) as nat));
        assert(v < pow16(cs.len()));
        assert(v / 16 == q && v % 16 == r) by {
            assert(v == 16 * q + r && 0 <= r < 16);
        }
        lemma_hex_char_of(r as u8);
        assert(hex_char_of(r as u8) == c) by {
            assert(hex_char_of(r as u8) as u32 == c as u32);
            vstd::utf8::char_u32_cast(c, c as u32);
            vstd::utf8::char_u32_cast(hex_char_of(r as u8), c as u32);
        }
        assert(hex_digits_of(v, cs.len()) =~= cs);
    }
}

/// Fixed-width hexadecimal numerals sort like the values they encode.
pub proof fn lemma_hex_digits_order(a: nat, b: nat, n: nat)
    requires
        a < b,
        b < pow16(n),
    ensures
        lex_lt_chars(hex_digits_of(a, n), hex_digits_of(b, n)),
    decreases n,
{
    let qa = a / 16;
    let ra = a % 16;
    let qb = b / 16;
    let rb = b % 16;
    assert(n > 0);
    assert(a == 16 * qa + ra && 0 <= ra < 16);
    assert(b == 16 * qb + rb && 0 <= rb < 16);
    assert(pow16(n) == 16 * pow16((n - 1) as nat));
    assert(16 * qb <= b);
    assert(qb < pow16((n - 1) as nat));
    let pa = hex_digits_of(qa, (n - 1) as nat);
    let pb = hex_digits_of(qb, (n - 1) as nat);
    lemma_hex_digits_of(qa, (n - 1) as nat);
    lemma_hex_digits_of(qb, (n - 1) as nat);
    if qa == qb {
        assert(ra < rb);
        lemma_hex_char_order(ra as u8, rb as u8);
        lemma_lex_push_eq(pa, hex_char_of(ra as u8), hex_char_of(rb as u8));
    } else {
        assert(qa < qb);
        lemma_hex_digits_order(qa, qb, (n - 1) as nat);
        lemma_lex_push_lt(pa, pb, hex_char_of(ra as u8), hex_char_of(rb as u8));
    }
}

// ---------------------------------------------------------------------------
// Byte-blob hexadecimal
// ---------------------------------------------------------------------------

/// The lowercase hexadecimal text of a byte sequence, two digits per byte.
pub open spec fn hex_blob(bs: Seq<u8>) -> Seq<char>
    decreases bs.len(),
{
    if bs.len() == 0 {
        seq![]
    } else {
        seq![hex_char_of(bs[0] / 16), hex_char_of(bs[0] % 16)] + hex_blob(bs.drop_first())
    }
}

/// Blob text has two digits per byte, all of them hexadecimal and ASCII.
pub proof fn lemma_hex_blob(bs: Seq<u8>)
    ensures
        hex_blob(bs).len() == 2 * bs.len(),
        all_hex(hex_blob(bs)),
        is_ascii_chars(hex_blob(bs)),
    decreases bs.len(),
{
    if bs.len() == 0 {
    } else {
        lemma_hex_blob(bs.drop_first());
        lemma_hex_char_of(bs[0] / 16);
        lemma_hex_char_of(bs[0] % 16);
        let head = seq![hex_char_of(bs[0] / 16), hex_char_of(bs[0] % 16)];
        let whole = head + hex_blob(bs.drop_first());
        assert forall|i: int| 0 <= i < whole.len() implies is_hex_char(#[trigger] whole[i]) by {
            if i >= 2 {
                assert(whole[i] == hex_blob(bs.drop_first())[i - 2]);
            }
        }
        assert forall|i: int| 0 <= i < whole.len() implies '\0' <= #[trigger] whole[i]
            <= '\u{7f}' by {
            if i >= 2 {
                assert(whole[i] == hex_blob(bs.drop_first())[i - 2]);
                assert('\0' <= hex_blob(bs.drop_first())[i - 2] <= '\u{7f}');
            } else {
                assert(whole[i] as u32 <= 0x66);
            }
        }
    }
}

/// Extending a byte sequence extends its blob text.
pub proof fn lemma_hex_blob_snoc(bs: Seq<u8>, b: u8)
    ensures
        hex_blob(bs.push(b)) == hex_blob(bs) + seq![hex_char_of(b / 16), hex_char_of(b % 16)],
    decreases bs.len(),
{
    if bs.len() == 0 {
        let one = bs.push(b);
        assert(one.len() == 1 && one[0] == b);
        assert(one.drop_first() =~= Seq::<u8>::empty());
        assert(hex_blob(one) == seq![hex_char_of(b / 16), hex_char_of(b % 16)] + hex_blob(
            one.drop_first(),
        ));
        assert(hex_blob(bs.push(b)) =~= hex_blob(bs) + seq![
            hex_char_of(b / 16),
            hex_char_of(b % 16),
        ]);
    } else {
        assert(bs.push(b).drop_first() =~= bs.drop_first().push(b));
        lemma_hex_blob_snoc(bs.drop_first(), b);
        assert(hex_blob(bs.push(b)) =~= hex_blob(bs) + seq![
            hex_char_of(b / 16),
            hex_char_of(b % 16),
        ]);
    }
}

/// The bytes encoded by lowercase hexadecimal text, two digits per byte.
/// Trailing odd digits are dropped.
pub open spec fn bytes_of_hex(cs: Seq<char>) -> Seq<u8>
    decreases cs.len(),
{
    if cs.len() < 2 {
        seq![]
    } else {
        seq![(16 * hex_val(cs[0]) + hex_val(cs[1])) as u8] + bytes_of_hex(
            cs.subrange(2, cs.len() as int),
        )
    }
}

/// Reading back the blob text of a byte sequence gives the bytes.
pub proof fn lemma_bytes_of_hex_blob(bs: Seq<u8>)
    ensures
        bytes_of_hex(hex_blob(bs)) == bs,
    decreases bs.len(),
{
    if bs.len() == 0 {
        assert(bytes_of_hex(hex_blob(bs)) =~= bs);
    } else {
        let cs = hex_blob(bs);
        lemma_hex_blob(bs.drop_first());
        lemma_hex_char_of(bs[0] / 16);
        lemma_hex_char_of(bs[0] % 16);
        assert(cs.len() >= 2);
        assert(cs[0] == hex_char_of(bs[0] / 16) && cs[1] == hex_char_of(bs[0] % 16));
        assert(16 * hex_val(cs[0]) + hex_val(cs[1]) == 16 * (bs[0] / 16) + bs[0] % 16);
        assert(16 * (bs[0] / 16) + bs[0] % 16 == bs[0]);
        assert(cs.subrange(2, cs.len() as int) =~= hex_blob(bs.drop_first()));
        lemma_bytes_of_hex_blob(bs.drop_first());
        assert(bytes_of_hex(hex_blob(bs)) =~= bs);
    }
}

/// Printing the bytes read from even-length hexadecimal text gives back the
/// text.
pub proof fn lemma_hex_blob_of_bytes(cs: Seq<char>)
    requires
        cs.len() % 2 == 0,
        all_hex(cs),
    ensures
        hex_blob(bytes_of_hex(cs)) == cs,
    decreases cs.len(),
{
    if cs.len() == 0 {
        assert(hex_blob(bytes_of_hex(cs)) =~= cs);
    } else {
        let b = (16 * hex_val(cs[0]) + hex_val(cs[1])) as u8;
        let rest = cs.subrange(2, cs.len() as int);
        assert(is_hex_char(cs[0]) && is_hex_char(cs[1]));
        assert(hex_val(cs[0]) < 16 && hex_val(cs[1]) < 16);
        assert(b == 16 * hex_val(cs[0]) + hex_val(cs[1]));
        assert(b / 16 == hex_val(cs[0]) && b % 16 == hex_val(cs[1])) by {
            assert(b == 16 * hex_val(cs[0]) + hex_val(cs[1]) && 0 <= hex_val(cs[1]) < 16);
        }
        assert(hex_char_of((b / 16) as u8) == cs[0]) by {
            lemma_hex_char_of((b / 16) as u8);
            vstd::utf8::char_u32_cast(cs[0], cs[0] as u32);
            vstd::utf8::char_u32_cast(hex_char_of((b / 16) as u8), cs[0] as u32);
        }
        assert(hex_char_of((b % 16) as u8) == cs[1]) by {
            lemma_hex_char_of((b % 16) as u8);
            vstd::utf8::char_u32_cast(cs[1], cs[1] as u32);
            vstd::utf8::char_u32_cast(hex_char_of((b % 16) as u8), cs[1] as u32);
        }
        assert(all_hex(rest)) by {
            assert(forall|i: int| 0 <= i < rest.len() ==> #[trigger] rest[i] == cs[i + 2]);
        }
        lemma_hex_blob_of_bytes(rest);
        let bs = bytes_of_hex(cs);
        assert(bs == seq![b] + bytes_of_hex(rest));
        assert(bs.len() > 0 && bs[0] == b);
        assert(bs.drop_first() =~= bytes_of_hex(rest));
        assert(hex_blob(bs) =~= cs);
    }
}

// ---------------------------------------------------------------------------
// Executable encoding
// ---------------------------------------------------------------------------

/// The byte of the lowercase hexadecimal character of a digit value.
pub fn hex_byte_of(d: u8) -> (r: u8)
    requires
        d < 16,
    ensures
        r as char == hex_char_of(d),
        r == hex_char_of(d) as u8,
        r < 128,
{
    proof {
        lemma_hex_char_of(d);
    }
    if d < 10 {
        0x30 + d
    } else {
        0x57 + d
    }
}

/// Appends the `digits`-character lowercase hexadecimal numeral of `v` to the
/// output, most significant digit first.
pub fn push_hex_fixed(out: &mut Vec<u8>, v: u128, digits: usize)
    ensures
        final(out)@ == old(out)@ + ascii_bytes(hex_digits_of(v as nat, digits as nat)),
    decreases digits,
{
    if digits == 0 {
        proof {
            assert(old(out)@ + ascii_bytes(hex_digits_of(v as nat, 0)) =~= old(out)@);
        }
    } else {
        push_hex_fixed(out, v / 16, digits - 1);
        let b = hex_byte_of((v % 16) as u8);
        out.push(b);
        proof {
            let prefix = hex_digits_of(v as nat / 16, (digits - 1) as nat);
            assert(v as nat / 16 == (v / 16) as nat);
            assert(v as nat % 16 == (v % 16) as nat);
            assert(hex_digits_of(v as nat, digits as nat) == prefix.push(
                hex_char_of((v % 16) as u8),
            ));
            assert(final(out)@ =~= old(out)@ + ascii_bytes(hex_digits_of(v as nat, digits as nat)));
        }
    }
}

/// Appends the lowercase hexadecimal text of `data` to the output, two digits
/// per byte.
pub fn push_hex_blob(out: &mut Vec<u8>, data: &[u8])
    ensures
        final(out)@ == old(out)@ + ascii_bytes(hex_blob(data@)),
{
    let mut i: usize = 0;
    while i < data.len()
        invariant
            i <= data@.len(),
            out@ == old(out)@ + ascii_bytes(hex_blob(data@.subrange(0, i as int))),
        decreases data@.len() - i,
    {
        let b = data[i];
        let hi = hex_byte_of(b / 16);
        let lo = hex_byte_of(b % 16);
        out.push(hi);
        out.push(lo);
        proof {
            let prev = data@.subrange(0, i as int);
            let next = data@.subrange(0, i + 1 as int);
            assert(next =~= prev.push(b));
            lemma_hex_blob_snoc(prev, b);
            lemma_hex_blob(prev);
            assert(out@ =~= old(out)@ + ascii_bytes(hex_blob(next)));
        }
        i = i + 1;
    }
    proof {
        assert(data@.subrange(0, data@.len() as int) =~= data@);
    }
}

// ---------------------------------------------------------------------------
// Executable parsing
// ---------------------------------------------------------------------------

/// The digit value of a character, if it is a lowercase hexadecimal digit.
fn hex_val_of(c: char) -> (r: Option<u8>)
    ensures
        match r {
            Some(d) => is_hex_char(c) && d == hex_val(c) && d < 16,
            None => !is_hex_char(c),
        },
{
    let u = c as u32;
    if 0x30 <= u && u <= 0x39 {
        Some((u - 0x30) as u8)
    } else if 0x61 <= u && u <= 0x66 {
        Some((u - 0x57) as u8)
    } else {
        None
    }
}

/// Parses a component as a fixed-width lowercase hexadecimal numeral of
/// exactly `digits` characters.
pub fn parse_hex_fixed(s: &str, digits: usize) -> (r: Option<u128>)
    requires
        digits <= 32,
    ensures
        match r {
            Some(v) => s@.len() == digits && all_hex(s@) && v as nat == hex_seq_val(s@),
            None => !(s@.len() == digits && all_hex(s@)),
        },
{
    let n = s.unicode_len();
    if n != digits {
        return None;
    }
    let mut acc: u128 = 0;
    let mut i: usize = 0;
    while i < digits
        invariant
            digits <= 32,
            i <= digits,
            s@.len() == digits,
            all_hex(s@.subrange(0, i as int)),
            acc as nat == hex_seq_val(s@.subrange(0, i as int)),
        decreases digits - i,
    {
        let c = s.get_char(i);
        let d = match hex_val_of(c) {
            Some(d) => d,
            None => {
                return None;
            },
        };
        proof {
            let prev = s@.subrange(0, i as int);
            lemma_hex_seq_val(prev);
            lemma_pow16_monotone(i as nat, 31);
            lemma_pow16_32();
            assert(16 * hex_seq_val(prev) + hex_val(c) < 16 * pow16(31)) by {
                assert(hex_seq_val(prev) < pow16(31));
                assert(hex_val(c) < 16);
            }
        }
        acc = acc * 16 + (d as u128);
        proof {
            let prev = s@.subrange(0, i as int);
            let next = s@.subrange(0, i + 1 as int);
            assert(next =~= prev.push(s@[i as int]));
            assert(next.drop_last() =~= prev);
        }
        i = i + 1;
    }
    proof {
        assert(s@.subrange(0, digits as int) =~= s@);
    }
    Some(acc)
}

/// Parses a component as lowercase hexadecimal text of any even length,
/// returning the encoded bytes.
pub fn parse_hex_blob(s: &str) -> (r: Option<Vec<u8>>)
    ensures
        match r {
            Some(bs) => s@.len() % 2 == 0 && all_hex(s@) && hex_blob(bs@) == s@,
            None => !(s@.len() % 2 == 0 && all_hex(s@)),
        },
{
    let n = s.unicode_len();
    if n % 2 != 0 {
        return None;
    }
    let mut bs: Vec<u8> = Vec::new();
    let mut i: usize = 0;
    while i < n
        invariant
            i <= n,
            i % 2 == 0,
            n % 2 == 0,
            s@.len() == n,
            all_hex(s@.subrange(0, i as int)),
            hex_blob(bs@) == s@.subrange(0, i as int),
            2 * bs@.len() == i,
        decreases n - i,
    {
        let hi = match hex_val_of(s.get_char(i)) {
            Some(d) => d,
            None => {
                return None;
            },
        };
        let lo = match hex_val_of(s.get_char(i + 1)) {
            Some(d) => d,
            None => {
                return None;
            },
        };
        let b = hi * 16 + lo;
        proof {
            let prev = bs@;
            lemma_hex_blob_snoc(prev, b);
            let p0 = s@.subrange(0, i as int);
            let p2 = s@.subrange(0, i + 2 as int);
            assert(b / 16 == hi && b % 16 == lo) by {
                assert(b == 16 * hi + lo && 0 <= lo < 16);
            }
            assert(hex_char_of(b / 16) == s@[i as int]) by {
                lemma_hex_char_of(hi);
                vstd::utf8::char_u32_cast(s@[i as int], s@[i as int] as u32);
                vstd::utf8::char_u32_cast(hex_char_of(hi), s@[i as int] as u32);
            }
            assert(hex_char_of(b % 16) == s@[i + 1 as int]) by {
                lemma_hex_char_of(lo);
                vstd::utf8::char_u32_cast(s@[i + 1 as int], s@[i + 1 as int] as u32);
                vstd::utf8::char_u32_cast(hex_char_of(lo), s@[i + 1 as int] as u32);
            }
            assert(p2 =~= p0 + seq![s@[i as int], s@[i + 1 as int]]);
            assert(hex_blob(prev.push(b)) =~= p2);
            assert(all_hex(p2)) by {
                assert(forall|k: int| 0 <= k < p0.len() ==> p2[k] == #[trigger] p0[k]);
            }
        }
        bs.push(b);
        i = i + 2;
    }
    proof {
        assert(s@.subrange(0, n as int) =~= s@);
    }
    Some(bs)
}

} // verus!
