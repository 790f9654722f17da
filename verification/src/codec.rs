//! The byte-order model: what a multi-byte value *is*, given the bytes that
//! encode it, and the round-trip laws that tie encoding and decoding together.
//!
//! The file header declares one byte order that governs every multi-byte read
//! in the region; the decoding functions here are the single definition the
//! rest of the library appeals to.

use vstd::prelude::*;

verus! {

/// The multi-byte encoding declared in the file header, applied uniformly to
/// all subsequent multi-byte reads.
#[derive(Debug, Clone, Copy, PartialEq, Eq, Structural)]
pub enum Endianness {
    BigEndian,
    LittleEndian,
}

/// The 16-bit value encoded by the two bytes `b0` (lower address) and `b1`.
pub open spec fn u16_of(b0: u8, b1: u8, e: Endianness) -> u16 {
    match e {
        Endianness::LittleEndian => (b0 + 0x100 * b1) as u16,
        Endianness::BigEndian => (b1 + 0x100 * b0) as u16,
    }
}

/// The 32-bit value encoded by four bytes, `b0` at the lowest address.
pub open spec fn u32_of(b0: u8, b1: u8, b2: u8, b3: u8, e: Endianness) -> u32 {
    match e {
        Endianness::LittleEndian => (b0 + 0x100 * b1 + 0x1_0000 * b2 + 0x100_0000 * b3) as u32,
        Endianness::BigEndian => (b3 + 0x100 * b2 + 0x1_0000 * b1 + 0x100_0000 * b0) as u32,
    }
}

/// The 64-bit value encoded by eight bytes, `b0` at the lowest address.
pub open spec fn u64_of(
    b0: u8,
    b1: u8,
    b2: u8,
    b3: u8,
    b4: u8,
    b5: u8,
    b6: u8,
    b7: u8,
    e: Endianness,
) -> u64 {
    match e {
        Endianness::LittleEndian => (b0 + 0x100 * b1 + 0x1_0000 * b2 + 0x100_0000 * b3 + 0x1_0000_0000
            * b4 + 0x100_0000_0000 * b5 + 0x1_0000_0000_0000 * b6 + 0x100_0000_0000_0000
            * b7) as u64,
        Endianness::BigEndian => (b7 + 0x100 * b6 + 0x1_0000 * b5 + 0x100_0000 * b4 + 0x1_0000_0000
            * b3 + 0x100_0000_0000 * b2 + 0x1_0000_0000_0000 * b1 + 0x100_0000_0000_0000
            * b0) as u64,
    }
}

/// The 16-bit value at offset `i` of `r`.
pub open spec fn u16_at(r: Seq<u8>, i: int, e: Endianness) -> u16 {
    u16_of(r[i], r[i + 1], e)
}

/// The 32-bit value at offset `i` of `r`.
pub open spec fn u32_at(r: Seq<u8>, i: int, e: Endianness) -> u32 {
    u32_of(r[i], r[i + 1], r[i + 2], r[i + 3], e)
}

/// The 64-bit value at offset `i` of `r`.
pub open spec fn u64_at(r: Seq<u8>, i: int, e: Endianness) -> u64 {
    u64_of(r[i], r[i + 1], r[i + 2], r[i + 3], r[i + 4], r[i + 5], r[i + 6], r[i + 7], e)
}

/// The signed 16-bit value at offset `i` of `r`: the unsigned decoding,
/// reinterpreted in two's complement.
pub open spec fn i16_at(r: Seq<u8>, i: int, e: Endianness) -> i16 {
    u16_at(r, i, e) as i16
}

/// The signed 32-bit value at offset `i` of `r`.
pub open spec fn i32_at(r: Seq<u8>, i: int, e: Endianness) -> i32 {
    u32_at(r, i, e) as i32
}

/// The signed 64-bit value at offset `i` of `r`.
pub open spec fn i64_at(r: Seq<u8>, i: int, e: Endianness) -> i64 {
    u64_at(r, i, e) as i64
}

/// Whether `u` is a Unicode scalar value, i.e. the code of some `char`.
pub open spec fn is_char_code(u: u32) -> bool {
    u < 0xD800 || (0xE000 <= u && u <= 0x10FFFF)
}

/// Whether the byte is an ASCII control character. Text stored in a
/// fixed-width byte buffer ends at the first such byte.
pub open spec fn spec_is_control(b: u8) -> bool {
    b < 0x20 || b == 0x7f
}

/// Whether the byte is an ASCII control character.
pub fn is_control(b: u8) -> (r: bool)
    ensures
        r == spec_is_control(b),
{
    b < 0x20 || b == 0x7f
}

/// The text encoded by up to `count` bytes of `r` starting at `off`: one
/// character per byte, ending early at the first ASCII control byte.
pub open spec fn text_at(r: Seq<u8>, off: int, count: int) -> Seq<char>
    decreases count,
{
    if count <= 0 {
        Seq::empty()
    } else if spec_is_control(r[off]) {
        Seq::empty()
    } else {
        seq![r[off] as char] + text_at(r, off + 1, count - 1)
    }
}

/// Relies on `char::from_u32`: returns the character with code `u` exactly
/// when `u` is a Unicode scalar value.
#[verifier::external_body]
pub fn char_from_u32(u: u32) -> (r: Option<char>)
    ensures
        match r {
            Some(c) => is_char_code(u) && c == u as char,
            None => !is_char_code(u),
        },
{
    char::from_u32(u)
}

/// Relies on `String::push`: appends the character to the string.
#[verifier::external_body]
pub fn string_push(s: &mut String, c: char)
    ensures
        final(s)@ == old(s)@.push(c),
{
    s.push(c);
}

/// Reads the 16-bit value at `offset`, applying the byte order.
pub fn read_u16_at(r: &Vec<u8>, offset: usize, e: Endianness) -> (v: u16)
    requires
        offset + 2 <= r@.len(),
    ensures
        v == u16_at(r@, offset as int, e),
{
    let _n: usize = r.len();
    let b0 = r[offset];
    let b1 = r[offset + 1];
    match e {
        Endianness::LittleEndian => b0 as u16 + 0x100 * (b1 as u16),
        Endianness::BigEndian => b1 as u16 + 0x100 * (b0 as u16),
    }
}

/// Reads the 32-bit value at `offset`, applying the byte order.
pub fn read_u32_at(r: &Vec<u8>, offset: usize, e: Endianness) -> (v: u32)
    requires
        offset + 4 <= r@.len(),
    ensures
        v == u32_at(r@, offset as int, e),
{
    let _n: usize = r.len();
    let b0 = r[offset];
    let b1 = r[offset + 1];
    let b2 = r[offset + 2];
    let b3 = r[offset + 3];
    match e {
        Endianness::LittleEndian => b0 as u32 + 0x100 * (b1 as u32) + 0x1_0000 * (b2 as u32)
            + 0x100_0000 * (b3 as u32),
        Endianness::BigEndian => b3 as u32 + 0x100 * (b2 as u32) + 0x1_0000 * (b1 as u32)
            + 0x100_0000 * (b0 as u32),
    }
}

/// Reads the 64-bit value at `offset`, applying the byte order.
pub fn read_u64_at(r: &Vec<u8>, offset: usize, e: Endianness) -> (v: u64)
    requires
        offset + 8 <= r@.len(),
    ensures
        v == u64_at(r@, offset as int, e),
{
    let _n: usize = r.len();
    let b0 = r[offset];
    let b1 = r[offset + 1];
    let b2 = r[offset + 2];
    let b3 = r[offset + 3];
    let b4 = r[offset + 4];
    let b5 = r[offset + 5];
    let b6 = r[offset + 6];
    let b7 = r[offset + 7];
    match e {
        Endianness::LittleEndian => b0 as u64 + 0x100 * (b1 as u64) + 0x1_0000 * (b2 as u64)
            + 0x100_0000 * (b3 as u64) + 0x1_0000_0000 * (b4 as u64) + 0x100_0000_0000 * (
        b5 as u64) + 0x1_0000_0000_0000 * (b6 as u64) + 0x100_0000_0000_0000 * (b7 as u64),
        Endianness::BigEndian => b7 as u64 + 0x100 * (b6 as u64) + 0x1_0000 * (b5 as u64)
            + 0x100_0000 * (b4 as u64) + 0x1_0000_0000 * (b3 as u64) + 0x100_0000_0000 * (
        b2 as u64) + 0x1_0000_0000_0000 * (b1 as u64) + 0x100_0000_0000_0000 * (b0 as u64),
    }
}

/// The two bytes that encode `v` in the given byte order, lowest address first.
pub open spec fn encode_u16(v: u16, e: Endianness) -> Seq<u8> {
    match e {
        Endianness::LittleEndian => seq![v as u8, (v >> 8) as u8],
        Endianness::BigEndian => seq![(v >> 8) as u8, v as u8],
    }
}

/// The four bytes that encode `v` in the given byte order, lowest address first.
pub open spec fn encode_u32(v: u32, e: Endianness) -> Seq<u8> {
    match e {
        Endianness::LittleEndian => seq![v as u8, (v >> 8) as u8, (v >> 16) as u8, (v >> 24) as u8],
        Endianness::BigEndian => seq![(v >> 24) as u8, (v >> 16) as u8, (v >> 8) as u8, v as u8],
    }
}

/// The eight bytes that encode `v` in the given byte order, lowest address first.
pub open spec fn encode_u64(v: u64, e: Endianness) -> Seq<u8> {
    match e {
        Endianness::LittleEndian => seq![
            v as u8,
            (v >> 8) as u8,
            (v >> 16) as u8,
            (v >> 24) as u8,
            (v >> 32) as u8,
            (v >> 40) as u8,
            (v >> 48) as u8,
            (v >> 56) as u8,
        ],
        Endianness::BigEndian => seq![
            (v >> 56) as u8,
            (v >> 48) as u8,
            (v >> 40) as u8,
            (v >> 32) as u8,
            (v >> 24) as u8,
            (v >> 16) as u8,
            (v >> 8) as u8,
            v as u8,
        ],
    }
}

/// The bytes that encode a signed 16-bit value: its two's-complement pattern.
pub open spec fn encode_i16(v: i16, e: Endianness) -> Seq<u8> {
    encode_u16(v as u16, e)
}

/// The bytes that encode a signed 32-bit value.
pub open spec fn encode_i32(v: i32, e: Endianness) -> Seq<u8> {
    encode_u32(v as u32, e)
}

/// The bytes that encode a signed 64-bit value.
pub open spec fn encode_i64(v: i64, e: Endianness) -> Seq<u8> {
    encode_u64(v as u64, e)
}

/// The byte that encodes a boolean: zero means true, the published format's
/// inverted convention.
pub open spec fn encode_bool(b: bool) -> Seq<u8> {
    seq![if b { 0u8 } else { 1u8 }]
}

/// The bytes that encode a character: its Unicode scalar value.
pub open spec fn encode_char(c: char, e: Endianness) -> Seq<u8> {
    encode_u32(c as u32, e)
}

/// Decoding the two bytes that encode a 16-bit value, with the same declared
/// byte order, yields the value back.
pub proof fn lemma_round_trip_u16(v: u16, e: Endianness)
    ensures
        u16_at(encode_u16(v, e), 0, e) == v,
{
    assert(((v as u8) + 0x100 * (((v >> 8) as u8))) as u16 == v) by (bit_vector);
}

/// Decoding the four bytes that encode a 32-bit value yields the value back.
pub proof fn lemma_round_trip_u32(v: u32, e: Endianness)
    ensures
        u32_at(encode_u32(v, e), 0, e) == v,
{
    assert(((v as u8) + 0x100 * ((v >> 8) as u8) + 0x1_0000 * ((v >> 16) as u8) + 0x100_0000 * ((v
        >> 24) as u8)) as u32 == v) by (bit_vector);
}

/// Decoding the eight bytes that encode a 64-bit value yields the value back.
pub proof fn lemma_round_trip_u64(v: u64, e: Endianness)
    ensures
        u64_at(encode_u64(v, e), 0, e) == v,
{
    assert(((v as u8) + 0x100 * ((v >> 8) as u8) + 0x1_0000 * ((v >> 16) as u8) + 0x100_0000 * ((v
        >> 24) as u8) + 0x1_0000_0000 * ((v >> 32) as u8) + 0x100_0000_0000 * ((v >> 40) as u8)
        + 0x1_0000_0000_0000 * ((v >> 48) as u8) + 0x100_0000_0000_0000 * ((v >> 56) as u8)) as u64
        == v) by (bit_vector);
}

/// Round trip for a signed 16-bit scalar.
pub proof fn lemma_round_trip_i16(v: i16, e: Endianness)
    ensures
        i16_at(encode_i16(v, e), 0, e) == v,
{
    lemma_round_trip_u16(v as u16, e);
    assert((v as u16) as i16 == v) by (bit_vector);
}

/// Round trip for a signed 32-bit scalar.
pub proof fn lemma_round_trip_i32(v: i32, e: Endianness)
    ensures
        i32_at(encode_i32(v, e), 0, e) == v,
{
    lemma_round_trip_u32(v as u32, e);
    assert((v as u32) as i32 == v) by (bit_vector);
}

/// Round trip for a signed 64-bit scalar.
pub proof fn lemma_round_trip_i64(v: i64, e: Endianness)
    ensures
        i64_at(encode_i64(v, e), 0, e) == v,
{
    lemma_round_trip_u64(v as u64, e);
    assert((v as u64) as i64 == v) by (bit_vector);
}

/// Round trip for a boolean: the encoding of `b` decodes, by the zero-means-true
/// convention, to `b` again.
pub proof fn lemma_round_trip_bool(b: bool)
    ensures
        (encode_bool(b)[0] == 0) == b,
{
}

/// Round trip for a single byte.
pub proof fn lemma_round_trip_byte(v: u8)
    ensures
        seq![v][0] == v,
{
}

/// Round trip for a character: the encoding of `c` decodes to a valid scalar
/// value, and that value is `c`'s code.
pub proof fn lemma_round_trip_char(c: char, e: Endianness)
    ensures
        is_char_code(u32_at(encode_char(c, e), 0, e)),
        u32_at(encode_char(c, e), 0, e) as char == c,
{
    lemma_round_trip_u32(c as u32, e);
}

/// Round trip for a 32-bit floating-point pattern: the library decodes a
/// floating value to the bit pattern its bytes declare, and decoding the
/// encoded pattern yields the pattern back.
pub proof fn lemma_round_trip_float_bits(bits: u32, e: Endianness)
    ensures
        u32_at(encode_u32(bits, e), 0, e) == bits,
{
    lemma_round_trip_u32(bits, e);
}

/// Round trip for a 64-bit floating-point pattern.
pub proof fn lemma_round_trip_double_bits(bits: u64, e: Endianness)
    ensures
        u64_at(encode_u64(bits, e), 0, e) == bits,
{
    lemma_round_trip_u64(bits, e);
}

/// The `count` signed 16-bit values laid out back to back at offset `off`.
pub open spec fn i16s_at(r: Seq<u8>, off: int, count: int, e: Endianness) -> Seq<i16> {
    Seq::new(count as nat, |k: int| i16_at(r, off + 2 * k, e))
}

/// The `count` signed 32-bit values laid out back to back at offset `off`.
pub open spec fn i32s_at(r: Seq<u8>, off: int, count: int, e: Endianness) -> Seq<i32> {
    Seq::new(count as nat, |k: int| i32_at(r, off + 4 * k, e))
}

/// The `count` signed 64-bit values laid out back to back at offset `off`.
pub open spec fn i64s_at(r: Seq<u8>, off: int, count: int, e: Endianness) -> Seq<i64> {
    Seq::new(count as nat, |k: int| i64_at(r, off + 8 * k, e))
}

/// The `count` 32-bit patterns laid out back to back at offset `off`.
pub open spec fn u32s_at(r: Seq<u8>, off: int, count: int, e: Endianness) -> Seq<u32> {
    Seq::new(count as nat, |k: int| u32_at(r, off + 4 * k, e))
}

/// The `count` 64-bit patterns laid out back to back at offset `off`.
pub open spec fn u64s_at(r: Seq<u8>, off: int, count: int, e: Endianness) -> Seq<u64> {
    Seq::new(count as nat, |k: int| u64_at(r, off + 8 * k, e))
}

/// The `count` booleans at offset `off`: a zero byte means true.
pub open spec fn bools_at(r: Seq<u8>, off: int, count: int) -> Seq<bool> {
    Seq::new(count as nat, |k: int| r[off + k] == 0)
}

/// The bytes that encode a sequence of 16-bit values, back to back.
pub open spec fn encode_u16_seq(vals: Seq<u16>, e: Endianness) -> Seq<u8>
    decreases vals.len(),
{
    if vals.len() == 0 {
        Seq::empty()
    } else {
        encode_u16(vals[0], e) + encode_u16_seq(vals.drop_first(), e)
    }
}

/// The bytes that encode a sequence of 32-bit values, back to back.
pub open spec fn encode_u32_seq(vals: Seq<u32>, e: Endianness) -> Seq<u8>
    decreases vals.len(),
{
    if vals.len() == 0 {
        Seq::empty()
    } else {
        encode_u32(vals[0], e) + encode_u32_seq(vals.drop_first(), e)
    }
}

/// The bytes that encode a sequence of 64-bit values, back to back.
pub open spec fn encode_u64_seq(vals: Seq<u64>, e: Endianness) -> Seq<u8>
    decreases vals.len(),
{
    if vals.len() == 0 {
        Seq::empty()
    } else {
        encode_u64(vals[0], e) + encode_u64_seq(vals.drop_first(), e)
    }
}

/// Decoding the bytes that encode a sequence of 16-bit values yields the
/// sequence back, element by element.
pub proof fn lemma_round_trip_u16_seq(vals: Seq<u16>, e: Endianness)
    ensures
        encode_u16_seq(vals, e).len() == 2 * vals.len(),
        forall|k: int|
            0 <= k < vals.len() ==> u16_at(encode_u16_seq(vals, e), 2 * k, e) == vals[k],
    decreases vals.len(),
{
    if vals.len() > 0 {
        let enc = encode_u16_seq(vals, e);
        let tail = encode_u16_seq(vals.drop_first(), e);
        lemma_round_trip_u16_seq(vals.drop_first(), e);
        lemma_round_trip_u16(vals[0], e);
        assert forall|k: int| 0 <= k < vals.len() implies u16_at(enc, 2 * k, e) == vals[k] by {
            if k == 0 {
                assert(enc[0] == encode_u16(vals[0], e)[0]);
                assert(enc[1] == encode_u16(vals[0], e)[1]);
            } else {
                assert(enc[2 * k] == tail[2 * (k - 1)]);
                assert(enc[2 * k + 1] == tail[2 * (k - 1) + 1]);
                assert(u16_at(tail, 2 * (k - 1), e) == vals.drop_first()[k - 1]);
            }
        }
    }
}

/// Decoding the bytes that encode a sequence of 32-bit values yields the
/// sequence back, element by element.
pub proof fn lemma_round_trip_u32_seq(vals: Seq<u32>, e: Endianness)
    ensures
        encode_u32_seq(vals, e).len() == 4 * vals.len(),
        forall|k: int|
            0 <= k < vals.len() ==> u32_at(encode_u32_seq(vals, e), 4 * k, e) == vals[k],
    decreases vals.len(),
{
    if vals.len() > 0 {
        let enc = encode_u32_seq(vals, e);
        let tail = encode_u32_seq(vals.drop_first(), e);
        lemma_round_trip_u32_seq(vals.drop_first(), e);
        lemma_round_trip_u32(vals[0], e);
        assert forall|k: int| 0 <= k < vals.len() implies u32_at(enc, 4 * k, e) == vals[k] by {
            if k == 0 {
                assert(enc[0] == encode_u32(vals[0], e)[0]);
                assert(enc[1] == encode_u32(vals[0], e)[1]);
                assert(enc[2] == encode_u32(vals[0], e)[2]);
                assert(enc[3] == encode_u32(vals[0], e)[3]);
            } else {
                assert(enc[4 * k] == tail[4 * (k - 1)]);
                assert(enc[4 * k + 1] == tail[4 * (k - 1) + 1]);
                assert(enc[4 * k + 2] == tail[4 * (k - 1) + 2]);
                assert(enc[4 * k + 3] == tail[4 * (k - 1) + 3]);
                assert(u32_at(tail, 4 * (k - 1), e) == vals.drop_first()[k - 1]);
            }
        }
    }
}

/// Decoding the bytes that encode a sequence of 64-bit values yields the
/// sequence back, element by element.
pub proof fn lemma_round_trip_u64_seq(vals: Seq<u64>, e: Endianness)
    ensures
        encode_u64_seq(vals, e).len() == 8 * vals.len(),
        forall|k: int|
            0 <= k < vals.len() ==> u64_at(encode_u64_seq(vals, e), 8 * k, e) == vals[k],
    decreases vals.len(),
{
    if vals.len() > 0 {
        let enc = encode_u64_seq(vals, e);
        let tail = encode_u64_seq(vals.drop_first(), e);
        lemma_round_trip_u64_seq(vals.drop_first(), e);
        lemma_round_trip_u64(vals[0], e);
        assert forall|k: int| 0 <= k < vals.len() implies u64_at(enc, 8 * k, e) == vals[k] by {
            if k == 0 {
                assert forall|j: int| 0 <= j < 8 implies #[trigger] enc[j] == encode_u64(
                    vals[0],
                    e,
                )[j] by {}
            } else {
                assert forall|j: int| 0 <= j < 8 implies #[trigger] enc[8 * k + j] == tail[8 * (k
                    - 1) + j] by {}
                assert(u64_at(tail, 8 * (k - 1), e) == vals.drop_first()[k - 1]);
            }
        }
    }
}

/// Round trip for a vector of signed 16-bit values: decoding the bytes that
/// encode the values, with the same byte order, yields the values back.
pub proof fn lemma_round_trip_i16_seq(vals: Seq<i16>, e: Endianness)
    ensures
        i16s_at(
            encode_u16_seq(vals.map_values(|v: i16| v as u16), e),
            0,
            vals.len() as int,
            e,
        ) =~= vals,
{
    let unsigned = vals.map_values(|v: i16| v as u16);
    lemma_round_trip_u16_seq(unsigned, e);
    assert forall|k: int|
        0 <= k < vals.len() implies i16_at(encode_u16_seq(unsigned, e), 2 * k, e) == vals[k] by {
        assert(u16_at(encode_u16_seq(unsigned, e), 2 * k, e) == unsigned[k]);
        assert(unsigned[k] == vals[k] as u16);
        let x: i16 = vals[k];
        assert((x as u16) as i16 == x) by (bit_vector);
    }
}

/// Round trip for a vector of signed 32-bit values.
pub proof fn lemma_round_trip_i32_seq(vals: Seq<i32>, e: Endianness)
    ensures
        i32s_at(
            encode_u32_seq(vals.map_values(|v: i32| v as u32), e),
            0,
            vals.len() as int,
            e,
        ) =~= vals,
{
    let unsigned = vals.map_values(|v: i32| v as u32);
    lemma_round_trip_u32_seq(unsigned, e);
    assert forall|k: int|
        0 <= k < vals.len() implies i32_at(encode_u32_seq(unsigned, e), 4 * k, e) == vals[k] by {
        assert(u32_at(encode_u32_seq(unsigned, e), 4 * k, e) == unsigned[k]);
        assert(unsigned[k] == vals[k] as u32);
        let x: i32 = vals[k];
        assert((x as u32) as i32 == x) by (bit_vector);
    }
}

/// Round trip for a vector of signed 64-bit values.
pub proof fn lemma_round_trip_i64_seq(vals: Seq<i64>, e: Endianness)
    ensures
        i64s_at(
            encode_u64_seq(vals.map_values(|v: i64| v as u64), e),
            0,
            vals.len() as int,
            e,
        ) =~= vals,
{
    let unsigned = vals.map_values(|v: i64| v as u64);
    lemma_round_trip_u64_seq(unsigned, e);
    assert forall|k: int|
        0 <= k < vals.len() implies i64_at(encode_u64_seq(unsigned, e), 8 * k, e) == vals[k] by {
        assert(u64_at(encode_u64_seq(unsigned, e), 8 * k, e) == unsigned[k]);
        assert(unsigned[k] == vals[k] as u64);
        let x: i64 = vals[k];
        assert((x as u64) as i64 == x) by (bit_vector);
    }
}

/// Round trip for a vector of 32-bit floating-point patterns: the library
/// decodes a floating value to the bit pattern the bytes declare.
pub proof fn lemma_round_trip_f32_bits_seq(vals: Seq<u32>, e: Endianness)
    ensures
        u32s_at(encode_u32_seq(vals, e), 0, vals.len() as int, e) =~= vals,
{
    lemma_round_trip_u32_seq(vals, e);
}

/// Round trip for a vector of 64-bit floating-point patterns.
pub proof fn lemma_round_trip_f64_bits_seq(vals: Seq<u64>, e: Endianness)
    ensures
        u64s_at(encode_u64_seq(vals, e), 0, vals.len() as int, e) =~= vals,
{
    lemma_round_trip_u64_seq(vals, e);
}

/// Round trip for a vector of booleans, under the zero-means-true convention.
pub proof fn lemma_round_trip_bool_seq(vals: Seq<bool>)
    ensures
        bools_at(vals.map_values(|b: bool| if b { 0u8 } else { 1u8 }), 0, vals.len() as int)
            =~= vals,
{
}

/// Round trip for a vector of characters: each encoded code decodes as a valid
/// scalar value, and mapping the codes back to characters yields the sequence.
pub proof fn lemma_round_trip_char_seq(vals: Seq<char>, e: Endianness)
    ensures
        u32s_at(encode_u32_seq(vals.map_values(|c: char| c as u32), e), 0, vals.len() as int, e)
            =~= vals.map_values(|c: char| c as u32),
        forall|k: int| 0 <= k < vals.len() ==> is_char_code(#[trigger] vals[k] as u32),
        u32s_at(encode_u32_seq(vals.map_values(|c: char| c as u32), e), 0, vals.len() as int, e)
            .map_values(|u: u32| u as char) =~= vals,
{
    let codes = vals.map_values(|c: char| c as u32);
    lemma_round_trip_u32_seq(codes, e);
    assert forall|k: int| 0 <= k < vals.len() implies is_char_code(#[trigger] vals[k] as u32) by {
        vstd::utf8::char_is_scalar(vals[k]);
    }
    assert forall|k: int|
        0 <= k < vals.len() implies u32s_at(encode_u32_seq(codes, e), 0, vals.len() as int, e)
        .map_values(|u: u32| u as char)[k] == vals[k] by {
        assert(u32_at(encode_u32_seq(codes, e), 4 * k, e) == codes[k]);
        assert(codes[k] == vals[k] as u32);
        vstd::utf8::char_u32_cast(vals[k], vals[k] as u32);
    }
}

/// Decoded text ends exactly at the first control byte: if the first `i`
/// bytes are printable and either the budget ends there or a control byte
/// follows, the decoded text is those `i` bytes as characters.
pub proof fn lemma_text_at_stops(r: Seq<u8>, off: int, count: int, i: int)
    requires
        0 <= off,
        0 <= i <= count,
        off + count <= r.len(),
        forall|j: int| 0 <= j < i ==> !spec_is_control(#[trigger] r[off + j]),
        i < count ==> spec_is_control(r[off + i]),
    ensures
        text_at(r, off, count) =~= r.subrange(off, off + i).map_values(|b: u8| b as char),
    decreases i,
{
    if i == 0 {
        if count > 0 {
            assert(spec_is_control(r[off + 0]));
        }
    } else {
        assert forall|j: int| 0 <= j < i - 1 implies !spec_is_control(
            #[trigger] r[(off + 1) + j],
        ) by {
            assert(!spec_is_control(r[off + (j + 1)]));
        }
        if i - 1 < count - 1 {
            assert(spec_is_control(r[(off + 1) + (i - 1)])) by {
                assert(spec_is_control(r[off + i]));
            }
        }
        lemma_text_at_stops(r, off + 1, count - 1, i - 1);
        let lhs = text_at(r, off, count);
        let tail = text_at(r, off + 1, count - 1);
        let rhs = r.subrange(off, off + i).map_values(|b: u8| b as char);
        assert(!spec_is_control(r[off + 0]));
        assert(lhs =~= seq![r[off] as char] + tail);
        assert forall|j: int| 0 <= j < i implies lhs[j] == rhs[j] by {
            assert(rhs[j] == r[off + j] as char);
            if j > 0 {
                assert(lhs[j] == tail[j - 1]);
                assert(tail[j - 1] == r.subrange(off + 1, (off + 1) + (i - 1)).map_values(
                    |b: u8| b as char,
                )[j - 1]);
            }
        }
        assert(lhs.len() == 1 + tail.len());
    }
}

/// Round trip for text stored in a byte vector: if no byte is an ASCII control
/// character, the decoded text is one character per byte, in order.
pub proof fn lemma_text_at_printable(r: Seq<u8>, off: int, count: int)
    requires
        0 <= off,
        0 <= count,
        off + count <= r.len(),
        forall|j: int| 0 <= j < count ==> !spec_is_control(#[trigger] r[off + j]),
    ensures
        text_at(r, off, count) =~= r.subrange(off, off + count).map_values(|b: u8| b as char),
{
    lemma_text_at_stops(r, off, count, count);
}

} // verus!
