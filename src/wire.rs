//! The byte-level model of the wire format: what each field decodes to, and
//! what each value encodes to.
use vstd::prelude::*;
use vstd::utf8::{decode_utf8, encode_utf8, encode_utf8_decode_utf8, encode_utf8_valid_utf8, valid_utf8};

use crate::error::BanchoError;

verus! {

/// Marker byte of a present string.
pub const STRING_PRESENT: u8 = 0x0B;

/// Marker byte of an absent (or empty) string.
pub const STRING_ABSENT: u8 = 0x00;

/// Little-endian value of the first two bytes.
pub open spec fn le_u16(s: Seq<u8>) -> int {
    s[0] + 256 * s[1]
}

/// Little-endian value of the first four bytes.
pub open spec fn le_u32(s: Seq<u8>) -> int {
    s[0] + 256 * s[1] + 65536 * s[2] + 16777216 * s[3]
}

/// Little-endian value of the first eight bytes.
pub open spec fn le_u64(s: Seq<u8>) -> int {
    le_u32(s) + 4294967296 * le_u32(s.skip(4))
}

/// The two's complement reading of `u`, an unsigned value below `modulus`.
pub open spec fn signed(u: int, modulus: int) -> int {
    if u < modulus / 2 {
        u
    } else {
        u - modulus
    }
}

/// The unsigned value below `modulus` whose two's complement reading is `v`.
pub open spec fn unsigned(v: int, modulus: int) -> int {
    if v >= 0 {
        v
    } else {
        v + modulus
    }
}

/// The two little-endian bytes of `v`.
pub open spec fn bytes16(v: int) -> Seq<u8> {
    seq![(v % 256) as u8, (v / 256 % 256) as u8]
}

/// The four little-endian bytes of `v`.
pub open spec fn bytes32(v: int) -> Seq<u8> {
    seq![(v % 256) as u8, (v / 256 % 256) as u8, (v / 65536 % 256) as u8, (v / 16777216 % 256) as u8]
}

/// The eight little-endian bytes of `v`.
pub open spec fn bytes64(v: int) -> Seq<u8> {
    bytes32(v % 4294967296) + bytes32(v / 4294967296)
}

/// Most bytes a ULEB128 length may take (enough for any 64-bit value).
pub const ULEB128_MAX_BYTES: u32 = 10;

/// 128 to the power `n`.
pub open spec fn pow128(n: nat) -> int
    decreases n,
{
    if n == 0 {
        1
    } else {
        128 * pow128((n - 1) as nat)
    }
}

/// The ULEB128 encoding of `v`: seven bits per byte, least significant
/// group first, the high bit set on every byte but the last.
pub open spec fn uleb128(v: nat) -> Seq<u8>
    decreases v,
{
    if v < 128 {
        seq![v as u8]
    } else {
        seq![(v % 128 + 128) as u8] + uleb128(v / 128)
    }
}

/// Decodes a ULEB128 value from the front of `s`, reading at most `budget`
/// bytes: the value and the number of bytes it took.
pub open spec fn uleb128_parse(s: Seq<u8>, budget: nat) -> Result<(nat, nat), BanchoError>
    decreases budget,
{
    if s.len() == 0 {
        Err(BanchoError::UnexpectedEof)
    } else if s[0] < 128 {
        Ok((s[0] as nat, 1))
    } else if budget <= 1 {
        Err(BanchoError::InvalidEncoding)
    } else {
        match uleb128_parse(s.skip(1), (budget - 1) as nat) {
            Ok((v, n)) => Ok((((s[0] - 128) + 128 * v) as nat, n + 1)),
            Err(e) => Err(e),
        }
    }
}

/// Decodes a string from the front of `s` as raw bytes: a marker byte, and
/// for a present string a ULEB128 length and that many bytes.
pub open spec fn string_bytes_parse(s: Seq<u8>) -> Result<(Seq<u8>, nat), BanchoError> {
    if s.len() == 0 {
        Err(BanchoError::UnexpectedEof)
    } else if s[0] != STRING_PRESENT {
        Ok((Seq::empty(), 1))
    } else {
        match uleb128_parse(s.skip(1), ULEB128_MAX_BYTES as nat) {
            Ok((len, n)) => if 1 + n + len > s.len() {
                Err(BanchoError::UnexpectedEof)
            } else {
                Ok((s.subrange(1 + n as int, (1 + n + len) as int), 1 + n + len))
            },
            Err(e) => Err(e),
        }
    }
}

/// Decodes a string from the front of `s`: its characters and the number of
/// bytes it took.
#[verifier::opaque]
pub open spec fn string_parse(s: Seq<u8>) -> Result<(Seq<char>, nat), BanchoError> {
    match string_bytes_parse(s) {
        Ok((b, n)) => if valid_utf8(b) {
            Ok((decode_utf8(b), n))
        } else {
            Err(BanchoError::InvalidEncoding)
        },
        Err(e) => Err(e),
    }
}

/// The wire form of a string whose UTF-8 bytes are `b`: one absent marker
/// when empty, else the present marker, the ULEB128 length and the bytes.
pub open spec fn string_wire(b: Seq<u8>) -> Seq<u8> {
    if b.len() == 0 {
        seq![STRING_ABSENT]
    } else {
        seq![STRING_PRESENT] + uleb128(b.len()) + b
    }
}

/// Decodes `count` little-endian 32-bit integers from the front of `s`.
pub open spec fn i32s(s: Seq<u8>, count: nat) -> Seq<i32> {
    Seq::new(count, |i: int| signed(le_u32(s.skip(4 * i)), 0x1_0000_0000) as i32)
}

/// Decodes a list of 32-bit integers behind a length prefix of `prefix`
/// bytes (2 or 4): the integers and the number of bytes the list took.
pub open spec fn i32_list_parse(s: Seq<u8>, prefix: nat) -> Result<(Seq<i32>, nat), BanchoError> {
    if s.len() < prefix {
        Err(BanchoError::UnexpectedEof)
    } else {
        let count = if prefix == 2 { le_u16(s) } else { le_u32(s) } as nat;
        if prefix + 4 * count > s.len() {
            Err(BanchoError::UnexpectedEof)
        } else {
            Ok((i32s(s.skip(prefix as int), count), prefix + 4 * count))
        }
    }
}

/// A ULEB128 value of at most `budget` bytes decodes back, whatever follows it.
pub proof fn lemma_uleb128_round_trip(v: nat, rest: Seq<u8>, budget: nat)
    requires
        budget >= 1,
        v < pow128(budget),
    ensures
        uleb128_parse(uleb128(v) + rest, budget) == Ok::<(nat, nat), BanchoError>(
            (v, uleb128(v).len()),
        ),
    decreases v,
{
    let s = uleb128(v) + rest;
    if v < 128 {
        assert(s[0] == v as u8);
    } else {
        reveal_with_fuel(pow128, 2);
        assert(budget >= 2);
        assert(v / 128 < pow128((budget - 1) as nat));
        lemma_uleb128_round_trip(v / 128, rest, (budget - 1) as nat);
        assert(uleb128(v) == seq![(v % 128 + 128) as u8] + uleb128(v / 128));
        assert(s.skip(1) =~= uleb128(v / 128) + rest);
    }
}

/// Every 64-bit value fits in the longest ULEB128 length a decoder accepts.
pub proof fn lemma_u64_fits_uleb128(v: nat)
    requires
        v <= u64::MAX,
    ensures
        v < pow128(ULEB128_MAX_BYTES as nat),
{
    reveal_with_fuel(pow128, 11);
    assert(pow128(10) == 0x40_0000_0000_0000_0000);
}

/// The little-endian bytes of each 32-bit integer of `v`, in order.
pub open spec fn i32s_wire(v: Seq<i32>) -> Seq<u8>
    decreases v.len(),
{
    if v.len() == 0 {
        Seq::empty()
    } else {
        i32s_wire(v.drop_last()) + bytes32(unsigned(v.last() as int, 0x1_0000_0000))
    }
}

/// The wire form of a list of 32-bit integers behind a 16-bit count.
pub open spec fn i32_list_wire(v: Seq<i32>) -> Seq<u8> {
    bytes16(v.len() as int) + i32s_wire(v)
}

/// The wire form of a message whose strings have the UTF-8 bytes given.
pub open spec fn message_wire(sender: Seq<u8>, text: Seq<u8>, recipient: Seq<u8>, sender_id: u32) -> Seq<u8> {
    string_wire(sender) + string_wire(text) + string_wire(recipient) + bytes32(sender_id as int)
}

/// The wire form of a channel whose strings have the UTF-8 bytes given.
pub open spec fn channel_wire(name: Seq<u8>, topic: Seq<u8>, count: u16) -> Seq<u8> {
    string_wire(name) + string_wire(topic) + bytes16(count as int)
}

/// A byte encodes to itself and decodes back, whatever follows it; so does
/// a signed byte through its two's complement form.
pub proof fn lemma_round_trip_8(u: u8, i: i8, rest: Seq<u8>)
    ensures
        (seq![u] + rest)[0] == u,
        signed((seq![unsigned(i as int, 256) as u8] + rest)[0] as int, 256) == i,
{
}

/// A 16-bit value, unsigned or signed, decodes back from its two
/// little-endian bytes, whatever follows them.
pub proof fn lemma_round_trip_16(u: u16, i: i16, rest: Seq<u8>)
    ensures
        le_u16(bytes16(u as int) + rest) == u,
        signed(le_u16(bytes16(unsigned(i as int, 0x10000)) + rest), 0x10000) == i,
{
    lemma_bytes16_value(u as int, rest);
    lemma_bytes16_value(unsigned(i as int, 0x10000), rest);
}

/// A 32-bit value, unsigned or signed, decodes back from its four
/// little-endian bytes, whatever follows them.
pub proof fn lemma_round_trip_32(u: u32, i: i32, rest: Seq<u8>)
    ensures
        le_u32(bytes32(u as int) + rest) == u,
        signed(le_u32(bytes32(unsigned(i as int, 0x1_0000_0000)) + rest), 0x1_0000_0000) == i,
{
    lemma_bytes32_value(u as int, rest);
    lemma_bytes32_value(unsigned(i as int, 0x1_0000_0000), rest);
}

/// A 64-bit value, unsigned or signed, decodes back from its eight
/// little-endian bytes, whatever follows them.
pub proof fn lemma_round_trip_64(u: u64, i: i64, rest: Seq<u8>)
    ensures
        le_u64(bytes64(u as int) + rest) == u,
        signed(le_u64(bytes64(unsigned(i as int, 0x1_0000_0000_0000_0000)) + rest), 0x1_0000_0000_0000_0000) == i,
{
    lemma_bytes64_value(u as int, rest);
    lemma_bytes64_value(unsigned(i as int, 0x1_0000_0000_0000_0000), rest);
}

proof fn lemma_bytes16_value(v: int, rest: Seq<u8>)
    requires
        0 <= v < 0x10000,
    ensures
        le_u16(bytes16(v) + rest) == v,
{
    let s = bytes16(v) + rest;
    assert(s[0] == v % 256 && s[1] == v / 256 % 256);
}

pub(crate) proof fn lemma_bytes32_value(v: int, rest: Seq<u8>)
    requires
        0 <= v < 0x1_0000_0000,
    ensures
        le_u32(bytes32(v) + rest) == v,
{
    let s = bytes32(v) + rest;
    assert(s[0] == v % 256 && s[1] == v / 256 % 256 && s[2] == v / 65536 % 256 && s[3] == v / 16777216 % 256);
}

proof fn lemma_bytes64_value(v: int, rest: Seq<u8>)
    requires
        0 <= v < 0x1_0000_0000_0000_0000,
    ensures
        le_u64(bytes64(v) + rest) == v,
{
    let lo = v % 4294967296;
    let hi = v / 4294967296;
    let s = bytes64(v) + rest;
    lemma_bytes32_value(lo, bytes32(hi) + rest);
    assert(s =~= bytes32(lo) + (bytes32(hi) + rest));
    lemma_bytes32_value(hi, rest);
    assert(s.skip(4) =~= bytes32(hi) + rest);
}

/// A string decodes back from its wire form, whatever follows it, and the
/// decoder consumes exactly that form.
pub proof fn lemma_string_round_trip(chars: Seq<char>, rest: Seq<u8>)
    requires
        encode_utf8(chars).len() <= u64::MAX,
    ensures
        string_parse(string_wire(encode_utf8(chars)) + rest) == Ok::<(Seq<char>, nat), BanchoError>(
            (chars, string_wire(encode_utf8(chars)).len()),
        ),
{
    reveal(string_parse);
    let b = encode_utf8(chars);
    let s = string_wire(b) + rest;
    encode_utf8_valid_utf8(chars);
    encode_utf8_decode_utf8(chars);
    if b.len() == 0 {
        assert(b =~= Seq::<u8>::empty());
    } else {
        lemma_u64_fits_uleb128(b.len());
        lemma_uleb128_round_trip(b.len(), b + rest, ULEB128_MAX_BYTES as nat);
        assert(s.skip(1) =~= uleb128(b.len()) + (b + rest));
        let n = uleb128(b.len()).len();
        assert(s.subrange(1 + n as int, (1 + n + b.len()) as int) =~= b);
    }
}

/// A list decode that succeeds consumes exactly its prefix and four bytes
/// per integer; a zero count yields an empty list after the prefix alone.
pub proof fn lemma_list_consumption(s: Seq<u8>, prefix: nat)
    requires
        prefix == 2 || prefix == 4,
    ensures
        i32_list_parse(s, prefix) is Ok ==> i32_list_parse(s, prefix).unwrap().1 == prefix + 4
            * i32_list_parse(s, prefix).unwrap().0.len(),
        s.len() >= prefix && (if prefix == 2 { le_u16(s) } else { le_u32(s) }) == 0 ==> i32_list_parse(s, prefix)
            == Ok::<(Seq<i32>, nat), BanchoError>((Seq::empty(), prefix)),
{
    if s.len() >= prefix && (if prefix == 2 { le_u16(s) } else { le_u32(s) }) == 0 {
        assert(i32s(s.skip(prefix as int), 0) =~= Seq::empty());
    }
}

pub(crate) proof fn lemma_i32s_wire_len(v: Seq<i32>)
    ensures
        i32s_wire(v).len() == 4 * v.len(),
    decreases v.len(),
{
    if v.len() > 0 {
        lemma_i32s_wire_len(v.drop_last());
    }
}

/// The four bytes of the `j`-th integer sit at `4 * j`.
pub(crate) proof fn lemma_i32s_wire_item(v: Seq<i32>, j: int)
    requires
        0 <= j < v.len(),
    ensures
        i32s_wire(v).subrange(4 * j, 4 * j + 4) == bytes32(unsigned(v[j] as int, 0x1_0000_0000)),
    decreases v.len(),
{
    let w = v.drop_last();
    lemma_i32s_wire_len(w);
    if j < v.len() - 1 {
        lemma_i32s_wire_item(w, j);
        assert(i32s_wire(v).subrange(4 * j, 4 * j + 4) =~= i32s_wire(w).subrange(4 * j, 4 * j + 4));
    } else {
        assert(i32s_wire(v).subrange(4 * j, 4 * j + 4) =~= bytes32(unsigned(v.last() as int, 0x1_0000_0000)));
    }
}

/// A list of 32-bit integers decodes back from its wire form behind a
/// 16-bit count, whatever follows it.
pub proof fn lemma_i32_list_round_trip(v: Seq<i32>, rest: Seq<u8>)
    requires
        v.len() <= u16::MAX,
    ensures
        i32_list_parse(i32_list_wire(v) + rest, 2) == Ok::<(Seq<i32>, nat), BanchoError>((v, 2 + 4 * v.len())),
{
    let items = i32s_wire(v);
    let s = i32_list_wire(v) + rest;
    lemma_i32s_wire_len(v);
    lemma_round_trip_16(v.len() as u16, 0, items + rest);
    assert(s =~= bytes16(v.len() as int) + (items + rest));
    let t = s.skip(2);
    assert(t =~= items + rest);
    assert forall|j: int| 0 <= j < v.len() implies #[trigger] i32s(t, v.len())[j] == v[j] by {
        lemma_i32s_wire_item(v, j);
        let u = unsigned(v[j] as int, 0x1_0000_0000);
        let x = t.skip(4 * j);
        assert(x =~= bytes32(u) + x.skip(4)) by {
            assert(items.subrange(4 * j, 4 * j + 4) == bytes32(u));
        }
        lemma_bytes32_value(u, x.skip(4));
    }
    assert(i32s(t, v.len()) =~= v);
}

} // verus!
