//! Encoders: each value to the bytes the reader decodes it from.
use vstd::prelude::*;
use vstd::utf8::encode_utf8;

use crate::dispatch::frame_wire;
use crate::packets::{packet_id, Packets};
use crate::wire::{
    bytes16, bytes32, bytes64, channel_wire, i32_list_wire, i32s_wire, message_wire, string_wire,
    uleb128, unsigned, STRING_ABSENT, STRING_PRESENT,
};

verus! {

/// The byte itself.
pub fn write_u8(value: u8) -> (r: [u8; 1])
    ensures
        r@ == seq![value],
{
    let r = [value];
    assert(r@ =~= seq![value]);
    r
}

/// The two's complement byte of `value`.
pub fn write_i8(value: i8) -> (r: [u8; 1])
    ensures
        r@ == seq![unsigned(value as int, 256) as u8],
{
    let u: u8 = if value >= 0 { value as u8 } else { ((value + 127 + 1) as u8) + 128 };
    let r = [u];
    assert(r@ =~= seq![unsigned(value as int, 256) as u8]);
    r
}

/// The two little-endian bytes of `value`.
pub fn write_u16(value: u16) -> (r: [u8; 2])
    ensures
        r@ == bytes16(value as int),
{
    let r = [(value % 256) as u8, (value / 256 % 256) as u8];
    assert(r@ =~= bytes16(value as int));
    r
}

/// The two little-endian bytes of `value`, in two's complement.
pub fn write_i16(value: i16) -> (r: [u8; 2])
    ensures
        r@ == bytes16(unsigned(value as int, 0x10000)),
{
    let u: u16 = if value >= 0 { value as u16 } else { ((value + 0x7fff + 1) as u16) + 0x8000 };
    write_u16(u)
}

/// The four little-endian bytes of `value`.
pub fn write_u32(value: u32) -> (r: [u8; 4])
    ensures
        r@ == bytes32(value as int),
{
    let r = [
        (value % 256) as u8,
        (value / 256 % 256) as u8,
        (value / 65536 % 256) as u8,
        (value / 16777216 % 256) as u8,
    ];
    assert(r@ =~= bytes32(value as int));
    r
}

/// The four little-endian bytes of `value`, in two's complement.
pub fn write_i32(value: i32) -> (r: [u8; 4])
    ensures
        r@ == bytes32(unsigned(value as int, 0x1_0000_0000)),
{
    let u: u32 = if value >= 0 {
        value as u32
    } else {
        ((value + 0x7fff_ffff + 1) as u32) + 0x8000_0000
    };
    write_u32(u)
}

/// The eight little-endian bytes of `value`.
pub fn write_u64(value: u64) -> (r: [u8; 8])
    ensures
        r@ == bytes64(value as int),
{
    let lo = write_u32((value % 4294967296) as u32);
    let hi = write_u32((value / 4294967296) as u32);
    let r = [lo[0], lo[1], lo[2], lo[3], hi[0], hi[1], hi[2], hi[3]];
    assert(r@ =~= lo@ + hi@);
    r
}

/// The eight little-endian bytes of `value`, in two's complement.
pub fn write_i64(value: i64) -> (r: [u8; 8])
    ensures
        r@ == bytes64(unsigned(value as int, 0x1_0000_0000_0000_0000)),
{
    let u: u64 = if value >= 0 {
        value as u64
    } else {
        ((value + 0x7fff_ffff_ffff_ffff + 1) as u64) + 0x8000_0000_0000_0000
    };
    write_u64(u)
}

/// Appends every byte of `src` to `out`.
pub(crate) fn push_all(out: &mut Vec<u8>, src: &[u8])
    ensures
        final(out)@ == old(out)@ + src@,
{
    let mut i: usize = 0;
    while i < src.len()
        invariant
            i <= src@.len(),
            out@ == old(out)@ + src@.take(i as int),
        decreases src@.len() - i,
    {
        out.push(src[i]);
        i = i + 1;
        assert(out@ =~= old(out)@ + src@.take(i as int));
    }
    assert(src@.take(i as int) =~= src@);
}

/// The ULEB128 encoding of `value`: seven bits per byte, low bits first, the
/// high bit set on every byte but the last.
pub fn write_uleb128(value: u64) -> (r: Vec<u8>)
    ensures
        r@ == uleb128(value as nat),
{
    let mut out: Vec<u8> = Vec::new();
    let mut v = value;
    while v >= 128
        invariant
            out@ + uleb128(v as nat) == uleb128(value as nat),
        decreases v,
    {
        let ghost before = out@;
        assert(uleb128(v as nat) == seq![(v % 128 + 128) as u8] + uleb128((v / 128) as nat));
        out.push((v % 128 + 128) as u8);
        assert(out@ + uleb128((v / 128) as nat) =~= before + uleb128(v as nat));
        v = v / 128;
    }
    out.push(v as u8);
    assert(out@ =~= uleb128(value as nat));
    out
}

/// Encodes a string: the absent marker alone when it is empty, else the
/// present marker, the ULEB128 byte length and the UTF-8 bytes.
pub fn write_string(value: &str) -> (r: Vec<u8>)
    ensures
        r@ == string_wire(encode_utf8(value@)),
{
    let bytes = value.as_bytes();
    let mut out: Vec<u8> = Vec::new();
    if bytes.len() == 0 {
        out.push(STRING_ABSENT);
        assert(out@ =~= string_wire(encode_utf8(value@)));
        return out;
    }
    out.push(STRING_PRESENT);
    let len = write_uleb128(bytes.len() as u64);
    push_all(&mut out, len.as_slice());
    push_all(&mut out, bytes);
    assert(out@ =~= string_wire(encode_utf8(value@)));
    out
}

/// Encodes a list of 32-bit integers behind a 16-bit count.
pub fn write_i32_list(value: Vec<i32>) -> (r: Vec<u8>)
    requires
        value@.len() <= u16::MAX,
    ensures
        r@ == i32_list_wire(value@),
{
    let mut out: Vec<u8> = Vec::new();
    let count = write_u16(value.len() as u16);
    push_all(&mut out, &count);
    let mut i: usize = 0;
    while i < value.len()
        invariant
            i <= value@.len(),
            out@ == bytes16(value@.len() as int) + i32s_wire(value@.take(i as int)),
        decreases value@.len() - i,
    {
        let item = write_i32(value[i]);
        push_all(&mut out, &item);
        assert(value@.take(i + 1).drop_last() =~= value@.take(i as int));
        i = i + 1;
    }
    assert(value@.take(i as int) =~= value@);
    out
}

/// Encodes a chat message: sender, text and recipient, then the sender's id.
pub fn write_message(sender: &str, msg: &str, recipient: &str, sender_id: u32) -> (r: Vec<u8>)
    ensures
        r@ == message_wire(encode_utf8(sender@), encode_utf8(msg@), encode_utf8(recipient@), sender_id),
{
    let mut out = write_string(sender);
    let mut part = write_string(msg);
    out.append(&mut part);
    let mut part = write_string(recipient);
    out.append(&mut part);
    let id = write_u32(sender_id);
    push_all(&mut out, &id);
    out
}

/// Encodes a channel: its name and topic, then its player count.
pub fn write_channel(name: &str, topic: &str, count: u16) -> (r: Vec<u8>)
    ensures
        r@ == channel_wire(encode_utf8(name@), encode_utf8(topic@), count),
{
    let mut out = write_string(name);
    let mut part = write_string(topic);
    out.append(&mut part);
    let n = write_u16(count);
    push_all(&mut out, &n);
    out
}

/// A value of one of the protocol's primitive kinds, tagged with its kind.
pub enum WireValue {
    I8(i8),
    U8(u8),
    I16(i16),
    U16(u16),
    I32(i32),
    U32(u32),
    I64(i64),
    U64(u64),
    Str(String),
}

/// The bytes that `write` produces for `v`.
pub open spec fn wire_value_bytes(v: WireValue) -> Seq<u8> {
    match v {
        WireValue::I8(x) => seq![unsigned(x as int, 256) as u8],
        WireValue::U8(x) => seq![x],
        WireValue::I16(x) => bytes16(unsigned(x as int, 0x10000)),
        WireValue::U16(x) => bytes16(x as int),
        WireValue::I32(x) => bytes32(unsigned(x as int, 0x1_0000_0000)),
        WireValue::U32(x) => bytes32(x as int),
        WireValue::I64(x) => bytes64(unsigned(x as int, 0x1_0000_0000_0000_0000)),
        WireValue::U64(x) => bytes64(x as int),
        WireValue::Str(s) => string_wire(encode_utf8(s@)),
    }
}

/// Encodes a value by its kind.
pub fn write(value: &WireValue) -> (r: Vec<u8>)
    ensures
        r@ == wire_value_bytes(*value),
{
    let mut out: Vec<u8> = Vec::new();
    match value {
        WireValue::I8(x) => push_all(&mut out, &write_i8(*x)),
        WireValue::U8(x) => push_all(&mut out, &write_u8(*x)),
        WireValue::I16(x) => push_all(&mut out, &write_i16(*x)),
        WireValue::U16(x) => push_all(&mut out, &write_u16(*x)),
        WireValue::I32(x) => push_all(&mut out, &write_i32(*x)),
        WireValue::U32(x) => push_all(&mut out, &write_u32(*x)),
        WireValue::I64(x) => push_all(&mut out, &write_i64(*x)),
        WireValue::U64(x) => push_all(&mut out, &write_u64(*x)),
        WireValue::Str(s) => {
            out = write_string(s.as_str());
        },
    }
    assert(out@ =~= wire_value_bytes(*value));
    out
}

/// Frames an outgoing packet: its id, the body's length, then the body.
pub fn write_packet(packet: Packets, body: &[u8]) -> (r: Vec<u8>)
    requires
        body@.len() <= u32::MAX,
    ensures
        r@ == frame_wire(packet_id(packet), body@),
{
    let mut out: Vec<u8> = Vec::new();
    push_all(&mut out, &write_u16(packet.id()));
    push_all(&mut out, &write_u32(body.len() as u32));
    push_all(&mut out, body);
    out
}

} // verus!
