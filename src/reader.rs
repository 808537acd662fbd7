//! A cursor over the bytes of a request, and the decoders that consume it.
use vstd::prelude::*;

use crate::error::BanchoError;
use vstd::utf8::{decode_utf8, encode_utf8, valid_utf8};

use crate::wire::{
    bytes16, bytes32, channel_wire, i32_list_parse, i32s, lemma_round_trip_16, lemma_round_trip_32,
    lemma_string_round_trip, message_wire, string_wire, le_u16, le_u32, le_u64, pow128, signed, string_parse, uleb128_parse,
    STRING_PRESENT, ULEB128_MAX_BYTES,
};

verus! {

/// Relies on `String::from_utf8`: it accepts exactly the well-formed UTF-8
/// byte sequences, and the string it returns holds the characters they encode.
#[verifier::external_body]
fn string_from_utf8(bytes: Vec<u8>) -> (r: Option<String>)
    ensures
        r is Some <==> valid_utf8(bytes@),
        r is Some ==> r.unwrap()@ == decode_utf8(bytes@),
{
    String::from_utf8(bytes).ok()
}

/// A chat message: who sent it, its text, where it went, and the sender's id.
#[derive(Debug)]
pub struct Message {
    pub sender: String,
    pub text: String,
    pub recipient: String,
    pub sender_id: i32,
}

impl View for Message {
    type V = (Seq<char>, Seq<char>, Seq<char>, i32);

    open spec fn view(&self) -> Self::V {
        (self.sender@, self.text@, self.recipient@, self.sender_id)
    }
}

/// A chat channel: its name, its topic and how many players are in it.
#[derive(Debug)]
pub struct Channel {
    pub name: String,
    pub topic: String,
    pub players: i32,
}

impl View for Channel {
    type V = (Seq<char>, Seq<char>, i32);

    open spec fn view(&self) -> Self::V {
        (self.name@, self.topic@, self.players)
    }
}

/// Decodes a message from the front of `s`: sender, text and recipient as
/// strings, then the sender's id.
pub open spec fn message_parse(s: Seq<u8>) -> Result<((Seq<char>, Seq<char>, Seq<char>, i32), nat), BanchoError> {
    match string_parse(s) {
        Err(e) => Err(e),
        Ok((sender, n1)) => match string_parse(s.skip(n1 as int)) {
            Err(e) => Err(e),
            Ok((text, n2)) => match string_parse(s.skip((n1 + n2) as int)) {
                Err(e) => Err(e),
                Ok((recipient, n3)) => {
                    let t = s.skip((n1 + n2 + n3) as int);
                    if t.len() < 4 {
                        Err(BanchoError::UnexpectedEof)
                    } else {
                        Ok(((sender, text, recipient, signed(le_u32(t), 0x1_0000_0000) as i32), n1 + n2 + n3 + 4))
                    }
                },
            },
        },
    }
}

/// Decodes a channel from the front of `s`: name and topic as strings, then
/// the player count.
pub open spec fn channel_parse(s: Seq<u8>) -> Result<((Seq<char>, Seq<char>, i32), nat), BanchoError> {
    match string_parse(s) {
        Err(e) => Err(e),
        Ok((name, n1)) => match string_parse(s.skip(n1 as int)) {
            Err(e) => Err(e),
            Ok((topic, n2)) => {
                let t = s.skip((n1 + n2) as int);
                if t.len() < 4 {
                    Err(BanchoError::UnexpectedEof)
                } else {
                    Ok(((name, topic, signed(le_u32(t), 0x1_0000_0000) as i32), n1 + n2 + 4))
                }
            },
        },
    }
}

/// An owned byte buffer read from the front. Reads only move forward, and a
/// read past the end fails instead of producing data.
pub struct PacketReader {
    buffer: Vec<u8>,
    pos: usize,
}

impl View for PacketReader {
    type V = Seq<u8>;

    /// The bytes not yet consumed.
    closed spec fn view(&self) -> Seq<u8> {
        self.buffer@.subrange(self.pos as int, self.buffer@.len() as int)
    }
}

impl PacketReader {
    #[verifier::type_invariant]
    spec fn inv(&self) -> bool {
        self.pos <= self.buffer.len()
    }

    /// A reader positioned at the first byte of `buffer`.
    pub fn new(buffer: Vec<u8>) -> (r: Self)
        ensures
            r@ == buffer@,
    {
        let r = PacketReader { buffer, pos: 0 };
        assert(r@ =~= r.buffer@);
        r
    }

    /// How many bytes remain.
    pub fn remaining(&self) -> (r: usize)
        ensures
            r == self@.len(),
    {
        proof {
            use_type_invariant(self);
        }
        self.buffer.len() - self.pos
    }

    /// Whether every byte has been consumed.
    pub fn is_empty(&self) -> (r: bool)
        ensures
            r == (self@.len() == 0),
    {
        self.remaining() == 0
    }

    /// The byte `i` places ahead of the cursor.
    pub(crate) fn peek(&self, i: usize) -> (r: u8)
        requires
            i < self@.len(),
        ensures
            r == self@[i as int],
    {
        proof {
            use_type_invariant(self);
        }
        self.buffer[self.pos + i]
    }

    /// Moves the cursor `n` bytes on.
    fn advance(&mut self, n: usize)
        requires
            n <= old(self)@.len(),
        ensures
            final(self)@ == old(self)@.skip(n as int),
    {
        proof {
            use_type_invariant(&*self);
        }
        self.pos = self.pos + n;
        assert(self@ =~= old(self)@.skip(n as int));
    }

    /// Takes the next `n` bytes out as a vector.
    pub fn read_bytes(&mut self, n: usize) -> (r: Result<Vec<u8>, BanchoError>)
        ensures
            n <= old(self)@.len() ==> r == Ok::<Vec<u8>, BanchoError>(r.unwrap()) && r.unwrap()@
                == old(self)@.take(n as int) && final(self)@ == old(self)@.skip(n as int),
            n > old(self)@.len() ==> r == Err::<Vec<u8>, BanchoError>(BanchoError::UnexpectedEof)
                && final(self)@ == old(self)@,
    {
        if n > self.remaining() {
            return Err(BanchoError::UnexpectedEof);
        }
        let mut out: Vec<u8> = Vec::new();
        let mut i: usize = 0;
        while i < n
            invariant
                i <= n,
                n <= self@.len(),
                out@ == self@.take(i as int),
            decreases n - i,
        {
            out.push(self.peek(i));
            i = i + 1;
            assert(out@ =~= self@.take(i as int));
        }
        self.advance(n);
        Ok(out)
    }

    /// Reads one byte.
    pub fn read_u8(&mut self) -> (r: Result<u8, BanchoError>)
        ensures
            old(self)@.len() >= 1 ==> r == Ok::<u8, BanchoError>(old(self)@[0]) && final(self)@
                == old(self)@.skip(1),
            old(self)@.len() < 1 ==> r == Err::<u8, BanchoError>(BanchoError::UnexpectedEof)
                && final(self)@ == old(self)@,
    {
        if self.remaining() < 1 {
            return Err(BanchoError::UnexpectedEof);
        }
        let b = self.peek(0);
        self.advance(1);
        Ok(b)
    }

    /// Reads one signed byte.
    pub fn read_i8(&mut self) -> (r: Result<i8, BanchoError>)
        ensures
            old(self)@.len() >= 1 ==> r is Ok && r.unwrap() as int == signed(old(self)@[0] as int, 256)
                && final(self)@ == old(self)@.skip(1),
            old(self)@.len() < 1 ==> r == Err::<i8, BanchoError>(BanchoError::UnexpectedEof)
                && final(self)@ == old(self)@,
    {
        match self.read_u8() {
            Ok(u) => Ok(if u < 128 { u as i8 } else { ((u - 128) as i8) - 127 - 1 }),
            Err(e) => Err(e),
        }
    }

    /// Reads a little-endian unsigned 16-bit integer.
    pub fn read_u16(&mut self) -> (r: Result<u16, BanchoError>)
        ensures
            old(self)@.len() >= 2 ==> r is Ok && r.unwrap() as int == le_u16(old(self)@)
                && final(self)@ == old(self)@.skip(2),
            old(self)@.len() < 2 ==> r == Err::<u16, BanchoError>(BanchoError::UnexpectedEof)
                && final(self)@ == old(self)@,
    {
        if self.remaining() < 2 {
            return Err(BanchoError::UnexpectedEof);
        }
        let v = self.peek(0) as u16 + 256 * (self.peek(1) as u16);
        self.advance(2);
        Ok(v)
    }

    /// Reads a little-endian signed 16-bit integer.
    pub fn read_i16(&mut self) -> (r: Result<i16, BanchoError>)
        ensures
            old(self)@.len() >= 2 ==> r is Ok && r.unwrap() as int == signed(le_u16(old(self)@), 0x10000)
                && final(self)@ == old(self)@.skip(2),
            old(self)@.len() < 2 ==> r == Err::<i16, BanchoError>(BanchoError::UnexpectedEof)
                && final(self)@ == old(self)@,
    {
        match self.read_u16() {
            Ok(u) => Ok(if u < 0x8000 { u as i16 } else { ((u - 0x8000) as i16) - 0x7fff - 1 }),
            Err(e) => Err(e),
        }
    }

    /// Reads a little-endian unsigned 32-bit integer.
    pub fn read_u32(&mut self) -> (r: Result<u32, BanchoError>)
        ensures
            old(self)@.len() >= 4 ==> r is Ok && r.unwrap() as int == le_u32(old(self)@)
                && final(self)@ == old(self)@.skip(4),
            old(self)@.len() < 4 ==> r == Err::<u32, BanchoError>(BanchoError::UnexpectedEof)
                && final(self)@ == old(self)@,
    {
        if self.remaining() < 4 {
            return Err(BanchoError::UnexpectedEof);
        }
        let v = self.peek(0) as u32 + 256 * (self.peek(1) as u32) + 65536 * (self.peek(2) as u32)
            + 16777216 * (self.peek(3) as u32);
        self.advance(4);
        Ok(v)
    }

    /// Reads a little-endian signed 32-bit integer.
    pub fn read_i32(&mut self) -> (r: Result<i32, BanchoError>)
        ensures
            old(self)@.len() >= 4 ==> r is Ok && r.unwrap() as int == signed(le_u32(old(self)@), 0x1_0000_0000)
                && final(self)@ == old(self)@.skip(4),
            old(self)@.len() < 4 ==> r == Err::<i32, BanchoError>(BanchoError::UnexpectedEof)
                && final(self)@ == old(self)@,
    {
        match self.read_u32() {
            Ok(u) => Ok(
                if u < 0x8000_0000 {
                    u as i32
                } else {
                    ((u - 0x8000_0000) as i32) - 0x7fff_ffff - 1
                },
            ),
            Err(e) => Err(e),
        }
    }

    /// Reads a little-endian unsigned 64-bit integer.
    pub fn read_u64(&mut self) -> (r: Result<u64, BanchoError>)
        ensures
            old(self)@.len() >= 8 ==> r is Ok && r.unwrap() as int == le_u64(old(self)@)
                && final(self)@ == old(self)@.skip(8),
            old(self)@.len() < 8 ==> r == Err::<u64, BanchoError>(BanchoError::UnexpectedEof)
                && final(self)@ == old(self)@,
    {
        if self.remaining() < 8 {
            return Err(BanchoError::UnexpectedEof);
        }
        let lo = self.peek(0) as u64 + 256 * (self.peek(1) as u64) + 65536 * (self.peek(2) as u64)
            + 16777216 * (self.peek(3) as u64);
        let hi = self.peek(4) as u64 + 256 * (self.peek(5) as u64) + 65536 * (self.peek(6) as u64)
            + 16777216 * (self.peek(7) as u64);
        proof {
            let s = self@;
            assert(s.skip(4)[0] == s[4] && s.skip(4)[1] == s[5] && s.skip(4)[2] == s[6] && s.skip(4)[3] == s[7]);
        }
        self.advance(8);
        Ok(lo + 4294967296 * hi)
    }

    /// Reads a little-endian signed 64-bit integer.
    pub fn read_i64(&mut self) -> (r: Result<i64, BanchoError>)
        ensures
            old(self)@.len() >= 8 ==> r is Ok && r.unwrap() as int == signed(
                le_u64(old(self)@),
                0x1_0000_0000_0000_0000,
            ) && final(self)@ == old(self)@.skip(8),
            old(self)@.len() < 8 ==> r == Err::<i64, BanchoError>(BanchoError::UnexpectedEof)
                && final(self)@ == old(self)@,
    {
        match self.read_u64() {
            Ok(u) => Ok(
                if u < 0x8000_0000_0000_0000 {
                    u as i64
                } else {
                    ((u - 0x8000_0000_0000_0000) as i64) - 0x7fff_ffff_ffff_ffff - 1
                },
            ),
            Err(e) => Err(e),
        }
    }

    /// Decodes a ULEB128 value of at most `budget` bytes.
    fn read_uleb128(&mut self, budget: u32) -> (r: Result<u128, BanchoError>)
        requires
            1 <= budget <= ULEB128_MAX_BYTES,
        ensures
            match uleb128_parse(old(self)@, budget as nat) {
                Ok((v, n)) => r is Ok && r.unwrap() as int == v && final(self)@ == old(self)@.skip(n as int)
                    && n <= old(self)@.len() && v < pow128(budget as nat),
                Err(e) => r == Err::<u128, BanchoError>(e),
            },
        decreases budget,
    {
        let ghost s = self@;
        let b = self.read_u8()?;
        if b < 128 {
            proof {
                reveal_with_fuel(pow128, 2);
                lemma_pow128_monotone(1, budget as nat);
            }
            return Ok(b as u128);
        }
        if budget <= 1 {
            return Err(BanchoError::InvalidEncoding);
        }
        let ghost t = self@;
        let rest = self.read_uleb128(budget - 1)?;
        proof {
            let k = uleb128_parse(t, (budget - 1) as nat).unwrap().1 as int;
            assert(t =~= s.skip(1));
            assert(self@ =~= s.skip(1 + k));
            reveal_with_fuel(pow128, 11);
            lemma_pow128_monotone((budget - 1) as nat, 9);
        }
        Ok((b - 128) as u128 + 128 * rest)
    }

    /// Decodes a string: a marker byte, and when it marks a present string, a
    /// ULEB128 byte length and that many bytes of UTF-8. Any other marker
    /// stands for the empty string.
    pub fn read_string(&mut self) -> (r: Result<String, BanchoError>)
        ensures
            match string_parse(old(self)@) {
                Ok((chars, n)) => r is Ok && r.unwrap()@ == chars && n <= old(self)@.len() && final(self)@
                    == old(self)@.skip(n as int),
                Err(e) => r == Err::<String, BanchoError>(e),
            },
    {
        proof {
            reveal(string_parse);
        }
        let ghost s = self@;
        let marker = self.read_u8()?;
        if marker != STRING_PRESENT {
            return Ok(String::new());
        }
        let ghost t = self@;
        let len = self.read_uleb128(ULEB128_MAX_BYTES)?;
        let ghost k = uleb128_parse(t, ULEB128_MAX_BYTES as nat).unwrap().1 as int;
        proof {
            assert(t =~= s.skip(1));
            assert(self@ =~= s.skip(1 + k));
        }
        if len > self.remaining() as u128 {
            return Err(BanchoError::UnexpectedEof);
        }
        let bytes = self.read_bytes(len as usize)?;
        proof {
            assert(bytes@ =~= s.subrange(1 + k, 1 + k + len));
            assert(self@ =~= s.skip(1 + k + len));
        }
        match string_from_utf8(bytes) {
            Some(text) => Ok(text),
            None => Err(BanchoError::InvalidEncoding),
        }
    }

    /// Decodes 32-bit integers behind a length prefix of `prefix` bytes.
    fn read_i32_list(&mut self, prefix: usize) -> (r: Result<Vec<i32>, BanchoError>)
        requires
            prefix == 2 || prefix == 4,
        ensures
            match i32_list_parse(old(self)@, prefix as nat) {
                Ok((v, n)) => r is Ok && r.unwrap()@ == v && final(self)@ == old(self)@.skip(n as int),
                Err(e) => r == Err::<Vec<i32>, BanchoError>(e),
            },
    {
        let ghost s = self@;
        let count: u64 = if prefix == 2 {
            self.read_u16()? as u64
        } else {
            self.read_u32()? as u64
        };
        if 4 * count > self.remaining() as u64 {
            return Err(BanchoError::UnexpectedEof);
        }
        let mut list: Vec<i32> = Vec::new();
        let mut i: u64 = 0;
        while i < count
            invariant
                i <= count,
                4 * count <= s.len() - prefix,
                count == (if prefix == 2 { le_u16(s) } else { le_u32(s) }),
                self@ == s.skip(prefix + 4 * i),
                list@ == i32s(s.skip(prefix as int), i as nat),
            decreases count - i,
        {
            let ghost before = self@;
            let v = self.read_i32()?;
            proof {
                assert(s.skip(prefix as int).skip(4 * i) =~= before);
                assert(self@ =~= s.skip(prefix + 4 * (i + 1)));
            }
            list.push(v);
            i = i + 1;
            assert(list@ =~= i32s(s.skip(prefix as int), i as nat));
        }
        Ok(list)
    }

    /// Decodes a list of 32-bit integers behind a 16-bit count.
    pub fn read_i32_list_i16l(&mut self) -> (r: Result<Vec<i32>, BanchoError>)
        ensures
            match i32_list_parse(old(self)@, 2) {
                Ok((v, n)) => r is Ok && r.unwrap()@ == v && final(self)@ == old(self)@.skip(n as int),
                Err(e) => r == Err::<Vec<i32>, BanchoError>(e),
            },
    {
        self.read_i32_list(2)
    }

    /// Decodes a list of 32-bit integers behind a 32-bit count.
    pub fn read_i32_list_i32l(&mut self) -> (r: Result<Vec<i32>, BanchoError>)
        ensures
            match i32_list_parse(old(self)@, 4) {
                Ok((v, n)) => r is Ok && r.unwrap()@ == v && final(self)@ == old(self)@.skip(n as int),
                Err(e) => r == Err::<Vec<i32>, BanchoError>(e),
            },
    {
        self.read_i32_list(4)
    }

    /// Decodes a chat message.
    pub fn read_message(&mut self) -> (r: Result<Message, BanchoError>)
        ensures
            match message_parse(old(self)@) {
                Ok((m, n)) => r is Ok && r.unwrap()@ == m && final(self)@ == old(self)@.skip(n as int),
                Err(e) => r == Err::<Message, BanchoError>(e),
            },
    {
        let ghost s = self@;
        let sender = self.read_string()?;
        let ghost n1 = string_parse(s).unwrap().1 as int;
        proof {
            assert(self@ =~= s.skip(n1));
        }
        let text = self.read_string()?;
        let ghost n2 = string_parse(s.skip(n1)).unwrap().1 as int;
        proof {
            assert(self@ =~= s.skip(n1 + n2));
        }
        let recipient = self.read_string()?;
        let ghost n3 = string_parse(s.skip(n1 + n2)).unwrap().1 as int;
        proof {
            assert(self@ =~= s.skip(n1 + n2 + n3));
        }
        let sender_id = self.read_i32()?;
        proof {
            assert(self@ =~= s.skip(n1 + n2 + n3 + 4));
        }
        Ok(Message { sender, text, recipient, sender_id })
    }

    /// Decodes a channel.
    pub fn read_channel(&mut self) -> (r: Result<Channel, BanchoError>)
        ensures
            match channel_parse(old(self)@) {
                Ok((c, n)) => r is Ok && r.unwrap()@ == c && final(self)@ == old(self)@.skip(n as int),
                Err(e) => r == Err::<Channel, BanchoError>(e),
            },
    {
        let ghost s = self@;
        let name = self.read_string()?;
        let ghost n1 = string_parse(s).unwrap().1 as int;
        proof {
            assert(self@ =~= s.skip(n1));
        }
        let topic = self.read_string()?;
        let ghost n2 = string_parse(s.skip(n1)).unwrap().1 as int;
        proof {
            assert(self@ =~= s.skip(n1 + n2));
        }
        let players = self.read_i32()?;
        proof {
            assert(self@ =~= s.skip(n1 + n2 + 4));
        }
        Ok(Channel { name, topic, players })
    }
}

/// `pow128` grows with its exponent.
proof fn lemma_pow128_monotone(a: nat, b: nat)
    requires
        a <= b,
    ensures
        pow128(a) <= pow128(b),
    decreases b,
{
    if a < b {
        lemma_pow128_monotone(a, (b - 1) as nat);
        lemma_pow128_positive((b - 1) as nat);
    }
}

proof fn lemma_pow128_positive(a: nat)
    ensures
        pow128(a) >= 1,
    decreases a,
{
    if a > 0 {
        lemma_pow128_positive((a - 1) as nat);
    }
}

#[verifier::spinoff_prover]
/// A message decodes back from the bytes `write_message` gives for it,
/// whatever follows them; the id comes back as its two's complement reading.
pub proof fn lemma_message_round_trip(
    sender: Seq<char>,
    text: Seq<char>,
    recipient: Seq<char>,
    sender_id: u32,
    rest: Seq<u8>,
)
    requires
        encode_utf8(sender).len() <= u64::MAX,
        encode_utf8(text).len() <= u64::MAX,
        encode_utf8(recipient).len() <= u64::MAX,
    ensures
        message_parse(message_wire(encode_utf8(sender), encode_utf8(text), encode_utf8(recipient), sender_id) + rest)
            == Ok::<((Seq<char>, Seq<char>, Seq<char>, i32), nat), BanchoError>(
            (
                (sender, text, recipient, signed(sender_id as int, 0x1_0000_0000) as i32),
                message_wire(encode_utf8(sender), encode_utf8(text), encode_utf8(recipient), sender_id).len(),
            ),
        ),
{
    let a = string_wire(encode_utf8(sender));
    let b = string_wire(encode_utf8(text));
    let c = string_wire(encode_utf8(recipient));
    let d = bytes32(sender_id as int);
    let s = message_wire(encode_utf8(sender), encode_utf8(text), encode_utf8(recipient), sender_id) + rest;
    let n1 = a.len() as int;
    let n2 = b.len() as int;
    let n3 = c.len() as int;
    assert(s =~= a + (b + c + d + rest));
    lemma_string_round_trip(sender, b + c + d + rest);
    assert(string_parse(s) == Ok::<(Seq<char>, nat), BanchoError>((sender, n1 as nat)));
    assert(s.skip(n1) =~= b + (c + d + rest));
    lemma_string_round_trip(text, c + d + rest);
    assert(string_parse(s.skip(n1)) == Ok::<(Seq<char>, nat), BanchoError>((text, n2 as nat)));
    assert(s.skip(n1 + n2) =~= c + (d + rest));
    lemma_string_round_trip(recipient, d + rest);
    assert(string_parse(s.skip(n1 + n2)) == Ok::<(Seq<char>, nat), BanchoError>((recipient, n3 as nat)));
    assert(s.skip(n1 + n2 + n3) =~= d + rest);
    lemma_round_trip_32(sender_id, 0, rest);
}

/// A channel decodes back from the bytes `write_channel` gives for it when
/// the count is followed by two more bytes: the count is written in 16 bits
/// and read in 32.
pub proof fn lemma_channel_round_trip(name: Seq<char>, topic: Seq<char>, count: u16, rest: Seq<u8>)
    requires
        encode_utf8(name).len() <= u64::MAX,
        encode_utf8(topic).len() <= u64::MAX,
        rest.len() >= 2,
        rest[0] == 0 && rest[1] == 0,
    ensures
        channel_parse(channel_wire(encode_utf8(name), encode_utf8(topic), count) + rest)
            == Ok::<((Seq<char>, Seq<char>, i32), nat), BanchoError>(
            ((name, topic, count as i32), channel_wire(encode_utf8(name), encode_utf8(topic), count).len() + 2),
        ),
{
    let a = string_wire(encode_utf8(name));
    let b = string_wire(encode_utf8(topic));
    let d = bytes16(count as int);
    let s = channel_wire(encode_utf8(name), encode_utf8(topic), count) + rest;
    assert(s =~= a + (b + d + rest));
    lemma_string_round_trip(name, b + d + rest);
    assert(s.skip(a.len() as int) =~= b + (d + rest));
    lemma_string_round_trip(topic, d + rest);
    let t = s.skip((a.len() + b.len()) as int);
    assert(t =~= d + rest);
    lemma_round_trip_16(count, 0, rest);
    assert(t[2] == 0 && t[3] == 0);
}

} // verus!
