use bancho::error::BanchoError;
use bancho::reader::PacketReader;
use bancho::writer::{
    write_channel, write_i16, write_i32, write_i32_list, write_i64, write_i8, write_message,
    write_string, write_u16, write_u32, write_u64, write_u8, write_uleb128, WireValue,
};

#[test]
fn test_write() {
    assert_eq!(bancho::writer::write(&WireValue::I8(1)), vec![1]);
    assert_eq!(bancho::writer::write(&WireValue::U8(1)), vec![1]);
    assert_eq!(bancho::writer::write(&WireValue::I16(1)), vec![1, 0]);
    assert_eq!(bancho::writer::write(&WireValue::U16(1)), vec![1, 0]);
    assert_eq!(bancho::writer::write(&WireValue::I32(1)), vec![1, 0, 0, 0]);
    assert_eq!(bancho::writer::write(&WireValue::U32(1)), vec![1, 0, 0, 0]);
    let f16_bits = half::f16::from_f32(1 as f32).to_bits();
    assert_eq!(bancho::writer::write(&WireValue::U16(f16_bits)).to_vec(), half::f16::from_f32(1.0).to_le_bytes().to_vec());
    assert_eq!(write_u32((1 as f32).to_bits()).to_vec(), (1 as f32).to_le_bytes().to_vec());
    assert_eq!(bancho::writer::write(&WireValue::I64(1)), vec![1, 0, 0, 0, 0, 0, 0, 0]);
    assert_eq!(bancho::writer::write(&WireValue::U64(1)), vec![1, 0, 0, 0, 0, 0, 0, 0]);
    assert_eq!(write_u64((1 as f64).to_bits()).to_vec(), (1 as f64).to_le_bytes().to_vec());
    assert_eq!(bancho::writer::write(&WireValue::Str("test".to_string())), vec![0x0b, 4, b't', b'e', b's', b't']);
}

#[test]
fn fixed_width_writes_match_std_little_endian() {
    assert_eq!(write_i8(-2), (-2i8).to_le_bytes());
    assert_eq!(write_u8(200), 200u8.to_le_bytes());
    assert_eq!(write_i16(-300), (-300i16).to_le_bytes());
    assert_eq!(write_u16(0xbeef), 0xbeefu16.to_le_bytes());
    assert_eq!(write_i32(-123456789), (-123456789i32).to_le_bytes());
    assert_eq!(write_u32(0xdeadbeef), 0xdeadbeefu32.to_le_bytes());
    assert_eq!(write_i64(i64::MIN + 7), (i64::MIN + 7).to_le_bytes());
    assert_eq!(write_u64(0x0123_4567_89ab_cdef), 0x0123_4567_89ab_cdefu64.to_le_bytes());
}

#[test]
fn integers_round_trip_at_their_bounds() {
    for v in [0u8, 1, 127, 128, u8::MAX] {
        assert_eq!(PacketReader::new(write_u8(v).to_vec()).read_u8().unwrap(), v);
    }
    for v in [0i8, -1, i8::MIN, i8::MAX] {
        assert_eq!(PacketReader::new(write_i8(v).to_vec()).read_i8().unwrap(), v);
    }
    for v in [0u16, 1, u16::MAX] {
        assert_eq!(PacketReader::new(write_u16(v).to_vec()).read_u16().unwrap(), v);
    }
    for v in [0i16, -1, i16::MIN, i16::MAX] {
        assert_eq!(PacketReader::new(write_i16(v).to_vec()).read_i16().unwrap(), v);
    }
    for v in [0u32, 1, u32::MAX] {
        assert_eq!(PacketReader::new(write_u32(v).to_vec()).read_u32().unwrap(), v);
    }
    for v in [0i32, -1, i32::MIN, i32::MAX] {
        assert_eq!(PacketReader::new(write_i32(v).to_vec()).read_i32().unwrap(), v);
    }
    for v in [0u64, 1, u64::MAX] {
        assert_eq!(PacketReader::new(write_u64(v).to_vec()).read_u64().unwrap(), v);
    }
    for v in [0i64, -1, i64::MIN, i64::MAX] {
        assert_eq!(PacketReader::new(write_i64(v).to_vec()).read_i64().unwrap(), v);
    }
}

#[test]
fn float_bit_patterns_round_trip() {
    for v in [0.0f32, -0.0, f32::MAX, f32::MIN, f32::INFINITY, f32::NEG_INFINITY, f32::NAN] {
        let back = f32::from_bits(PacketReader::new(write_u32(v.to_bits()).to_vec()).read_u32().unwrap());
        assert_eq!(back.to_bits(), v.to_bits());
    }
    for v in [0.0f64, f64::MAX, f64::MIN, f64::INFINITY, f64::NAN] {
        let back = f64::from_bits(PacketReader::new(write_u64(v.to_bits()).to_vec()).read_u64().unwrap());
        assert_eq!(back.to_bits(), v.to_bits());
    }
    for v in [half::f16::ZERO, half::f16::MAX, half::f16::INFINITY, half::f16::NAN] {
        let back = half::f16::from_bits(PacketReader::new(write_u16(v.to_bits()).to_vec()).read_u16().unwrap());
        assert_eq!(back.to_bits(), v.to_bits());
    }
}

#[test]
fn empty_string_is_one_absent_marker() {
    let bytes = write_string("");
    assert_eq!(bytes, vec![0x00]);
    let mut r = PacketReader::new(bytes);
    assert_eq!(r.read_string().unwrap(), "");
    assert_eq!(r.remaining(), 0);
}

#[test]
fn hello_round_trips_in_seven_bytes() {
    let mut bytes = write_string("hello");
    assert_eq!(bytes, vec![0x0b, 5, b'h', b'e', b'l', b'l', b'o']);
    bytes.push(0xaa);
    let mut r = PacketReader::new(bytes);
    assert_eq!(r.read_string().unwrap(), "hello");
    assert_eq!(r.remaining(), 1);
}

#[test]
fn non_ascii_string_round_trips() {
    let s = "héllo wörld ✓";
    let mut r = PacketReader::new(write_string(s));
    assert_eq!(r.read_string().unwrap(), s);
    assert!(r.is_empty());
}

#[test]
fn other_markers_read_as_empty_string() {
    let mut r = PacketReader::new(vec![0x07, 0x01]);
    assert_eq!(r.read_string().unwrap(), "");
    assert_eq!(r.remaining(), 1);
}

#[test]
fn uleb128_boundaries() {
    assert_eq!(write_uleb128(0), vec![0x00]);
    assert_eq!(write_uleb128(127), vec![0x7f]);
    assert_eq!(write_uleb128(128), vec![0x80, 0x01]);
    assert!(write_uleb128(128)[0] & 0x80 != 0);
    assert_eq!(write_uleb128(300), vec![0xac, 0x02]);
    assert_eq!(write_uleb128(u64::MAX).len(), 10);
}

#[test]
fn long_string_uses_two_byte_length() {
    let s = "x".repeat(128);
    let bytes = write_string(&s);
    assert_eq!(&bytes[..3], &[0x0b, 0x80, 0x01]);
    assert_eq!(bytes.len(), 3 + 128);
    let mut r = PacketReader::new(bytes);
    assert_eq!(r.read_string().unwrap(), s);
    assert!(r.is_empty());
}

#[test]
fn invalid_utf8_is_invalid_encoding() {
    let mut r = PacketReader::new(vec![0x0b, 2, 0xc3, 0x28]);
    assert_eq!(r.read_string().unwrap_err(), BanchoError::InvalidEncoding);
}

#[test]
fn endless_uleb128_is_invalid_encoding() {
    let mut bytes = vec![0x0b];
    bytes.extend(std::iter::repeat(0x80).take(11));
    bytes.push(0);
    let mut r = PacketReader::new(bytes);
    assert_eq!(r.read_string().unwrap_err(), BanchoError::InvalidEncoding);
}

#[test]
fn short_string_body_is_unexpected_eof() {
    let mut r = PacketReader::new(vec![0x0b, 5, b'h', b'i']);
    assert_eq!(r.read_string().unwrap_err(), BanchoError::UnexpectedEof);
}

#[test]
fn reads_past_the_end_fail_without_consuming() {
    let mut r = PacketReader::new(vec![1, 2, 3]);
    assert_eq!(r.read_i32().unwrap_err(), BanchoError::UnexpectedEof);
    assert_eq!(r.remaining(), 3);
    assert_eq!(r.read_u64().unwrap_err(), BanchoError::UnexpectedEof);
    assert_eq!(r.read_u16().unwrap(), 0x0201);
    assert_eq!(r.read_u8().unwrap(), 3);
    assert_eq!(r.read_u8().unwrap_err(), BanchoError::UnexpectedEof);
    assert_eq!(r.read_i8().unwrap_err(), BanchoError::UnexpectedEof);
}

#[test]
fn empty_list_consumes_only_its_prefix() {
    let mut r = PacketReader::new(vec![0, 0, 9]);
    assert!(r.read_i32_list_i16l().unwrap().is_empty());
    assert_eq!(r.remaining(), 1);
    let mut r = PacketReader::new(vec![0, 0, 0, 0]);
    assert!(r.read_i32_list_i32l().unwrap().is_empty());
    assert_eq!(r.remaining(), 0);
}

#[test]
fn list_consumes_prefix_and_four_bytes_per_item() {
    let bytes = write_i32_list(vec![1, -2, 3]);
    assert_eq!(bytes.len(), 2 + 4 * 3);
    let mut with_tail = bytes.clone();
    with_tail.push(0x55);
    let mut r = PacketReader::new(with_tail);
    assert_eq!(r.read_i32_list_i16l().unwrap(), vec![1, -2, 3]);
    assert_eq!(r.remaining(), 1);

    let mut wide = vec![2, 0, 0, 0];
    wide.extend(write_i32(7));
    wide.extend(write_i32(i32::MIN));
    let mut r = PacketReader::new(wide);
    assert_eq!(r.read_i32_list_i32l().unwrap(), vec![7, i32::MIN]);
    assert!(r.is_empty());
}

#[test]
fn list_longer_than_the_buffer_is_unexpected_eof() {
    let mut r = PacketReader::new(vec![3, 0, 1, 0, 0, 0]);
    assert_eq!(r.read_i32_list_i16l().unwrap_err(), BanchoError::UnexpectedEof);
}

#[test]
fn message_round_trips() {
    let bytes = write_message("alice", "hi there", "#osu", 42);
    let mut r = PacketReader::new(bytes);
    let m = r.read_message().unwrap();
    assert_eq!(m.sender, "alice");
    assert_eq!(m.text, "hi there");
    assert_eq!(m.recipient, "#osu");
    assert_eq!(m.sender_id, 42);
    assert!(r.is_empty());
}

#[test]
fn channel_is_name_topic_and_count() {
    let bytes = write_channel("#osu", "General discussion.", 2);
    assert_eq!(bytes[0], 0x0b);
    assert_eq!(&bytes[bytes.len() - 2..], &[2, 0]);
    let mut padded = bytes.clone();
    padded.extend([0, 0]);
    let mut r = PacketReader::new(padded);
    let c = r.read_channel().unwrap();
    assert_eq!(c.name, "#osu");
    assert_eq!(c.topic, "General discussion.");
    assert_eq!(c.players, 2);
    assert!(r.is_empty());
}

#[test]
fn read_bytes_takes_exactly_n() {
    let mut r = PacketReader::new(vec![1, 2, 3, 4]);
    assert_eq!(r.read_bytes(3).unwrap(), vec![1, 2, 3]);
    assert_eq!(r.read_bytes(2).unwrap_err(), BanchoError::UnexpectedEof);
    assert_eq!(r.read_bytes(1).unwrap(), vec![4]);
}
