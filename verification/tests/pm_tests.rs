use paymoncoin::pm::de::Deserializer;
use paymoncoin::pm::error::{Error, IoErrorKind, SerializationError};
use paymoncoin::pm::ser::Serializer;
use paymoncoin::pm::serializable::{to_buffer, SerializedBuffer, WriteCall};
use paymoncoin::pm::sized::{check_seq_len, size_hint_from_byte_seq_len, PMSized};

#[test]
fn it_works() {
    let mut ser = Serializer::from_buffer(SerializedBuffer::new_with_size(20));
    ser.serialize_i32(3).expect("failed to serialize data");
    ser.serialize_str("hello").expect("failed to serialize data");
    ser.serialize_u32(0xbbbbbbbb).expect("failed to serialize data");
    ser.serialize_u32(4).expect("failed to serialize data");
    let mut b0 = ser.into_buffer();
    b0.flip();
    let mut b1 = SerializedBuffer::from_slice(&[
        3, 0, 0, 0, 5, 104, 101, 108, 108, 111, 0, 0, 187, 187, 187, 187, 4, 0, 0, 0,
    ]);
    assert_eq!(b0.as_ref(), b1.as_ref());

    let mut de = Deserializer::new(&mut b1);
    assert_eq!(de.deserialize_i32().expect("failed to deserealize data"), 3);
    assert_eq!(de.deserialize_string().expect("failed to deserealize data"), "hello");
    assert_eq!(de.deserialize_u32().expect("failed to deserealize data"), 0xbbbbbbbb);
    assert_eq!(de.deserialize_u32().expect("failed to deserealize data"), 4);
}

#[test]
fn integers_round_trip() {
    let mut b = SerializedBuffer::new_with_size(32);
    b.write_i32(-2).unwrap();
    b.write_i64(-3_000_000_000).unwrap();
    b.write_u64(u64::MAX).unwrap();
    b.write_bool(true).unwrap();
    b.write_u8(200).unwrap();
    b.write_i8(-5).unwrap();
    b.flip();
    assert_eq!(b.read_i32().unwrap(), -2);
    assert_eq!(b.read_i64().unwrap(), -3_000_000_000);
    assert_eq!(b.read_u64().unwrap(), u64::MAX);
    assert_eq!(b.read_bool().unwrap(), true);
    assert_eq!(b.read_u8().unwrap(), 200);
    assert_eq!(b.read_i8().unwrap(), -5);
    assert!(!b.has_remaining());
}

#[test]
fn little_endian_layout() {
    let mut b = SerializedBuffer::new_with_size(4);
    b.write_u32(0x01020304).unwrap();
    assert_eq!(b.storage(), &[4, 3, 2, 1]);
}

#[test]
fn write_past_limit_fails_and_keeps_buffer() {
    let mut b = SerializedBuffer::new_with_size(3);
    let r = b.write_i32(7);
    assert!(matches!(r.unwrap_err().kind(), SerializationError::I32Error));
    assert_eq!(b.position(), 0);
    assert_eq!(b.storage(), &[0, 0, 0]);
}

#[test]
fn read_past_limit_fails() {
    let mut b = SerializedBuffer::from_slice(&[1, 2, 3]);
    assert!(matches!(b.read_i32().unwrap_err().kind(), SerializationError::I32Error));
    assert_eq!(b.position(), 0);
}

#[test]
fn byte_arrays_round_trip_with_padding() {
    for len in [0usize, 1, 3, 4, 253, 254, 300] {
        let data: Vec<u8> = (0..len).map(|i| (i % 251) as u8).collect();
        let mut b = SerializedBuffer::new_with_size(len + 8);
        b.write_byte_array(&data).unwrap();
        assert_eq!(b.position() % 4, 0);
        b.flip();
        assert_eq!(b.read_byte_array().unwrap(), data);
        assert!(!b.has_remaining());
    }
}

#[test]
fn long_array_header() {
    let data = vec![9u8; 254];
    let mut b = SerializedBuffer::new_with_size(260);
    b.write_byte_array(&data).unwrap();
    let s = b.storage();
    assert_eq!(&s[..4], &[254, 254, 0, 0]);
    assert_eq!(b.position(), 260);
}

#[test]
fn calculating_buffer_counts_bytes() {
    let mut b = SerializedBuffer::new(true);
    b.write_i64(1).unwrap();
    b.write_byte_array(&[1, 2, 3]).unwrap();
    assert!(b.is_calculating());
    assert_eq!(b.capacity(), 8 + 4);
    assert_eq!(b.position(), 0);
}

#[test]
fn size_hints() {
    assert_eq!(size_hint_from_byte_seq_len(3).unwrap(), 4);
    assert_eq!(size_hint_from_byte_seq_len(253).unwrap(), 256);
    assert_eq!(size_hint_from_byte_seq_len(254).unwrap(), 260);
    assert!(size_hint_from_byte_seq_len(0x100_0000).is_err());
    assert!(check_seq_len(10).is_ok());
}

#[test]
fn error_kinds_map_to_io_kinds() {
    assert!(matches!(Error::new(SerializationError::WrongSVUID).io_kind(), IoErrorKind::NotFound));
    assert!(matches!(Error::new(SerializationError::LimitExceeded).io_kind(), IoErrorKind::UnexpectedEof));
    assert!(matches!(Error::new(SerializationError::I32Error).io_kind(), IoErrorKind::InvalidInput));
    let m = SerializationError::Message("boom".to_string());
    assert_eq!(m.description(), "boom");
}

#[test]
fn measuring_counts_what_writing_occupies() {
    let mut c = SerializedBuffer::new(true);
    let mut w = SerializedBuffer::new_with_size(64);
    for b in [&mut c, &mut w] {
        b.write_u8(7).unwrap();
        b.write_i32(-5).unwrap();
        b.write_bool(true).unwrap();
        b.skip(3);
        b.write_string("hello").unwrap();
        b.write_byte_array(&[1, 2, 3]).unwrap();
        b.write_i64(9).unwrap();
        b.write_bytes(&[4, 5]).unwrap();
    }
    assert_eq!(c.position(), 0);
    assert_eq!(c.capacity(), w.position());
    assert_eq!(w.position(), 1 + 4 + 4 + 3 + 8 + 4 + 8 + 2);
}

#[test]
fn tuple_size_hints_add_up() {
    assert_eq!((-50i32, 0xffff_ffff_ffff_ffffu64).size_hint().unwrap(), 12);
    assert_eq!((-50i8, 0xffff_ffff_ffff_ffffu64).size_hint().unwrap(), 12);
    assert_eq!((true,).size_hint().unwrap(), 4);
    assert_eq!((1u8, 2u32, "John Smith".to_string()).size_hint().unwrap(), 1 + 4 + 12);
    // the documented example: "John Smith", 2000u16, four raw bytes, (-50i8, u64::MAX)
    assert_eq!(("John Smith".to_string(), 2000u16, vec![0xf4u8, 0x58, 0x2e, 0x33], (-50i8, 0xffff_ffff_ffff_ffffu64)).size_hint().unwrap(), 36);
}

#[test]
fn to_buffer_measures_then_fills_exactly() {
    let calls = vec![
        WriteCall::I32(3),
        WriteCall::Str("hello".to_string()),
        WriteCall::U32(0xbbbbbbbb),
        WriteCall::Skip(2),
        WriteCall::ByteArray(vec![7, 8]),
        WriteCall::U8(9),
    ];
    let b = to_buffer(&calls).unwrap();
    assert_eq!(b.position(), 0);
    assert_eq!(b.limit(), 4 + 8 + 4 + 2 + 4 + 1);
    assert_eq!(
        b.buffer,
        vec![3, 0, 0, 0, 5, b'h', b'e', b'l', b'l', b'o', 0, 0, 0xbb, 0xbb, 0xbb, 0xbb, 0, 0, 2, 7, 8, 0, 9]
    );
    let mut c = SerializedBuffer::new(true);
    c.write_calls(&calls).unwrap();
    assert_eq!(c.capacity(), b.limit());
    assert_eq!(c.position(), 0);
}
