use bytes::BytesMut;
use iridium::protocol::property::Property;
use iridium::protocol::serial::{PacketError, PacketRead, PacketWrite};
use iridium::protocol::var_int::VarInt;

fn written<T: PacketWrite>(value: &T) -> Vec<u8> {
    let mut buffer = BytesMut::new();
    value.write(&mut buffer).unwrap();
    buffer.to_vec()
}

fn buffer_of(bytes: &[u8]) -> BytesMut {
    BytesMut::from(bytes)
}

#[test]
fn var_int_known_encodings() {
    assert_eq!(written(&VarInt(0)), vec![0x00]);
    assert_eq!(written(&VarInt(1)), vec![0x01]);
    assert_eq!(written(&VarInt(127)), vec![0x7f]);
    assert_eq!(written(&VarInt(128)), vec![0x80, 0x01]);
    assert_eq!(written(&VarInt(255)), vec![0xff, 0x01]);
    assert_eq!(written(&VarInt(758)), vec![0xf6, 0x05]);
    assert_eq!(written(&VarInt(25565)), vec![0xdd, 0xc7, 0x01]);
    assert_eq!(written(&VarInt(2097151)), vec![0xff, 0xff, 0x7f]);
    assert_eq!(written(&VarInt(i32::MAX)), vec![0xff, 0xff, 0xff, 0xff, 0x07]);
    assert_eq!(written(&VarInt(-1)), vec![0xff, 0xff, 0xff, 0xff, 0x0f]);
    assert_eq!(written(&VarInt(i32::MIN)), vec![0x80, 0x80, 0x80, 0x80, 0x08]);
}

#[test]
fn var_int_round_trip() {
    for v in [0, 1, -1, 127, 128, 300, 16383, 16384, 2097151, 2097152, i32::MAX, i32::MIN, -12345] {
        let mut buffer = BytesMut::new();
        VarInt(v).write(&mut buffer).unwrap();
        buffer.extend_from_slice(&[0xaa, 0xbb]);
        assert_eq!(VarInt::read(&mut buffer), Ok(VarInt(v)));
        assert_eq!(&buffer[..], &[0xaa, 0xbb]);
    }
}

#[test]
fn var_int_wire_len_matches_encoding() {
    for v in [0, 127, 128, 16383, 16384, 2097151, 2097152, 268435455, 268435456, -1] {
        assert_eq!(VarInt(v).wire_len(), written(&VarInt(v)).len());
    }
}

#[test]
fn var_int_empty_is_incomplete() {
    let mut buffer = BytesMut::new();
    assert_eq!(VarInt::read(&mut buffer), Err(PacketError::Incomplete));
}

#[test]
fn var_int_short_input_is_incomplete_and_keeps_buffer() {
    let mut buffer = buffer_of(&[0xff, 0xff, 0xff]);
    assert_eq!(VarInt::read(&mut buffer), Err(PacketError::Incomplete));
    assert_eq!(&buffer[..], &[0xff, 0xff, 0xff]);
}

#[test]
fn var_int_six_bytes_is_malformed() {
    let mut buffer = buffer_of(&[0xff, 0xff, 0xff, 0xff, 0xff, 0xff]);
    let error = VarInt::read(&mut buffer).unwrap_err();
    assert_eq!(error, PacketError::VarIntTooBig);
    assert!(error.is_malformed());
    assert!(!error.is_recoverable());
    assert_eq!(buffer.len(), 6);
}

#[test]
fn var_int_five_continuation_bytes_alone_are_malformed() {
    let mut buffer = buffer_of(&[0x80, 0x80, 0x80, 0x80, 0x80]);
    assert_eq!(VarInt::read(&mut buffer), Err(PacketError::VarIntTooBig));
}

#[test]
fn var_int_ignores_bits_beyond_thirty_two() {
    let mut buffer = buffer_of(&[0xff, 0xff, 0xff, 0xff, 0x7f]);
    assert_eq!(VarInt::read(&mut buffer), Ok(VarInt(-1)));
    assert!(buffer.is_empty());
}

#[test]
fn var_int_peek_consumes_nothing() {
    let data = [0xf6, 0x05, 0x09];
    assert_eq!(VarInt::peek(&data), Ok((VarInt(758), 2)));
    assert_eq!(VarInt::peek(&[0x80]), Err(PacketError::Incomplete));
}

#[test]
fn var_int_decode_from_the_middle() {
    let data = [0x00, 0xdd, 0xc7, 0x01, 0x02];
    assert_eq!(VarInt::decode(&data, 1), Ok((VarInt(25565), 4)));
}

#[test]
fn unsigned_integers_are_big_endian() {
    assert_eq!(written(&0xabu8), vec![0xab]);
    assert_eq!(written(&25565u16), vec![0x63, 0xdd]);
    assert_eq!(written(&0x01020304u32), vec![1, 2, 3, 4]);
    assert_eq!(written(&0x0102030405060708u64), vec![1, 2, 3, 4, 5, 6, 7, 8]);
    assert_eq!(
        written(&0x0102030405060708090a0b0c0d0e0f10u128),
        vec![1, 2, 3, 4, 5, 6, 7, 8, 9, 10, 11, 12, 13, 14, 15, 16]
    );
}

#[test]
fn signed_integers_are_twos_complement() {
    assert_eq!(written(&-1i8), vec![0xff]);
    assert_eq!(written(&-2i16), vec![0xff, 0xfe]);
    assert_eq!(written(&-1i32), vec![0xff, 0xff, 0xff, 0xff]);
    assert_eq!(written(&42i64), vec![0, 0, 0, 0, 0, 0, 0, 42]);
    assert_eq!(written(&i64::MIN), vec![0x80, 0, 0, 0, 0, 0, 0, 0]);
}

#[test]
fn integers_agree_with_std_byte_order() {
    for v in [0u16, 1, 255, 256, 25565, u16::MAX] {
        assert_eq!(written(&v), v.to_be_bytes().to_vec());
    }
    for v in [0i32, 1, -1, i32::MIN, i32::MAX, 774] {
        assert_eq!(written(&v), v.to_be_bytes().to_vec());
    }
    for v in [0i64, 42, -42, i64::MIN, i64::MAX] {
        assert_eq!(written(&v), v.to_be_bytes().to_vec());
    }
    for v in [0u64, u64::MAX, 0x1234_5678_9abc_def0] {
        assert_eq!(written(&v), v.to_be_bytes().to_vec());
    }
}

#[test]
fn primitive_round_trips() {
    for v in [0u8, 1, 127, 128, 255] {
        assert_eq!(u8::read(&mut buffer_of(&written(&v))), Ok(v));
    }
    for v in [0u16, 1, 255, 256, 25565, u16::MAX] {
        assert_eq!(u16::read(&mut buffer_of(&written(&v))), Ok(v));
    }
    for v in [0u32, 1, 0xdead_beef, u32::MAX] {
        assert_eq!(u32::read(&mut buffer_of(&written(&v))), Ok(v));
    }
    for v in [0u64, 1, 0xdead_beef_0bad_f00d, u64::MAX] {
        assert_eq!(u64::read(&mut buffer_of(&written(&v))), Ok(v));
    }
    for v in [0u128, 1, u128::MAX, 0x0102030405060708090a0b0c0d0e0f10] {
        assert_eq!(u128::read(&mut buffer_of(&written(&v))), Ok(v));
    }
    for v in [0i8, 1, -1, i8::MIN, i8::MAX] {
        assert_eq!(i8::read(&mut buffer_of(&written(&v))), Ok(v));
    }
    for v in [0i16, 1, -1, i16::MIN, i16::MAX] {
        assert_eq!(i16::read(&mut buffer_of(&written(&v))), Ok(v));
    }
    for v in [0i32, 1, -1, i32::MIN, i32::MAX] {
        assert_eq!(i32::read(&mut buffer_of(&written(&v))), Ok(v));
    }
    for v in [0i64, 42, -1, i64::MIN, i64::MAX] {
        assert_eq!(i64::read(&mut buffer_of(&written(&v))), Ok(v));
    }
    for v in [true, false] {
        assert_eq!(bool::read(&mut buffer_of(&written(&v))), Ok(v));
    }
}

#[test]
fn bool_is_one_byte() {
    assert_eq!(written(&true), vec![1]);
    assert_eq!(written(&false), vec![0]);
    assert_eq!(bool::read(&mut buffer_of(&[7])), Ok(true));
}

#[test]
fn short_primitives_are_incomplete_and_keep_buffer() {
    let mut buffer = buffer_of(&[1, 2, 3]);
    assert_eq!(u32::read(&mut buffer), Err(PacketError::Incomplete));
    assert_eq!(i64::read(&mut buffer), Err(PacketError::Incomplete));
    assert_eq!(u128::read(&mut buffer), Err(PacketError::Incomplete));
    assert_eq!(&buffer[..], &[1, 2, 3]);
    let mut empty = BytesMut::new();
    assert_eq!(u8::read(&mut empty), Err(PacketError::Incomplete));
    assert_eq!(bool::read(&mut empty), Err(PacketError::Incomplete));
}

#[test]
fn string_is_length_prefixed_utf8() {
    assert_eq!(
        written(&"localhost".to_string()),
        vec![0x09, 0x6c, 0x6f, 0x63, 0x61, 0x6c, 0x68, 0x6f, 0x73, 0x74]
    );
    assert_eq!(written(&String::new()), vec![0x00]);
    assert_eq!(written(&"é".to_string()), vec![0x02, 0xc3, 0xa9]);
}

#[test]
fn string_round_trip() {
    for text in ["", "a", "localhost", "Olá Mundo!", "§c red", "日本語", "😀 emoji"] {
        let mut buffer = BytesMut::new();
        text.to_string().write(&mut buffer).unwrap();
        buffer.extend_from_slice(&[0x55]);
        assert_eq!(String::read(&mut buffer), Ok(text.to_string()));
        assert_eq!(&buffer[..], &[0x55]);
    }
}

#[test]
fn string_of_maximum_length_round_trips() {
    let text = "x".repeat(32767);
    let mut buffer = BytesMut::new();
    text.write(&mut buffer).unwrap();
    assert_eq!(buffer.len(), 3 + 32767);
    assert_eq!(String::read(&mut buffer), Ok(text));
}

#[test]
fn overlong_string_is_rejected_on_write() {
    let text = "x".repeat(32768);
    let mut buffer = BytesMut::new();
    buffer.extend_from_slice(&[9]);
    assert_eq!(text.write(&mut buffer), Err(PacketError::StringTooLong));
    assert_eq!(text.check(), Err(PacketError::StringTooLong));
    assert_eq!(&buffer[..], &[9]);
}

#[test]
fn overlong_string_is_rejected_on_read() {
    let mut buffer = BytesMut::new();
    VarInt(32768).write(&mut buffer).unwrap();
    buffer.extend_from_slice(&vec![b'x'; 32768]);
    let before = buffer.len();
    let error = String::read(&mut buffer).unwrap_err();
    assert_eq!(error, PacketError::StringTooLong);
    assert!(error.is_malformed());
    assert_eq!(buffer.len(), before);
}

#[test]
fn string_with_bad_utf8_is_rejected() {
    let mut buffer = buffer_of(&[0x02, 0xc3, 0x28]);
    let error = String::read(&mut buffer).unwrap_err();
    assert_eq!(error, PacketError::Utf8);
    assert!(error.is_malformed());
    assert_eq!(&buffer[..], &[0x02, 0xc3, 0x28]);
}

#[test]
fn string_with_missing_bytes_is_incomplete() {
    let mut buffer = buffer_of(&[0x05, b'a', b'b']);
    assert_eq!(String::read(&mut buffer), Err(PacketError::Incomplete));
    assert_eq!(&buffer[..], &[0x05, b'a', b'b']);
}

#[test]
fn string_with_negative_length_is_incomplete() {
    let mut buffer = buffer_of(&[0xff, 0xff, 0xff, 0xff, 0x0f, b'a']);
    assert_eq!(String::read(&mut buffer), Err(PacketError::Incomplete));
}

#[test]
fn option_has_presence_byte() {
    assert_eq!(written(&Some(7u8)), vec![1, 7]);
    assert_eq!(written(&None::<u8>), vec![0]);
    assert_eq!(written(&Some("hi".to_string())), vec![1, 2, b'h', b'i']);
    assert_eq!(Option::<u8>::read(&mut buffer_of(&[1, 7])), Ok(Some(7)));
    assert_eq!(Option::<u8>::read(&mut buffer_of(&[0, 7])), Ok(None));
    assert_eq!(Option::<u16>::read(&mut buffer_of(&[1, 7])), Err(PacketError::Incomplete));
    assert_eq!(Option::<u16>::read(&mut buffer_of(&[])), Err(PacketError::Incomplete));
}

#[test]
fn option_read_failure_keeps_buffer() {
    let mut buffer = buffer_of(&[1, 7]);
    assert_eq!(Option::<u16>::read(&mut buffer), Err(PacketError::Incomplete));
    assert_eq!(&buffer[..], &[1, 7]);
}

#[test]
fn vec_has_count_prefix() {
    assert_eq!(written(&vec![1u16, 2, 3]), vec![3, 0, 1, 0, 2, 0, 3]);
    assert_eq!(written(&Vec::<u16>::new()), vec![0]);
    assert_eq!(Vec::<u16>::read(&mut buffer_of(&[2, 0, 1, 0, 2, 9])), Ok(vec![1, 2]));
    assert_eq!(Vec::<u16>::read(&mut buffer_of(&[0])), Ok(vec![]));
}

#[test]
fn vec_of_strings_round_trips() {
    let list = vec!["a".to_string(), "".to_string(), "xyz".to_string()];
    let mut buffer = buffer_of(&written(&list));
    assert_eq!(Vec::<String>::read(&mut buffer), Ok(list));
    assert!(buffer.is_empty());
}

#[test]
fn vec_read_failure_keeps_buffer() {
    let mut buffer = buffer_of(&[3, 0, 1, 0, 2, 0]);
    assert_eq!(Vec::<u16>::read(&mut buffer), Err(PacketError::Incomplete));
    assert_eq!(&buffer[..], &[3, 0, 1, 0, 2, 0]);
}

#[test]
fn vec_with_negative_count_is_rejected() {
    let mut buffer = buffer_of(&[0xff, 0xff, 0xff, 0xff, 0x0f]);
    assert_eq!(Vec::<u8>::read(&mut buffer), Err(PacketError::BadLength));
}

#[test]
fn vec_with_unwritable_item_is_rejected_whole() {
    let list = vec!["ok".to_string(), "x".repeat(40000)];
    let mut buffer = BytesMut::new();
    assert_eq!(list.write(&mut buffer), Err(PacketError::StringTooLong));
    assert!(buffer.is_empty());
}

#[test]
fn size_is_the_number_of_bytes_written() {
    assert_eq!(7u8.size(), 1);
    assert_eq!(7i64.size(), 8);
    assert_eq!(7u128.size(), 16);
    assert_eq!("localhost".to_string().size(), 10);
    assert_eq!(Some(7u32).size(), 5);
    assert_eq!(vec![1u16, 2, 3].size(), 7);
}

#[test]
fn property_round_trips() {
    let property = Property {
        name: "textures".to_string(),
        value: "abc".to_string(),
        signature: Some("sig".to_string()),
    };
    let bytes = written(&property);
    assert_eq!(
        bytes,
        vec![8, b't', b'e', b'x', b't', b'u', b'r', b'e', b's', 3, b'a', b'b', b'c', 1, 3, b's', b'i', b'g']
    );
    let back = Property::read(&mut buffer_of(&bytes)).unwrap();
    assert_eq!(back.name, "textures");
    assert_eq!(back.value, "abc");
    assert_eq!(back.signature, Some("sig".to_string()));
}

#[test]
fn property_without_signature() {
    let property = Property { name: "n".to_string(), value: "v".to_string(), signature: None };
    assert_eq!(written(&property), vec![1, b'n', 1, b'v', 0]);
}
