use bytes::BytesMut;
use rusty_thermostat::codec::{LengthCodec, LineCodec};
use rusty_thermostat::error::SerialError;

#[test]
fn line_decode_waits_for_the_line_feed() {
    let mut codec = LineCodec;
    let mut buffer = BytesMut::from(&b"0000#TRUE"[..]);
    assert_eq!(codec.decode(&mut buffer), None);
    assert_eq!(&buffer[..], b"0000#TRUE");
    buffer.extend_from_slice(b"#FALSE\nnext");
    assert_eq!(codec.decode(&mut buffer), Some(b"0000#TRUE#FALSE\n".to_vec()));
    assert_eq!(&buffer[..], b"next");
    assert_eq!(codec.decode(&mut buffer), None);
}

#[test]
fn line_decode_takes_one_line_at_a_time() {
    let mut codec = LineCodec;
    let mut buffer = BytesMut::from(&b"a\n\nbc\n"[..]);
    assert_eq!(codec.decode(&mut buffer), Some(b"a\n".to_vec()));
    assert_eq!(codec.decode(&mut buffer), Some(b"\n".to_vec()));
    assert_eq!(codec.decode(&mut buffer), Some(b"bc\n".to_vec()));
    assert_eq!(codec.decode(&mut buffer), None);
    assert!(buffer.is_empty());
}

#[test]
fn line_decode_of_an_empty_buffer_is_incomplete() {
    let mut codec = LineCodec;
    let mut buffer = BytesMut::new();
    assert_eq!(codec.decode(&mut buffer), None);
}

#[test]
fn line_encode_writes_the_bytes_as_they_are() {
    let mut codec = LineCodec;
    let mut buffer = BytesMut::from(&b"ab"[..]);
    codec.encode(b"cd\n".to_vec(), &mut buffer);
    assert_eq!(&buffer[..], b"abcd\n");
    codec.encode(Vec::new(), &mut buffer);
    assert_eq!(&buffer[..], b"abcd\n");
}

#[test]
fn length_codec_round_trip_with_line_feeds_inside() {
    let mut codec = LengthCodec;
    let mut buffer = BytesMut::new();
    let message = vec![10u8, 0, 10, 255, 10];
    assert_eq!(codec.encode(message.clone(), &mut buffer), Ok(()));
    assert_eq!(&buffer[..], &[5u8, 0, 10, 0, 10, 255, 10][..]);
    assert_eq!(codec.encode(vec![7u8; 300], &mut buffer), Ok(()));
    assert_eq!(codec.decode(&mut buffer), Some(message));
    assert_eq!(buffer[0], 44);
    assert_eq!(buffer[1], 1);
    assert_eq!(codec.decode(&mut buffer), Some(vec![7u8; 300]));
    assert_eq!(codec.decode(&mut buffer), None);
}

#[test]
fn length_decode_waits_for_the_whole_message() {
    let mut codec = LengthCodec;
    let mut buffer = BytesMut::new();
    assert_eq!(codec.decode(&mut buffer), None);
    buffer.extend_from_slice(&[3]);
    assert_eq!(codec.decode(&mut buffer), None);
    buffer.extend_from_slice(&[0, 1, 2]);
    assert_eq!(codec.decode(&mut buffer), None);
    assert_eq!(&buffer[..], &[3u8, 0, 1, 2][..]);
    buffer.extend_from_slice(&[3, 9]);
    assert_eq!(codec.decode(&mut buffer), Some(vec![1, 2, 3]));
    assert_eq!(&buffer[..], &[9u8][..]);
}

#[test]
fn length_decode_of_an_empty_message() {
    let mut codec = LengthCodec;
    let mut buffer = BytesMut::from(&[0u8, 0, 1][..]);
    assert_eq!(codec.decode(&mut buffer), Some(Vec::new()));
    assert_eq!(&buffer[..], &[1u8][..]);
}

#[test]
fn length_encode_refuses_what_has_no_two_byte_length() {
    let mut codec = LengthCodec;
    let mut buffer = BytesMut::from(&b"x"[..]);
    assert_eq!(codec.encode(vec![0u8; 65536], &mut buffer), Err(SerialError::Framing));
    assert_eq!(&buffer[..], b"x");
    assert_eq!(codec.encode(vec![0u8; 65535], &mut buffer), Ok(()));
    assert_eq!(buffer.len(), 1 + 2 + 65535);
    assert_eq!(buffer[1], 255);
    assert_eq!(buffer[2], 255);
}
