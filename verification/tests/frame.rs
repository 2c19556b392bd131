use rusty_thermostat::error::FrameError;
use rusty_thermostat::frame::Frame;

#[test]
fn parse_refuses_short_input() {
    assert_eq!(Frame::parse(&[]), Err(FrameError::TooShort));
    assert_eq!(Frame::parse(&[0u8; 49]), Err(FrameError::TooShort));
    assert_eq!(Frame::parse(&[0u8; 63]), Err(FrameError::TooShort));
}

#[test]
fn parse_refuses_misaligned_input() {
    assert_eq!(Frame::parse(&[0u8; 65]), Err(FrameError::BadAlignment));
    assert_eq!(Frame::parse(&[0u8; 79]), Err(FrameError::BadAlignment));
    assert_eq!(Frame::parse(&[0u8; 81]), Err(FrameError::BadAlignment));
}

#[test]
fn parse_slices_vector_ciphertext_and_tag() {
    let bytes: Vec<u8> = (0..80u8).collect();
    let frame = Frame::parse(&bytes).unwrap();
    assert_eq!(frame.iv.to_vec(), (0..16u8).collect::<Vec<u8>>());
    assert_eq!(frame.ciphertext, (16..48u8).collect::<Vec<u8>>());
    assert_eq!(frame.mac.to_vec(), (48..80u8).collect::<Vec<u8>>());
    assert_eq!(frame.to_bytes(), bytes);
}

#[test]
fn shortest_frame_has_one_block() {
    let frame = Frame::parse(&[9u8; 64]).unwrap();
    assert_eq!(frame.ciphertext.len(), 16);
}

#[test]
fn build_puts_the_parts_in_order() {
    let iv = [1u8; 16];
    let ciphertext = [2u8; 32];
    let mac = [3u8; 32];
    let bytes = Frame::build(&iv, &ciphertext, &mac);
    assert_eq!(bytes.len(), 80);
    assert_eq!(bytes[..16], iv);
    assert_eq!(bytes[16..48], ciphertext);
    assert_eq!(bytes[48..], mac);
    assert_eq!(
        Frame::parse(&bytes),
        Ok(Frame { iv, ciphertext: ciphertext.to_vec(), mac })
    );
}
