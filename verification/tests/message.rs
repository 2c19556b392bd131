use rusty_thermostat::device::DeviceId;
use rusty_thermostat::error::{FrameError, SerialError};
use rusty_thermostat::message::{
    decrypt_message, encrypt_message, generate_hmac, open, seal, verify_hmac, Command, SerialCmd,
    SerialMsg,
};
use rusty_thermostat::reading::SerialReading;

const SAMPLE: u128 = 0x0f3832c6201547c9a296962fd94b3e38;
const KEY: [u8; 32] = *b"0f3832c6201547c9a296962fd94b3e38";
const IV: [u8; 16] = [0, 1, 2, 3, 4, 5, 6, 7, 8, 9, 10, 11, 12, 13, 14, 15];
const PLAINTEXT: &str = "0f3832c6201547c9a296962fd94b3e38#A#A#A#FALSE#A\n";
const CIPHERTEXT: [u8; 48] = [
    83, 98, 121, 200, 193, 234, 119, 218, 45, 95, 219, 89, 107, 194, 112, 62, 208, 51, 48, 120,
    17, 51, 134, 10, 108, 61, 225, 15, 7, 140, 86, 68, 113, 122, 249, 241, 120, 154, 66, 49, 30,
    252, 103, 215, 189, 117, 141, 109,
];
const TAG: [u8; 32] = [
    18, 160, 70, 164, 204, 31, 84, 4, 96, 152, 251, 121, 211, 193, 104, 232, 125, 90, 120, 45, 10,
    161, 113, 20, 216, 100, 0, 210, 59, 130, 28, 187,
];

fn sample() -> DeviceId {
    DeviceId::from_u128(SAMPLE)
}

fn frame() -> Vec<u8> {
    let mut bytes = IV.to_vec();
    bytes.extend_from_slice(&CIPHERTEXT);
    bytes.extend_from_slice(&TAG);
    bytes
}

#[test]
fn seal_matches_a_known_frame() {
    assert_eq!(seal(&KEY, &IV, PLAINTEXT.as_bytes()), Ok(frame()));
}

#[test]
fn open_gives_the_text_back() {
    assert_eq!(open(&KEY, &frame()), Ok(PLAINTEXT.to_string()));
}

#[test]
fn open_reports_the_first_failed_check() {
    assert_eq!(open(&KEY, &frame()[..63]), Err(SerialError::Framing));
    assert_eq!(open(&KEY, &frame()[..95]), Err(SerialError::Framing));
    let mut wrong_tag = frame();
    wrong_tag[95] ^= 1;
    assert_eq!(open(&KEY, &wrong_tag), Err(SerialError::Auth));
    let mut other_key = KEY;
    other_key[31] = b'9';
    assert_eq!(open(&other_key, &frame()), Err(SerialError::Auth));
}

#[test]
fn open_refuses_what_is_no_text_after_a_good_tag() {
    let sealed = seal(&KEY, &IV, &[0xff, 0xfe, 0xfd]).unwrap();
    assert_eq!(open(&KEY, &sealed), Err(SerialError::Decrypt));
}

#[test]
fn open_refuses_bad_padding_after_a_good_tag() {
    let key = sample();
    let garbled: Vec<u8> = (0..32u8).collect();
    let tag = generate_hmac(key, &garbled).unwrap();
    let mut bytes = IV.to_vec();
    bytes.extend_from_slice(&garbled);
    bytes.extend_from_slice(&tag);
    match open(&KEY, &bytes) {
        Err(SerialError::Decrypt) => {}
        Ok(text) => assert!(text.len() < 32),
        Err(other) => panic!("{:?}", other),
    }
}

#[test]
fn tampering_with_any_bit_of_ciphertext_or_tag_is_detected() {
    let good = frame();
    for index in 16..good.len() {
        for bit in 0..8 {
            let mut tampered = good.clone();
            tampered[index] ^= 1 << bit;
            assert_eq!(open(&KEY, &tampered), Err(SerialError::Auth));
            let msg = SerialMsg::new(&sample(), tampered).unwrap();
            assert!(!msg.payload_decrypted());
            assert_eq!(msg.get_decrypted_payload(), None);
        }
    }
}

#[test]
fn keyed_by_device_functions_match_the_vectors() {
    let text = PLAINTEXT.to_string();
    assert_eq!(encrypt_message(sample(), IV, &text), CIPHERTEXT.to_vec());
    assert_eq!(decrypt_message(sample(), IV, &CIPHERTEXT.to_vec()), Ok(text));
    assert_eq!(generate_hmac(sample(), &CIPHERTEXT.to_vec()), Ok(TAG));
    assert!(verify_hmac(sample(), &CIPHERTEXT.to_vec(), TAG));
    assert!(!verify_hmac(DeviceId::from_u128(1), &CIPHERTEXT.to_vec(), TAG));
    assert_eq!(
        decrypt_message(sample(), IV, &CIPHERTEXT[..40].to_vec()),
        Err(SerialError::Decrypt)
    );
}

#[test]
fn command_texts_have_six_fields() {
    assert_eq!(Command::SetDelay(1000).text(), "SET#delay#1000###");
    assert_eq!(Command::SetDelay(0).text(), "SET#delay#0###");
    assert_eq!(Command::SetDelay(u32::MAX).text(), "SET#delay#4294967295###");
    assert_eq!(Command::SetActive(true).text(), "SET#active#TRUE###");
    assert_eq!(Command::SetActive(false).text(), "SET#active#FALSE###");
    for command in [Command::SetDelay(5), Command::SetActive(true)] {
        assert_eq!(command.text().split('#').count(), 6);
    }
}

#[test]
fn command_round_trip_through_a_frame() {
    let cmd = SerialCmd::new(sample(), Some(IV), PLAINTEXT.to_string());
    assert_eq!(cmd.destination, sample());
    assert_eq!(cmd.iv, IV);
    assert_eq!(cmd.build_msg(), Ok(frame()));
    let set = SerialCmd::for_command(sample(), Some(IV), Command::SetDelay(250));
    assert_eq!(set.command, "SET#delay#250###");
    let bytes = set.build_msg().unwrap();
    assert_eq!(bytes.len(), 16 + 32 + 32);
    assert_eq!(open(&KEY, &bytes), Ok("SET#delay#250###".to_string()));
}

#[test]
fn command_without_a_vector_draws_one() {
    let a = SerialCmd::new(sample(), None, "x".to_string());
    let b = SerialCmd::new(sample(), None, "x".to_string());
    let c = SerialCmd::new(sample(), None, "x".to_string());
    assert!(a.iv != b.iv || b.iv != c.iv);
    let bytes = a.build_msg().unwrap();
    assert_eq!(bytes[..16], a.iv);
    assert_eq!(open(&KEY, &bytes), Ok("x".to_string()));
}

#[test]
fn received_frame_is_taken_apart_and_opened() {
    let msg = SerialMsg::new(&sample(), frame()).unwrap();
    assert_eq!(msg.get_org_msg(), frame());
    assert_eq!(msg.get_iv(), Some(IV));
    assert_eq!(msg.get_payload(), Some(CIPHERTEXT.to_vec()));
    assert_eq!(msg.get_hmac(), Some(TAG));
    assert!(msg.payload_decrypted());
    assert_eq!(msg.get_decrypted_payload(), Some(PLAINTEXT.to_string()));
    assert!(msg.verify_payload(&sample()));
    assert!(msg.verify_decryption(&sample()));
    assert!(!msg.verify_payload(&DeviceId::from_u128(2)));
    assert!(!msg.verify_decryption(&DeviceId::from_u128(2)));
}

#[test]
fn received_frame_must_have_the_shape_of_a_frame() {
    assert!(matches!(SerialMsg::new(&sample(), vec![0u8; 50]), Err(FrameError::TooShort)));
    assert!(matches!(SerialMsg::new(&sample(), vec![0u8; 63]), Err(FrameError::TooShort)));
    assert!(matches!(SerialMsg::new(&sample(), vec![0u8; 70]), Err(FrameError::BadAlignment)));
}

#[test]
fn frame_under_another_key_is_kept_without_plaintext() {
    let msg = SerialMsg::new(&DeviceId::from_u128(2), frame()).unwrap();
    assert_eq!(msg.get_iv(), Some(IV));
    assert!(!msg.payload_decrypted());
    assert_eq!(msg.get_decrypted_payload(), None);
    assert!(msg.verify_payload(&sample()));
    assert!(!msg.verify_decryption(&sample()));
    assert_eq!(msg.generate_serial_reading(&sample()), Err(SerialError::Decrypt));
    assert_eq!(
        msg.generate_serial_reading(&DeviceId::from_u128(2)),
        Err(SerialError::Auth)
    );
}

#[test]
fn reading_from_a_received_frame() {
    let msg = SerialMsg::new(&sample(), frame()).unwrap();
    let mut expected = SerialReading::new(sample());
    expected.presence = Some(false);
    assert_eq!(msg.generate_serial_reading(&sample()), Ok(expected));
}

#[test]
fn reading_errors_from_received_frames() {
    let other = DeviceId::from_u128(0xabc);
    let from_other = SerialCmd::new(sample(), Some(IV), "00000000000000000000000000000abc#1#A#A#A#A".to_string())
        .build_msg()
        .unwrap();
    let msg = SerialMsg::new(&sample(), from_other).unwrap();
    assert!(msg.payload_decrypted());
    assert_eq!(msg.generate_serial_reading(&sample()), Err(SerialError::Protocol));
    assert_eq!(msg.generate_serial_reading(&other), Err(SerialError::Auth));

    let short = SerialCmd::new(sample(), Some(IV), "0f3832c6201547c9a296962fd94b3e38#1#A".to_string())
        .build_msg()
        .unwrap();
    let msg = SerialMsg::new(&sample(), short).unwrap();
    assert_eq!(msg.generate_serial_reading(&sample()), Err(SerialError::Shape));

    let bad_field = SerialCmd::new(sample(), Some(IV), "0f3832c6201547c9a296962fd94b3e38#1#A#A#A#maybe".to_string())
        .build_msg()
        .unwrap();
    let msg = SerialMsg::new(&sample(), bad_field).unwrap();
    assert_eq!(msg.generate_serial_reading(&sample()), Err(SerialError::Field));

    let long_id = SerialCmd::new(sample(), Some(IV), "0f3832c6201547c9a296962fd94b3e38f#1#A#A#A#A".to_string())
        .build_msg()
        .unwrap();
    let msg = SerialMsg::new(&sample(), long_id).unwrap();
    assert!(msg.verify_decryption(&sample()));
    assert_eq!(msg.generate_serial_reading(&sample()), Err(SerialError::Protocol));
}
