use rusty_thermostat::crypto::{decrypt, digest_of, encrypt, fresh_iv, mac, pad, unpad, verify};

const KEY: [u8; 32] = *b"0f3832c6201547c9a296962fd94b3e38";
const IV: [u8; 16] = [0, 1, 2, 3, 4, 5, 6, 7, 8, 9, 10, 11, 12, 13, 14, 15];
const PLAINTEXT: &[u8] = b"0f3832c6201547c9a296962fd94b3e38#A#A#A#FALSE#A\n";
const CIPHERTEXT: [u8; 48] = [
    83, 98, 121, 200, 193, 234, 119, 218, 45, 95, 219, 89, 107, 194, 112, 62, 208, 51, 48, 120,
    17, 51, 134, 10, 108, 61, 225, 15, 7, 140, 86, 68, 113, 122, 249, 241, 120, 154, 66, 49, 30,
    252, 103, 215, 189, 117, 141, 109,
];
const TAG: [u8; 32] = [
    18, 160, 70, 164, 204, 31, 84, 4, 96, 152, 251, 121, 211, 193, 104, 232, 125, 90, 120, 45, 10,
    161, 113, 20, 216, 100, 0, 210, 59, 130, 28, 187,
];

#[test]
fn encrypt_then_decrypt_gives_plaintext_back() {
    let ciphertext = encrypt(&KEY, &IV, PLAINTEXT);
    assert_eq!(ciphertext.len(), 48);
    assert_ne!(&ciphertext[..], PLAINTEXT);
    assert_eq!(decrypt(&KEY, &IV, &ciphertext), Some(PLAINTEXT.to_vec()));
    let tag = mac(&KEY, &ciphertext).unwrap();
    assert!(verify(&KEY, &ciphertext, &tag));
}

#[test]
fn encrypt_matches_a_known_ciphertext() {
    assert_eq!(encrypt(&KEY, &IV, PLAINTEXT), CIPHERTEXT.to_vec());
    assert_eq!(decrypt(&KEY, &IV, &CIPHERTEXT), Some(PLAINTEXT.to_vec()));
}

#[test]
fn empty_plaintext_is_one_block_of_padding() {
    let ciphertext = encrypt(&KEY, &IV, b"");
    assert_eq!(
        ciphertext,
        vec![68, 58, 20, 51, 133, 217, 80, 232, 109, 88, 83, 84, 216, 107, 159, 213]
    );
    assert_eq!(decrypt(&KEY, &IV, &ciphertext), Some(Vec::new()));
}

#[test]
fn whole_block_gets_a_block_of_padding() {
    let ciphertext = encrypt(&KEY, &IV, b"0123456789abcdef");
    assert_eq!(ciphertext.len(), 32);
    assert_eq!(
        ciphertext,
        vec![
            31, 101, 239, 4, 9, 44, 82, 55, 222, 227, 72, 226, 93, 117, 100, 42, 49, 145, 150, 71,
            210, 238, 15, 79, 85, 20, 142, 110, 123, 39, 135, 219
        ]
    );
}

#[test]
fn round_trip_for_every_length_up_to_4096() {
    let mut plaintext: Vec<u8> = Vec::new();
    for n in 0..=4096usize {
        if n % 97 == 0 || n < 40 || n > 4090 {
            let ciphertext = encrypt(&KEY, &IV, &plaintext);
            assert_eq!(ciphertext.len(), n + 16 - n % 16);
            assert_eq!(decrypt(&KEY, &IV, &ciphertext), Some(plaintext.clone()));
        }
        plaintext.push((n * 31 % 251) as u8);
    }
}

#[test]
fn different_vectors_give_different_ciphertexts() {
    let mut other = IV;
    other[15] ^= 1;
    let a = encrypt(&KEY, &IV, PLAINTEXT);
    let b = encrypt(&KEY, &other, PLAINTEXT);
    assert_ne!(a, b);
    assert_ne!(a[..16], b[..16]);
    assert_ne!(decrypt(&KEY, &other, &a), Some(PLAINTEXT.to_vec()));
}

#[test]
fn decrypt_refuses_what_is_no_whole_block() {
    assert_eq!(decrypt(&KEY, &IV, &[]), None);
    assert_eq!(decrypt(&KEY, &IV, &CIPHERTEXT[..47]), None);
    assert_eq!(decrypt(&KEY, &IV, &CIPHERTEXT[..17]), None);
}

#[test]
fn decrypt_refuses_bad_padding() {
    let mut found_failure = false;
    for flip in 0..=255u8 {
        let mut tampered = CIPHERTEXT;
        tampered[31] ^= flip;
        match decrypt(&KEY, &IV, &tampered) {
            None => found_failure = true,
            Some(plaintext) => assert!(plaintext.len() < 48),
        }
    }
    assert!(found_failure);
}

#[test]
fn pad_appends_the_count() {
    assert_eq!(pad(b""), vec![16u8; 16]);
    assert_eq!(pad(b"abc"), {
        let mut v = b"abc".to_vec();
        v.extend_from_slice(&[13u8; 13]);
        v
    });
    assert_eq!(pad(&[7u8; 15]), {
        let mut v = vec![7u8; 15];
        v.push(1);
        v
    });
    assert_eq!(pad(&[7u8; 16]).len(), 32);
    assert_eq!(pad(&[7u8; 16])[16..], [16u8; 16]);
}

#[test]
fn unpad_takes_valid_padding_off() {
    assert_eq!(unpad(&pad(b"abc")), Some(b"abc".to_vec()));
    assert_eq!(unpad(&[16u8; 16]), Some(Vec::new()));
    let mut one = vec![9u8; 15];
    one.push(1);
    assert_eq!(unpad(&one), Some(vec![9u8; 15]));
}

#[test]
fn unpad_refuses_invalid_padding() {
    assert_eq!(unpad(&[]), None);
    assert_eq!(unpad(&[1u8; 15]), None);
    assert_eq!(unpad(&[0u8; 16]), None);
    assert_eq!(unpad(&[17u8; 32]), None);
    let mut mixed = vec![3u8; 16];
    mixed[13] = 2;
    assert_eq!(unpad(&mixed), None);
    let mut two = vec![5u8; 16];
    two[15] = 2;
    assert_eq!(unpad(&two), None);
    two[14] = 2;
    assert_eq!(unpad(&two), Some(vec![5u8; 14]));
}

#[test]
fn mac_matches_a_known_tag() {
    assert_eq!(mac(&KEY, &CIPHERTEXT), Ok(TAG));
    assert!(verify(&KEY, &CIPHERTEXT, &TAG));
}

#[test]
fn verify_refuses_every_single_bit_flip_of_the_tag() {
    for byte in 0..32 {
        for bit in 0..8 {
            let mut tampered = TAG;
            tampered[byte] ^= 1 << bit;
            assert!(!verify(&KEY, &CIPHERTEXT, &tampered));
        }
    }
}

#[test]
fn verify_refuses_every_single_bit_flip_of_the_ciphertext() {
    for byte in 0..48 {
        for bit in 0..8 {
            let mut tampered = CIPHERTEXT;
            tampered[byte] ^= 1 << bit;
            assert!(!verify(&KEY, &tampered, &TAG));
        }
    }
}

#[test]
fn verify_refuses_another_key() {
    let mut other = KEY;
    other[0] = b'1';
    assert!(!verify(&other, &CIPHERTEXT, &TAG));
}

#[test]
fn digest_matches_a_known_value() {
    assert_eq!(
        digest_of(b"abc"),
        [
            186, 120, 22, 191, 143, 1, 207, 234, 65, 65, 64, 222, 93, 174, 34, 35, 176, 3, 97,
            163, 150, 23, 122, 156, 180, 16, 255, 97, 242, 0, 21, 173
        ]
    );
}

#[test]
fn fresh_vectors_differ() {
    let a = fresh_iv();
    let b = fresh_iv();
    let c = fresh_iv();
    assert!(a != b || b != c);
}
