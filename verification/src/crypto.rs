//! Authenticated confidentiality for frames: AES-256 in CBC mode with PKCS#7
//! padding, and HMAC-SHA256 over the ciphertext. The block cipher and the
//! hash functions come from outside crates; padding, the order of the checks
//! and the failure cases are decided here.

use crate::error::KeyRejected;
use hmac::Mac;
use rand::Rng;
use sha2::Digest;
use vstd::prelude::*;

verus! {

/// The ciphertext that AES-256 in CBC mode, without padding, gives for a
/// key, an initialisation vector and a whole number of sixteen-byte blocks.
pub uninterp spec fn aes256_cbc_encrypt(key: Seq<u8>, iv: Seq<u8>, blocks: Seq<u8>) -> Seq<u8>;

/// The blocks that AES-256 in CBC mode, without padding, recovers from a
/// ciphertext under a key and an initialisation vector.
pub uninterp spec fn aes256_cbc_decrypt(key: Seq<u8>, iv: Seq<u8>, blocks: Seq<u8>) -> Seq<u8>;

/// The HMAC-SHA256 tag of a message under a key.
pub uninterp spec fn hmac_sha256(key: Seq<u8>, message: Seq<u8>) -> Seq<u8>;

/// What `sha2` computes as the SHA-256 digest of a message.
pub uninterp spec fn sha256_bytes(message: Seq<u8>) -> Seq<u8>;

/// The SHA-256 digest of a message: thirty-two bytes.
pub open spec fn sha256(message: Seq<u8>) -> Seq<u8> {
    Seq::new(32, |i: int| sha256_bytes(message)[i])
}

#[verifier::external_type_specification]
#[verifier::external_body]
pub struct ExInvalidLength(hmac::digest::InvalidLength);

/// Encrypts with `libaes`: `Cipher::new_256`, automatic padding switched off,
/// then `Cipher::cbc_encrypt`. On whole blocks that call encrypts in place,
/// so the output is as long as the input, and `Cipher::cbc_decrypt` under the
/// same key and vector undoes it. The first plaintext block that decryption
/// yields is the deciphered first block combined bytewise with the vector by
/// exclusive or, so under any other vector it comes out different.
#[verifier::external_body]
fn aes_cbc_encrypt_blocks(key: &[u8; 32], iv: &[u8; 16], blocks: &[u8]) -> (out: Vec<u8>)
    requires
        blocks@.len() % 16 == 0,
    ensures
        out@ == aes256_cbc_encrypt(key@, iv@, blocks@),
        out@.len() == blocks@.len(),
        aes256_cbc_decrypt(key@, iv@, out@) == blocks@,
        forall|other: Seq<u8>|
            other.len() == 16 && other != iv@ && blocks@.len() > 0 ==> #[trigger] aes256_cbc_decrypt(
                key@,
                other,
                out@,
            ) != blocks@,
{
    let mut cipher = libaes::Cipher::new_256(key);
    cipher.set_auto_padding(false);
    cipher.cbc_encrypt(iv, blocks)
}

/// Decrypts with `libaes`: `Cipher::new_256`, automatic padding switched off,
/// then `Cipher::cbc_decrypt`, which on whole blocks returns as many bytes as
/// it was given.
#[verifier::external_body]
fn aes_cbc_decrypt_blocks(key: &[u8; 32], iv: &[u8; 16], blocks: &[u8]) -> (out: Vec<u8>)
    requires
        blocks@.len() % 16 == 0,
    ensures
        out@ == aes256_cbc_decrypt(key@, iv@, blocks@),
        out@.len() == blocks@.len(),
{
    let mut cipher = libaes::Cipher::new_256(key);
    cipher.set_auto_padding(false);
    cipher.cbc_decrypt(iv, blocks)
}

/// Computes a tag with `hmac`'s `Hmac<Sha256>`: `new_from_slice`, `update`,
/// `finalize`. The key set-up hashes keys that are longer than a block and
/// so takes a key of any length; the tag has thirty-two bytes.
#[verifier::external_body]
fn hmac_sha256_tag(key: &[u8], message: &[u8]) -> (tag: Result<
    [u8; 32],
    hmac::digest::InvalidLength,
>)
    ensures
        tag is Ok,
        tag->Ok_0@ == hmac_sha256(key@, message@),
{
    let mut mac = hmac::Hmac::<sha2::Sha256>::new_from_slice(key)?;
    mac.update(message);
    Ok(mac.finalize().into_bytes().into())
}

/// Checks a tag with `hmac`'s `Mac::verify_slice`, which refuses a tag of
/// another length than thirty-two and else compares it with the computed tag
/// in constant time.
#[verifier::external_body]
fn hmac_sha256_verify(key: &[u8], message: &[u8], tag: &[u8]) -> (valid: bool)
    ensures
        valid == (tag@ == hmac_sha256(key@, message@)),
{
    match hmac::Hmac::<sha2::Sha256>::new_from_slice(key) {
        Ok(mut mac) => {
            mac.update(message);
            mac.verify_slice(tag).is_ok()
        },
        Err(_) => false,
    }
}

/// Hashes with `sha2`'s `Sha256::digest`; the digest has thirty-two bytes.
#[verifier::external_body]
fn sha256_digest(message: &[u8]) -> (digest: [u8; 32])
    ensures
        digest@ == sha256_bytes(message@),
{
    sha2::Sha256::digest(message).into()
}

/// Draws sixteen bytes from `rand`'s thread-local generator. Nothing is
/// known of the outcome.
#[verifier::external_body]
fn random_block() -> (block: [u8; 16]) {
    rand::thread_rng().gen::<[u8; 16]>()
}

/// `data` followed by PKCS#7 padding up to the next multiple of sixteen
/// bytes: between one and sixteen bytes, each holding their number.
pub open spec fn pkcs7_pad(data: Seq<u8>) -> Seq<u8> {
    let n = 16 - data.len() % 16;
    data + Seq::new(n as nat, |i: int| n as u8)
}

/// What is left of `blocks` once a valid PKCS#7 padding is taken off, or
/// `None` where the padding is not valid.
pub open spec fn pkcs7_unpad(blocks: Seq<u8>) -> Option<Seq<u8>> {
    if blocks.len() == 0 || blocks.len() % 16 != 0 {
        None
    } else {
        let n = blocks.last() as int;
        if 1 <= n <= 16 && (forall|i: int|
            blocks.len() - n <= i < blocks.len() ==> #[trigger] blocks[i] == n) {
            Some(blocks.subrange(0, blocks.len() - n))
        } else {
            None
        }
    }
}

/// The plaintext of a ciphertext under a key and an initialisation vector;
/// `None` where the ciphertext is not a whole number of blocks or the
/// padding found after decryption is not valid.
pub open spec fn plaintext_of(key: Seq<u8>, iv: Seq<u8>, ciphertext: Seq<u8>) -> Option<Seq<u8>> {
    if ciphertext.len() % 16 != 0 {
        None
    } else {
        pkcs7_unpad(aes256_cbc_decrypt(key, iv, ciphertext))
    }
}

/// What ties a ciphertext to the plaintext it was made from: it is the
/// encryption of the padded plaintext, it decrypts to the padded plaintext
/// under the same vector, and under no other.
pub open spec fn is_encryption(
    key: Seq<u8>,
    iv: Seq<u8>,
    plaintext: Seq<u8>,
    ciphertext: Seq<u8>,
) -> bool {
    &&& ciphertext == aes256_cbc_encrypt(key, iv, pkcs7_pad(plaintext))
    &&& ciphertext.len() == pkcs7_pad(plaintext).len()
    &&& aes256_cbc_decrypt(key, iv, ciphertext) == pkcs7_pad(plaintext)
    &&& forall|other: Seq<u8>|
        other.len() == 16 && other != iv ==> #[trigger] aes256_cbc_decrypt(key, other, ciphertext)
            != pkcs7_pad(plaintext)
}

/// Taking the padding off a padded text gives the text back.
pub proof fn lemma_unpad_pad(data: Seq<u8>)
    ensures
        pkcs7_pad(data).len() == data.len() + 16 - data.len() % 16,
        pkcs7_pad(data).len() % 16 == 0,
        pkcs7_pad(data).len() >= 16,
        pkcs7_unpad(pkcs7_pad(data)) == Some(data),
{
    let padded = pkcs7_pad(data);
    let n = 16 - data.len() % 16;
    assert(padded.last() == n as u8);
    assert(padded.subrange(0, padded.len() - n) =~= data);
}

/// A ciphertext opens to the plaintext it was made from.
pub proof fn lemma_encryption_opens(
    key: Seq<u8>,
    iv: Seq<u8>,
    plaintext: Seq<u8>,
    ciphertext: Seq<u8>,
)
    requires
        is_encryption(key, iv, plaintext, ciphertext),
    ensures
        plaintext_of(key, iv, ciphertext) == Some(plaintext),
{
    lemma_unpad_pad(plaintext);
}

/// Encrypting one plaintext under one key with two different
/// initialisation vectors gives two different ciphertexts.
pub proof fn lemma_iv_independence(
    key: Seq<u8>,
    iv_a: Seq<u8>,
    iv_b: Seq<u8>,
    plaintext: Seq<u8>,
    ciphertext_a: Seq<u8>,
    ciphertext_b: Seq<u8>,
)
    requires
        iv_a.len() == 16,
        iv_b.len() == 16,
        iv_a != iv_b,
        is_encryption(key, iv_a, plaintext, ciphertext_a),
        is_encryption(key, iv_b, plaintext, ciphertext_b),
    ensures
        ciphertext_a != ciphertext_b,
{
    if ciphertext_a == ciphertext_b {
        assert(aes256_cbc_decrypt(key, iv_b, ciphertext_a) != pkcs7_pad(plaintext));
    }
}

/// Appends PKCS#7 padding.
pub fn pad(data: &[u8]) -> (padded: Vec<u8>)
    requires
        data@.len() + 16 <= usize::MAX,
    ensures
        padded@ == pkcs7_pad(data@),
{
    let n: usize = 16 - data.len() % 16;
    let mut padded: Vec<u8> = Vec::new();
    padded.extend_from_slice(data);
    let mut i: usize = 0;
    while i < n
        invariant
            i <= n,
            1 <= n <= 16,
            padded@ == data@ + Seq::new(i as nat, |k: int| n as u8),
        decreases n - i,
    {
        padded.push(n as u8);
        assert(padded@ =~= data@ + Seq::new((i + 1) as nat, |k: int| n as u8));
        i = i + 1;
    }
    padded
}

/// Takes PKCS#7 padding off, if it is valid: the last byte holds a number
/// between one and sixteen, and that many bytes at the end hold it.
pub fn unpad(blocks: &[u8]) -> (data: Option<Vec<u8>>)
    ensures
        data is Some <==> pkcs7_unpad(blocks@) is Some,
        data is Some ==> data->0@ == pkcs7_unpad(blocks@)->0,
{
    let len: usize = blocks.len();
    if len == 0 || len % 16 != 0 {
        return None;
    }
    let last: u8 = blocks[len - 1];
    if last < 1 || last > 16 {
        return None;
    }
    let n: usize = last as usize;
    let mut i: usize = len - n;
    while i < len
        invariant
            len == blocks@.len(),
            n == last,
            1 <= n <= 16,
            n <= len,
            len - n <= i <= len,
            last == blocks@.last(),
            forall|k: int| len - n <= k < i ==> #[trigger] blocks@[k] == last,
        decreases len - i,
    {
        if blocks[i] != last {
            return None;
        }
        i = i + 1;
    }
    Some(crate::text::copy_range(blocks, 0, len - n))
}

/// Encrypts a plaintext of any length under a key and an initialisation
/// vector.
pub fn encrypt(key: &[u8; 32], iv: &[u8; 16], plaintext: &[u8]) -> (ciphertext: Vec<u8>)
    requires
        plaintext@.len() + 16 <= usize::MAX,
    ensures
        is_encryption(key@, iv@, plaintext@, ciphertext@),
        ciphertext@.len() == plaintext@.len() + 16 - plaintext@.len() % 16,
        plaintext_of(key@, iv@, ciphertext@) == Some(plaintext@),
{
    let padded = pad(plaintext);
    proof {
        lemma_unpad_pad(plaintext@);
    }
    let ciphertext = aes_cbc_encrypt_blocks(key, iv, padded.as_slice());
    proof {
        lemma_encryption_opens(key@, iv@, plaintext@, ciphertext@);
    }
    ciphertext
}

/// Decrypts a ciphertext. Fails where the ciphertext is not a whole number
/// of blocks or the padding is not valid.
pub fn decrypt(key: &[u8; 32], iv: &[u8; 16], ciphertext: &[u8]) -> (plaintext: Option<Vec<u8>>)
    ensures
        plaintext is Some <==> plaintext_of(key@, iv@, ciphertext@) is Some,
        plaintext is Some ==> plaintext->0@ == plaintext_of(key@, iv@, ciphertext@)->0,
{
    if ciphertext.len() % 16 != 0 {
        return None;
    }
    let blocks = aes_cbc_decrypt_blocks(key, iv, ciphertext);
    unpad(blocks.as_slice())
}

/// The authentication tag of a ciphertext.
pub fn mac(key: &[u8; 32], ciphertext: &[u8]) -> (tag: Result<[u8; 32], KeyRejected>)
    ensures
        tag is Ok,
        tag->Ok_0@ == hmac_sha256(key@, ciphertext@),
{
    match hmac_sha256_tag(key.as_slice(), ciphertext) {
        Ok(tag) => Ok(tag),
        Err(_) => Err(KeyRejected),
    }
}

/// Whether `tag` is the authentication tag of `ciphertext`. The comparison
/// takes the same time whatever the two tags hold.
pub fn verify(key: &[u8; 32], ciphertext: &[u8], tag: &[u8; 32]) -> (valid: bool)
    ensures
        valid == (tag@ == hmac_sha256(key@, ciphertext@)),
{
    hmac_sha256_verify(key.as_slice(), ciphertext, tag.as_slice())
}

/// The SHA-256 digest of a message.
pub fn digest_of(message: &[u8]) -> (out: [u8; 32])
    ensures
        out@ == sha256(message@),
{
    let out = sha256_digest(message);
    assert(out@ =~= sha256(message@));
    out
}

/// A fresh initialisation vector.
pub fn fresh_iv() -> (iv: [u8; 16]) {
    random_block()
}

} // verus!
