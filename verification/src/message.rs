//! Messages on the wire once a device is enrolled: commands that go out and
//! frames that come in. Every frame is encrypted under the key of the device
//! and carries a tag over its ciphertext; the tag is checked before anything
//! is decrypted.

use crate::crypto::{
    decrypt, encrypt, fresh_iv, hmac_sha256, is_encryption, lemma_encryption_opens, mac,
    plaintext_of, verify,
};
use crate::device::{simple_form, DeviceId};
use crate::error::{FrameError, KeyRejected, ParseError, SerialError};
use crate::format::{decimal, decimal_string};
use crate::frame::{lemma_assemble_take_apart, take_apart, Frame};
use crate::reading::{reading_of, SerialReading};
use crate::text::{copy_range, same_bytes};
use vstd::prelude::*;
use vstd::slice::slice_subrange;
use vstd::string::StringExecFns;
use vstd::utf8::{encode_utf8, valid_utf8};

verus! {

/// Reads bytes as text with `String::from_utf8`, which fails exactly where
/// the bytes are not UTF-8 and else keeps the bytes as they are.
#[verifier::external_body]
fn text_of_bytes(bytes: Vec<u8>) -> (text: Option<String>)
    ensures
        text is Some <==> valid_utf8(bytes@),
        text is Some ==> encode_utf8(text->0@) == bytes@,
{
    match String::from_utf8(bytes) {
        Ok(text) => Some(text),
        Err(_) => None,
    }
}

/// What receiving a frame under a key yields: the plaintext, or the first
/// check that failed. The shape of the frame is checked first, then the tag,
/// then the padding, then that the plaintext is text.
pub open spec fn opened(key: Seq<u8>, bytes: Seq<u8>) -> Result<Seq<u8>, SerialError> {
    match take_apart(bytes) {
        Err(_) => Err(SerialError::Framing),
        Ok(parts) => if parts.mac != hmac_sha256(key, parts.ciphertext) {
            Err(SerialError::Auth)
        } else {
            match plaintext_of(key, parts.iv, parts.ciphertext) {
                None => Err(SerialError::Decrypt),
                Some(plaintext) => if valid_utf8(plaintext) {
                    Ok(plaintext)
                } else {
                    Err(SerialError::Decrypt)
                },
            }
        },
    }
}

/// Whether `bytes` is the frame that carries `plaintext` under `key` and
/// `iv`: the vector, the encryption of the plaintext, and the tag of that
/// ciphertext.
pub open spec fn sealed(key: Seq<u8>, iv: Seq<u8>, plaintext: Seq<u8>, bytes: Seq<u8>) -> bool {
    &&& take_apart(bytes) is Ok
    &&& take_apart(bytes)->Ok_0.iv == iv
    &&& is_encryption(key, iv, plaintext, take_apart(bytes)->Ok_0.ciphertext)
    &&& take_apart(bytes)->Ok_0.mac == hmac_sha256(key, take_apart(bytes)->Ok_0.ciphertext)
}

/// The bytes of the frame that carries `plaintext` under `key` and `iv`.
pub open spec fn sealed_bytes(key: Seq<u8>, iv: Seq<u8>, plaintext: Seq<u8>) -> Seq<u8> {
    let ciphertext = crate::crypto::aes256_cbc_encrypt(key, iv, crate::crypto::pkcs7_pad(plaintext));
    iv + ciphertext + hmac_sha256(key, ciphertext)
}

/// Whether `prefix` stands at the start of `s`.
pub open spec fn starts_with(s: Seq<u8>, prefix: Seq<u8>) -> bool {
    prefix.len() <= s.len() && s.subrange(0, prefix.len() as int) == prefix
}

/// Round trip: the frame made for a text opens, under the same key, to that
/// text, and its tag verifies.
pub proof fn lemma_sealed_opens(key: Seq<u8>, iv: Seq<u8>, plaintext: Seq<u8>, bytes: Seq<u8>)
    requires
        sealed(key, iv, plaintext, bytes),
        valid_utf8(plaintext),
    ensures
        opened(key, bytes) == Ok::<Seq<u8>, SerialError>(plaintext),
        take_apart(bytes)->Ok_0.mac == hmac_sha256(key, take_apart(bytes)->Ok_0.ciphertext),
{
    lemma_encryption_opens(key, iv, plaintext, take_apart(bytes)->Ok_0.ciphertext);
}

/// Tampering with the tag: a frame that opens stops opening as soon as any
/// bit of its last thirty-two bytes is changed. The check of the tag fails,
/// so no plaintext is produced.
pub proof fn lemma_tampered_tag(key: Seq<u8>, bytes: Seq<u8>, tampered: Seq<u8>)
    requires
        opened(key, bytes) is Ok,
        tampered.len() == bytes.len(),
        tampered != bytes,
        forall|i: int| 0 <= i < bytes.len() - 32 ==> tampered[i] == bytes[i],
    ensures
        opened(key, tampered) == Err::<Seq<u8>, SerialError>(SerialError::Auth),
{
    let good = take_apart(bytes)->Ok_0;
    let bad = take_apart(tampered)->Ok_0;
    assert(bad.ciphertext =~= good.ciphertext);
    if bad.mac == good.mac {
        assert(bad.iv =~= good.iv);
        lemma_assemble_take_apart(bytes);
        lemma_assemble_take_apart(tampered);
        assert(tampered =~= bytes);
    }
}

/// Tampering with the ciphertext: a frame that opens stops opening once its
/// ciphertext is changed, as long as the changed ciphertext does not happen
/// to have the very same tag. The check of the tag fails, so nothing is
/// decrypted.
pub proof fn lemma_tampered_ciphertext(key: Seq<u8>, bytes: Seq<u8>, tampered: Seq<u8>)
    requires
        opened(key, bytes) is Ok,
        tampered.len() == bytes.len(),
        forall|i: int| bytes.len() - 32 <= i < bytes.len() ==> tampered[i] == bytes[i],
        hmac_sha256(key, take_apart(tampered)->Ok_0.ciphertext) != hmac_sha256(
            key,
            take_apart(bytes)->Ok_0.ciphertext,
        ),
    ensures
        opened(key, tampered) == Err::<Seq<u8>, SerialError>(SerialError::Auth),
{
    let good = take_apart(bytes)->Ok_0;
    let bad = take_apart(tampered)->Ok_0;
    assert(bad.mac =~= good.mac);
}

/// Builds the frame that carries `plaintext`: encrypts it, computes the tag
/// of the ciphertext, and puts vector, ciphertext and tag together.
pub fn seal(key: &[u8; 32], iv: &[u8; 16], plaintext: &[u8]) -> (frame: Result<
    Vec<u8>,
    KeyRejected,
>)
    requires
        plaintext@.len() + 64 <= usize::MAX,
    ensures
        frame is Ok,
        frame->Ok_0@ == sealed_bytes(key@, iv@, plaintext@),
        sealed(key@, iv@, plaintext@, frame->Ok_0@),
        frame->Ok_0@.len() == 64 + plaintext@.len() - plaintext@.len() % 16,
        valid_utf8(plaintext@) ==> opened(key@, frame->Ok_0@) == Ok::<Seq<u8>, SerialError>(
            plaintext@,
        ),
{
    let ciphertext = encrypt(key, iv, plaintext);
    let tag = match mac(key, ciphertext.as_slice()) {
        Ok(tag) => tag,
        Err(e) => {
            return Err(e);
        },
    };
    let frame = Frame::build(iv, ciphertext.as_slice(), &tag);
    proof {
        if valid_utf8(plaintext@) {
            lemma_sealed_opens(key@, iv@, plaintext@, frame@);
        }
    }
    Ok(frame)
}

/// Receives a frame: checks its shape and its tag, and only then decrypts
/// it and reads the plaintext as text.
pub fn open(key: &[u8; 32], bytes: &[u8]) -> (text: Result<String, SerialError>)
    ensures
        text is Ok <==> opened(key@, bytes@) is Ok,
        text is Ok ==> encode_utf8(text->Ok_0@) == opened(key@, bytes@)->Ok_0,
        text is Err ==> text->Err_0 == opened(key@, bytes@)->Err_0,
{
    let frame = match Frame::parse(bytes) {
        Ok(frame) => frame,
        Err(_) => {
            return Err(SerialError::Framing);
        },
    };
    if !verify(key, frame.ciphertext.as_slice(), &frame.mac) {
        return Err(SerialError::Auth);
    }
    let plaintext = match decrypt(key, &frame.iv, frame.ciphertext.as_slice()) {
        Some(plaintext) => plaintext,
        None => {
            return Err(SerialError::Decrypt);
        },
    };
    match text_of_bytes(plaintext) {
        Some(text) => Ok(text),
        None => Err(SerialError::Decrypt),
    }
}

/// Encrypts a message for a device under a vector.
pub fn encrypt_message(dest: DeviceId, iv: [u8; 16], mess: &String) -> (ciphertext: Vec<u8>)
    requires
        encode_utf8(mess@).len() + 16 <= usize::MAX,
    ensures
        is_encryption(simple_form(dest.value), iv@, encode_utf8(mess@), ciphertext@),
        plaintext_of(simple_form(dest.value), iv@, ciphertext@) == Some(encode_utf8(mess@)),
{
    let key = dest.key();
    encrypt(&key, &iv, mess.as_str().as_bytes())
}

/// Decrypts a payload from a device and reads it as text. Fails where the
/// payload is not a whole number of blocks, the padding is not valid or the
/// plaintext is not text.
pub fn decrypt_message(source: DeviceId, iv: [u8; 16], payload: &Vec<u8>) -> (text: Result<
    String,
    SerialError,
>)
    ensures
        text is Ok <==> plaintext_of(simple_form(source.value), iv@, payload@) is Some
            && valid_utf8(plaintext_of(simple_form(source.value), iv@, payload@)->0),
        text is Ok ==> encode_utf8(text->Ok_0@) == plaintext_of(
            simple_form(source.value),
            iv@,
            payload@,
        )->0,
        text is Err ==> text->Err_0 == SerialError::Decrypt,
{
    let key = source.key();
    match decrypt(&key, &iv, payload.as_slice()) {
        Some(plaintext) => match text_of_bytes(plaintext) {
            Some(text) => Ok(text),
            None => Err(SerialError::Decrypt),
        },
        None => Err(SerialError::Decrypt),
    }
}

/// The tag of a payload under the key of a device.
pub fn generate_hmac(the_uuid: DeviceId, payload: &Vec<u8>) -> (tag: Result<[u8; 32], KeyRejected>)
    ensures
        tag is Ok,
        tag->Ok_0@ == hmac_sha256(simple_form(the_uuid.value), payload@),
{
    let key = the_uuid.key();
    mac(&key, payload.as_slice())
}

/// Whether a received tag is the tag of a payload under the key of a
/// device.
pub fn verify_hmac(the_uuid: DeviceId, payload: &Vec<u8>, received_hmac: [u8; 32]) -> (valid: bool)
    ensures
        valid == (received_hmac@ == hmac_sha256(simple_form(the_uuid.value), payload@)),
{
    let key = the_uuid.key();
    verify(&key, payload.as_slice(), &received_hmac)
}

/// What a device can be told to do.
#[derive(Clone, Copy, Debug, PartialEq, Eq, Structural)]
pub enum Command {
    /// Wait this many milliseconds between two readings.
    SetDelay(u32),
    /// Start or stop reporting.
    SetActive(bool),
}

/// The plaintext of a command: the verb, what is set, the value, and empty
/// fields up to six in all.
pub open spec fn command_text(command: Command) -> Seq<char> {
    match command {
        Command::SetDelay(ms) => "SET#delay#"@ + decimal(ms as nat) + "###"@,
        Command::SetActive(on) => "SET#active#"@ + (if on {
            "TRUE"@
        } else {
            "FALSE"@
        }) + "###"@,
    }
}

impl Command {
    /// The plaintext of the command.
    pub fn text(&self) -> (text: String)
        ensures
            text@ == command_text(*self),
    {
        match self {
            Command::SetDelay(ms) => {
                let mut text = String::from_str("SET#delay#");
                let number = decimal_string(*ms as u64);
                text.append(number.as_str());
                text.append("###");
                text
            },
            Command::SetActive(on) => {
                let mut text = String::from_str("SET#active#");
                if *on {
                    text.append("TRUE");
                } else {
                    text.append("FALSE");
                }
                text.append("###");
                text
            },
        }
    }
}

/// A message on its way to a device.
#[derive(Clone, Debug)]
pub struct SerialCmd {
    pub destination: DeviceId,
    pub iv: [u8; 16],
    pub command: String,
}

impl SerialCmd {
    /// A command for a device, under the given vector or, where none is
    /// given, under a fresh random one.
    pub fn new(dest: DeviceId, iv: Option<[u8; 16]>, com: String) -> (cmd: SerialCmd)
        ensures
            cmd.destination == dest,
            cmd.command@ == com@,
            iv is Some ==> cmd.iv == iv->0,
    {
        let final_iv: [u8; 16] = match iv {
            Some(given_iv) => given_iv,
            None => fresh_iv(),
        };
        SerialCmd { destination: dest, iv: final_iv, command: com }
    }

    /// A recognized command for a device.
    pub fn for_command(dest: DeviceId, iv: Option<[u8; 16]>, command: Command) -> (cmd: SerialCmd)
        ensures
            cmd.destination == dest,
            cmd.command@ == command_text(command),
            iv is Some ==> cmd.iv == iv->0,
    {
        SerialCmd::new(dest, iv, command.text())
    }

    /// The frame that carries this command to its device. The device, which
    /// holds the same key, opens it to the command.
    pub fn build_msg(&self) -> (frame: Result<Vec<u8>, KeyRejected>)
        requires
            encode_utf8(self.command@).len() + 64 <= usize::MAX,
        ensures
            frame is Ok,
            sealed(
                simple_form(self.destination.value),
                self.iv@,
                encode_utf8(self.command@),
                frame->Ok_0@,
            ),
            opened(simple_form(self.destination.value), frame->Ok_0@) == Ok::<
                Seq<u8>,
                SerialError,
            >(encode_utf8(self.command@)),
    {
        let key = self.destination.key();
        proof {
            vstd::utf8::encode_utf8_valid_utf8(self.command@);
        }
        seal(&key, &self.iv, self.command.as_str().as_bytes())
    }
}

/// A received frame as mathematical values.
pub struct MsgView {
    pub orig_msg: Seq<u8>,
    pub iv: Option<Seq<u8>>,
    pub payload: Option<Seq<u8>>,
    pub hmac: Option<Seq<u8>>,
    pub decrypted: Option<Seq<u8>>,
}

/// A received frame: the bytes as they came, the three parts of the frame,
/// and the plaintext where the frame opened under the key of the device it
/// was expected from.
pub struct SerialMsg {
    orig_msg: Vec<u8>,
    parsed_iv: Option<[u8; 16]>,
    parsed_payload: Option<Vec<u8>>,
    parsed_hmac: Option<[u8; 32]>,
    decrypted_payload: Option<String>,
}

/// The payload that stands in for a missing one when a tag is checked.
pub open spec fn payload_or_default(payload: Option<Seq<u8>>) -> Seq<u8> {
    match payload {
        Some(p) => p,
        None => seq![0u8],
    }
}

/// The tag that stands in for a missing one when a tag is checked.
pub open spec fn hmac_or_default(hmac: Option<Seq<u8>>) -> Seq<u8> {
    match hmac {
        Some(h) => h,
        None => Seq::new(32, |i: int| 0u8),
    }
}

/// The error kind under which a payload that is no reading is dropped.
pub open spec fn drop_kind(e: ParseError) -> SerialError {
    match e {
        ParseError::InvalidShape => SerialError::Shape,
        ParseError::InvalidId => SerialError::Protocol,
        ParseError::InvalidField(_, _) => SerialError::Field,
    }
}

/// The error kind under which a payload that is no reading is dropped.
pub fn drop_kind_of(e: ParseError) -> (kind: SerialError)
    ensures
        kind == drop_kind(e),
{
    match e {
        ParseError::InvalidShape => SerialError::Shape,
        ParseError::InvalidId => SerialError::Protocol,
        ParseError::InvalidField(_, _) => SerialError::Field,
    }
}

impl View for SerialMsg {
    type V = MsgView;

    closed spec fn view(&self) -> MsgView {
        MsgView {
            orig_msg: self.orig_msg@,
            iv: match self.parsed_iv {
                Some(iv) => Some(iv@),
                None => None,
            },
            payload: match self.parsed_payload {
                Some(p) => Some(p@),
                None => None,
            },
            hmac: match self.parsed_hmac {
                Some(h) => Some(h@),
                None => None,
            },
            decrypted: match self.decrypted_payload {
                Some(text) => Some(encode_utf8(text@)),
                None => None,
            },
        }
    }
}

impl SerialMsg {
    /// Takes a received frame apart and, where its tag verifies under the
    /// key of `source`, decrypts it. Fails only where the bytes are no
    /// frame; a wrong tag or a failed decryption leaves the message without
    /// plaintext.
    pub fn new(source: &DeviceId, msg: Vec<u8>) -> (parsed: Result<SerialMsg, FrameError>)
        ensures
            parsed is Ok <==> take_apart(msg@) is Ok,
            parsed is Err ==> parsed->Err_0 == take_apart(msg@)->Err_0,
            parsed is Ok ==> parsed->Ok_0@ == (MsgView {
                orig_msg: msg@,
                iv: Some(take_apart(msg@)->Ok_0.iv),
                payload: Some(take_apart(msg@)->Ok_0.ciphertext),
                hmac: Some(take_apart(msg@)->Ok_0.mac),
                decrypted: match opened(simple_form(source.value), msg@) {
                    Ok(plaintext) => Some(plaintext),
                    Err(_) => None,
                },
            }),
    {
        let frame = match Frame::parse(msg.as_slice()) {
            Ok(frame) => frame,
            Err(e) => {
                return Err(e);
            },
        };
        let mut decrypted: Option<String> = None;
        if verify_hmac(*source, &frame.ciphertext, frame.mac) {
            decrypted =
            match decrypt_message(*source, frame.iv, &frame.ciphertext) {
                Ok(inner) => Some(inner),
                Err(_) => None,
            };
        }
        Ok(
            SerialMsg {
                orig_msg: msg,
                parsed_iv: Some(frame.iv),
                parsed_payload: Some(frame.ciphertext),
                parsed_hmac: Some(frame.mac),
                decrypted_payload: decrypted,
            },
        )
    }

    /// The bytes as they were received.
    pub fn get_org_msg(&self) -> (bytes: Vec<u8>)
        ensures
            bytes@ == self@.orig_msg,
    {
        copy_range(self.orig_msg.as_slice(), 0, self.orig_msg.len())
    }

    /// The initialisation vector of the frame.
    pub fn get_iv(&self) -> (iv: Option<[u8; 16]>)
        ensures
            iv is Some <==> self@.iv is Some,
            iv is Some ==> iv->0@ == self@.iv->0,
    {
        self.parsed_iv
    }

    /// The authentication tag of the frame.
    pub fn get_hmac(&self) -> (tag: Option<[u8; 32]>)
        ensures
            tag is Some <==> self@.hmac is Some,
            tag is Some ==> tag->0@ == self@.hmac->0,
    {
        self.parsed_hmac
    }

    /// The ciphertext of the frame.
    pub fn get_payload(&self) -> (payload: Option<Vec<u8>>)
        ensures
            payload is Some <==> self@.payload is Some,
            payload is Some ==> payload->0@ == self@.payload->0,
    {
        match &self.parsed_payload {
            Some(p) => Some(copy_range(p.as_slice(), 0, p.len())),
            None => None,
        }
    }

    /// Whether the frame opened when it was received.
    pub fn payload_decrypted(&self) -> (yes: bool)
        ensures
            yes == self@.decrypted is Some,
    {
        match self.decrypted_payload {
            Some(_) => true,
            None => false,
        }
    }

    /// Whether the tag of the frame is the tag of its ciphertext under the
    /// key of `source`.
    pub fn verify_payload(&self, source: &DeviceId) -> (valid: bool)
        ensures
            valid == (hmac_or_default(self@.hmac) == hmac_sha256(
                simple_form(source.value),
                payload_or_default(self@.payload),
            )),
    {
        let payload: Vec<u8> = match self.get_payload() {
            Some(p) => p,
            None => {
                let mut single: Vec<u8> = Vec::new();
                single.push(0u8);
                assert(single@ =~= seq![0u8]);
                single
            },
        };
        let tag: [u8; 32] = match self.get_hmac() {
            Some(h) => h,
            None => {
                let zeros = [0u8; 32];
                assert(zeros@ =~= Seq::new(32, |i: int| 0u8));
                zeros
            },
        };
        verify_hmac(*source, &payload, tag)
    }

    /// Whether the frame opened and its plaintext begins with the canonical
    /// text of `source`.
    pub fn verify_decryption(&self, source: &DeviceId) -> (valid: bool)
        ensures
            valid == (self@.decrypted is Some && starts_with(
                self@.decrypted->0,
                simple_form(source.value),
            )),
    {
        match &self.decrypted_payload {
            Some(local_message) => {
                let text = local_message.as_str().as_bytes();
                let id = source.to_simple();
                if text.len() < 32 {
                    false
                } else {
                    same_bytes(slice_subrange(text, 0, 32), id.as_slice())
                }
            },
            None => false,
        }
    }

    /// The plaintext of the frame, where it opened.
    pub fn get_decrypted_payload(&self) -> (text: Option<String>)
        ensures
            text is Some <==> self@.decrypted is Some,
            text is Some ==> encode_utf8(text->0@) == self@.decrypted->0,
    {
        match &self.decrypted_payload {
            Some(text) => Some(text.clone()),
            None => None,
        }
    }

    /// The reading that the frame carries. The tag is checked first, then
    /// that the frame opened, then that the plaintext names `source`, and
    /// only then is the plaintext read.
    pub fn generate_serial_reading(&self, source: &DeviceId) -> (reading: Result<
        SerialReading,
        SerialError,
    >)
        ensures
            reading == Err::<SerialReading, SerialError>(SerialError::Auth) <==> hmac_or_default(
                self@.hmac,
            ) != hmac_sha256(simple_form(source.value), payload_or_default(self@.payload)),
            hmac_or_default(self@.hmac) == hmac_sha256(
                simple_form(source.value),
                payload_or_default(self@.payload),
            ) ==> match reading {
                Ok(r) => self@.decrypted is Some && starts_with(
                    self@.decrypted->0,
                    simple_form(source.value),
                ) && reading_of(self@.decrypted->0) == Ok::<
                    crate::reading::ReadingView,
                    ParseError,
                >(r@),
                Err(SerialError::Decrypt) => self@.decrypted is None,
                Err(SerialError::Protocol) => self@.decrypted is Some && (!starts_with(
                    self@.decrypted->0,
                    simple_form(source.value),
                ) || reading_of(self@.decrypted->0) == Err::<
                    crate::reading::ReadingView,
                    ParseError,
                >(ParseError::InvalidId)),
                Err(kind) => self@.decrypted is Some && starts_with(
                    self@.decrypted->0,
                    simple_form(source.value),
                ) && reading_of(self@.decrypted->0) is Err && kind == drop_kind(
                    reading_of(self@.decrypted->0)->Err_0,
                ),
            },
    {
        if !self.verify_payload(source) {
            return Err(SerialError::Auth);
        }
        let text = match &self.decrypted_payload {
            Some(text) => text,
            None => {
                return Err(SerialError::Decrypt);
            },
        };
        if !self.verify_decryption(source) {
            return Err(SerialError::Protocol);
        }
        match SerialReading::parse(text.as_str().as_bytes()) {
            Ok(r) => Ok(r),
            Err(e) => Err(drop_kind_of(e)),
        }
    }
}

} // verus!
