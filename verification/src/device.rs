//! Device identifiers and the key material derived from them.

use crate::text::{hex_digit, is_lower_hex};
use vstd::prelude::*;

verus! {

/// The `i`-th group of four bits of `value`, counted from the most significant one.
pub open spec fn nibble(value: u128, i: int) -> int {
    ((value >> (((31 - i) * 4) as u128)) & 0xf) as int
}

/// The canonical text of an identifier: thirty-two lower-case hexadecimal
/// digits, most significant first, without dashes.
pub open spec fn simple_form(value: u128) -> Seq<u8> {
    Seq::new(32, |i: int| hex_digit(nibble(value, i)))
}

/// Whether `text` has the shape of a canonical identifier.
pub open spec fn is_simple_text(text: Seq<u8>) -> bool {
    text.len() == 32 && forall|i: int| 0 <= i < 32 ==> is_lower_hex(#[trigger] text[i])
}

/// Whether `value` carries the marks of a randomly generated identifier:
/// version four in bits 76 to 79 and the variant `10` in bits 62 and 63.
pub open spec fn is_version4(value: u128) -> bool {
    (value >> 76) & 0xf == 4 && (value >> 62) & 0x3 == 2
}

/// A 128-bit device identifier. The all-zero value is reserved for devices
/// that have not been enrolled yet.
#[derive(Clone, Copy, Debug, PartialEq, Eq, Hash, Structural)]
pub struct DeviceId {
    pub value: u128,
}

/// Formats an identifier with `uuid`'s `Simple::encode_lower`, which writes
/// the thirty-two lower-case hexadecimal digits of the sixteen bytes in
/// big-endian order.
#[verifier::external_body]
fn uuid_simple_text(value: u128) -> (text: [u8; 32])
    ensures
        text@ == simple_form(value),
{
    let mut buffer = [0u8; 32];
    uuid::Uuid::from_u128(value).as_simple().encode_lower(&mut buffer);
    buffer
}

/// Parses with `uuid`'s `Uuid::try_parse_ascii`. For an input of thirty-two
/// hexadecimal digits it takes the non-hyphenated branch and decodes the
/// digits pairwise into the sixteen bytes, so the value read back formats to
/// the same text. Other inputs are left out: the function also accepts
/// hyphenated, braced and URN spellings.
#[verifier::external_body]
fn uuid_parse_simple(text: &[u8]) -> (parsed: Option<u128>)
    requires
        is_simple_text(text@),
    ensures
        parsed is Some,
        simple_form(parsed->0) == text@,
{
    match uuid::Uuid::try_parse_ascii(text) {
        Ok(id) => Some(id.as_u128()),
        Err(_) => None,
    }
}

/// Draws an identifier with `uuid`'s `Uuid::new_v4`, which takes 128 random
/// bits from the operating system and overwrites the version and variant
/// bits. Nothing else is known of the outcome.
#[verifier::external_body]
fn uuid_random() -> (value: u128)
    ensures
        is_version4(value),
{
    uuid::Uuid::new_v4().as_u128()
}

/// Every digit of a canonical text is a lower-case hexadecimal digit.
pub proof fn lemma_simple_form_is_text(value: u128)
    ensures
        is_simple_text(simple_form(value)),
{
    assert forall|i: int| 0 <= i < 32 implies is_lower_hex(#[trigger] simple_form(value)[i]) by {
        let k: u128 = ((31 - i) * 4) as u128;
        assert((value >> k) & 0xf < 16) by (bit_vector);
    }
}

/// The value of a lower-case hexadecimal digit.
pub open spec fn hex_value(c: u8) -> u128 {
    if c <= 57 {
        (c - 48) as u128
    } else {
        (c - 87) as u128
    }
}

/// The number that a run of lower-case hexadecimal digits denotes, most
/// significant digit first.
pub open spec fn value_of_digits(text: Seq<u8>) -> u128
    decreases text.len(),
{
    if text.len() == 0 {
        0
    } else {
        (value_of_digits(text.drop_last()) << 4) | hex_value(text.last())
    }
}

/// The digits of a run are the groups of four bits of its value, and a run
/// of fewer than thirty-two digits leaves the upper bits clear.
proof fn lemma_digits_are_nibbles(text: Seq<u8>)
    requires
        text.len() <= 32,
        forall|i: int| 0 <= i < text.len() ==> is_lower_hex(#[trigger] text[i]),
    ensures
        text.len() < 32 ==> value_of_digits(text) >> ((4 * text.len()) as u128) == 0,
        forall|i: int|
            0 <= i < text.len() ==> (value_of_digits(text) >> ((4 * (text.len() - 1 - i)) as u128))
                & 0xf == hex_value(#[trigger] text[i]),
    decreases text.len(),
{
    if text.len() == 0 {
        assert(0u128 >> 0u128 == 0) by (bit_vector);
    } else {
        let front = text.drop_last();
        let n = front.len();
        assert forall|i: int| 0 <= i < front.len() implies is_lower_hex(#[trigger] front[i]) by {
            assert(front[i] == text[i]);
        }
        lemma_digits_are_nibbles(front);
        let a = value_of_digits(front);
        let d = hex_value(text.last());
        let v = value_of_digits(text);
        assert(is_lower_hex(text[n as int]));
        assert(d < 16);
        assert(v == (a << 4) | d);
        let s: u128 = (4 * n) as u128;
        assert(s <= 124 && a >> s == 0);
        assert(((a << 4) | d) & 0xf == d) by (bit_vector)
            requires
                d < 16,
        ;
        if text.len() < 32 {
            let up: u128 = (s + 4) as u128;
            assert(up == (4 * text.len()) as u128);
            assert(((a << 4) | d) >> up == 0) by (bit_vector)
                requires
                    a >> s == 0,
                    s <= 120,
                    up == s + 4,
                    d < 16,
            ;
        }
        assert forall|i: int| 0 <= i < text.len() implies (v >> ((4 * (text.len() - 1 - i)) as u128))
            & 0xf == hex_value(#[trigger] text[i]) by {
            if i < n {
                let k: u128 = (4 * (n - 1 - i)) as u128;
                let up: u128 = (k + 4) as u128;
                assert(up == (4 * (text.len() - 1 - i)) as u128);
                assert(front[i] == text[i]);
                assert((a >> k) & 0xf == hex_value(front[i]));
                assert((((a << 4) | d) >> up) & 0xf == (a >> k) & 0xf) by (bit_vector)
                    requires
                        a >> s == 0,
                        s <= 124,
                        k <= 120,
                        up == k + 4,
                        d < 16,
                ;
            } else {
                assert(((4 * (text.len() - 1 - i)) as u128) == 0u128);
                assert((v >> 0u128) & 0xf == v & 0xf) by (bit_vector);
            }
        }
    }
}

/// Every text that has the shape of a canonical identifier is the canonical
/// text of an identifier: of the number that its digits denote.
pub proof fn lemma_simple_text_has_id(text: Seq<u8>)
    requires
        is_simple_text(text),
    ensures
        simple_form(value_of_digits(text)) == text,
{
    lemma_digits_are_nibbles(text);
    let v = value_of_digits(text);
    assert forall|i: int| 0 <= i < 32 implies simple_form(v)[i] == text[i] by {
        assert(is_lower_hex(text[i]));
        assert((v >> ((4 * (32 - 1 - i)) as u128)) & 0xf == hex_value(text[i]));
        assert(nibble(v, i) == hex_value(text[i]));
    }
    assert(simple_form(v) =~= text);
}

/// Two identifiers with the same canonical text are the same identifier.
pub proof fn lemma_simple_form_injective(a: u128, b: u128)
    requires
        simple_form(a) == simple_form(b),
    ensures
        a == b,
{
    assert forall|i: int| 0 <= i < 32 implies nibble(a, i) == nibble(b, i) by {
        let k: u128 = ((31 - i) * 4) as u128;
        assert((a >> k) & 0xf < 16) by (bit_vector);
        assert((b >> k) & 0xf < 16) by (bit_vector);
        assert(simple_form(a)[i] == hex_digit(nibble(a, i)));
        assert(simple_form(b)[i] == hex_digit(nibble(b, i)));
        assert(0 <= nibble(a, i) < 16);
        assert(0 <= nibble(b, i) < 16);
    }
    assert(nibble(a, 0) == nibble(b, 0) && nibble(a, 1) == nibble(b, 1) && nibble(a, 2) == nibble(
        b,
        2,
    ) && nibble(a, 3) == nibble(b, 3) && nibble(a, 4) == nibble(b, 4) && nibble(a, 5) == nibble(
        b,
        5,
    ) && nibble(a, 6) == nibble(b, 6) && nibble(a, 7) == nibble(b, 7));
    assert(nibble(a, 8) == nibble(b, 8) && nibble(a, 9) == nibble(b, 9) && nibble(a, 10) == nibble(
        b,
        10,
    ) && nibble(a, 11) == nibble(b, 11) && nibble(a, 12) == nibble(b, 12) && nibble(a, 13)
        == nibble(b, 13) && nibble(a, 14) == nibble(b, 14) && nibble(a, 15) == nibble(b, 15));
    assert(nibble(a, 16) == nibble(b, 16) && nibble(a, 17) == nibble(b, 17) && nibble(a, 18)
        == nibble(b, 18) && nibble(a, 19) == nibble(b, 19) && nibble(a, 20) == nibble(b, 20)
        && nibble(a, 21) == nibble(b, 21) && nibble(a, 22) == nibble(b, 22) && nibble(a, 23)
        == nibble(b, 23));
    assert(nibble(a, 24) == nibble(b, 24) && nibble(a, 25) == nibble(b, 25) && nibble(a, 26)
        == nibble(b, 26) && nibble(a, 27) == nibble(b, 27) && nibble(a, 28) == nibble(b, 28)
        && nibble(a, 29) == nibble(b, 29) && nibble(a, 30) == nibble(b, 30) && nibble(a, 31)
        == nibble(b, 31));
    assert(a == b) by (bit_vector)
        requires
            (a >> 124) & 0xf == (b >> 124) & 0xf,
            (a >> 120) & 0xf == (b >> 120) & 0xf,
            (a >> 116) & 0xf == (b >> 116) & 0xf,
            (a >> 112) & 0xf == (b >> 112) & 0xf,
            (a >> 108) & 0xf == (b >> 108) & 0xf,
            (a >> 104) & 0xf == (b >> 104) & 0xf,
            (a >> 100) & 0xf == (b >> 100) & 0xf,
            (a >> 96) & 0xf == (b >> 96) & 0xf,
            (a >> 92) & 0xf == (b >> 92) & 0xf,
            (a >> 88) & 0xf == (b >> 88) & 0xf,
            (a >> 84) & 0xf == (b >> 84) & 0xf,
            (a >> 80) & 0xf == (b >> 80) & 0xf,
            (a >> 76) & 0xf == (b >> 76) & 0xf,
            (a >> 72) & 0xf == (b >> 72) & 0xf,
            (a >> 68) & 0xf == (b >> 68) & 0xf,
            (a >> 64) & 0xf == (b >> 64) & 0xf,
            (a >> 60) & 0xf == (b >> 60) & 0xf,
            (a >> 56) & 0xf == (b >> 56) & 0xf,
            (a >> 52) & 0xf == (b >> 52) & 0xf,
            (a >> 48) & 0xf == (b >> 48) & 0xf,
            (a >> 44) & 0xf == (b >> 44) & 0xf,
            (a >> 40) & 0xf == (b >> 40) & 0xf,
            (a >> 36) & 0xf == (b >> 36) & 0xf,
            (a >> 32) & 0xf == (b >> 32) & 0xf,
            (a >> 28) & 0xf == (b >> 28) & 0xf,
            (a >> 24) & 0xf == (b >> 24) & 0xf,
            (a >> 20) & 0xf == (b >> 20) & 0xf,
            (a >> 16) & 0xf == (b >> 16) & 0xf,
            (a >> 12) & 0xf == (b >> 12) & 0xf,
            (a >> 8) & 0xf == (b >> 8) & 0xf,
            (a >> 4) & 0xf == (b >> 4) & 0xf,
            (a >> 0) & 0xf == (b >> 0) & 0xf,
    ;
}

impl DeviceId {
    /// The reserved identifier of an unenrolled device.
    pub fn nil() -> (id: DeviceId)
        ensures
            id.value == 0,
    {
        DeviceId { value: 0 }
    }

    /// The identifier with the given 128-bit value.
    pub fn from_u128(value: u128) -> (id: DeviceId)
        ensures
            id.value == value,
    {
        DeviceId { value }
    }

    /// The 128-bit value of this identifier.
    pub fn as_u128(&self) -> (value: u128)
        ensures
            value == self.value,
    {
        self.value
    }

    pub open spec fn spec_is_nil(&self) -> bool {
        self.value == 0
    }

    #[verifier::when_used_as_spec(spec_is_nil)]
    pub fn is_nil(&self) -> (nil: bool)
        ensures
            nil == (self.value == 0),
    {
        self.value == 0
    }

    /// A fresh random identifier, which is never the reserved one.
    pub fn new_v4() -> (id: DeviceId)
        ensures
            is_version4(id.value),
            !id.is_nil(),
    {
        let value = uuid_random();
        assert(is_version4(value) ==> value != 0) by (bit_vector);
        DeviceId { value }
    }

    /// The canonical text of this identifier.
    pub fn to_simple(&self) -> (text: [u8; 32])
        ensures
            text@ == simple_form(self.value),
            is_simple_text(text@),
    {
        proof {
            lemma_simple_form_is_text(self.value);
        }
        uuid_simple_text(self.value)
    }

    /// The key of the device for encryption and authentication: the
    /// thirty-two ASCII characters of its canonical text.
    pub fn key(&self) -> (key: [u8; 32])
        ensures
            key@ == simple_form(self.value),
    {
        uuid_simple_text(self.value)
    }

    /// Reads an identifier from its canonical text. Any other text, be it a
    /// spelling with dashes or with capital letters, is no identifier.
    pub fn parse_simple(text: &[u8]) -> (id: Option<DeviceId>)
        ensures
            id is Some <==> is_simple_text(text@),
            id is Some ==> simple_form(id->0.value) == text@,
            id is Some ==> id->0.value == value_of_digits(text@),
    {
        if text.len() != 32 {
            return None;
        }
        let mut i: usize = 0;
        while i < 32
            invariant
                i <= 32,
                text@.len() == 32,
                forall|k: int| 0 <= k < i ==> is_lower_hex(#[trigger] text@[k]),
            decreases 32 - i,
        {
            let b = text[i];
            if !((48 <= b && b <= 57) || (97 <= b && b <= 102)) {
                return None;
            }
            i = i + 1;
        }
        match uuid_parse_simple(text) {
            Some(value) => {
                proof {
                    lemma_simple_text_has_id(text@);
                    lemma_simple_form_injective(value, value_of_digits(text@));
                }
                Some(DeviceId { value })
            },
            None => None,
        }
    }
}

/// Reading the canonical text of an identifier gives the identifier back,
/// whatever reading function is used, as long as it meets the contract of
/// `DeviceId::parse_simple`.
pub proof fn lemma_parse_of_text(id: DeviceId, parsed: Option<DeviceId>)
    requires
        parsed is Some <==> is_simple_text(simple_form(id.value)),
        parsed is Some ==> simple_form(parsed->0.value) == simple_form(id.value),
    ensures
        parsed == Some(id),
{
    lemma_simple_form_is_text(id.value);
    lemma_simple_form_injective(parsed->0.value, id.value);
}

} // verus!
