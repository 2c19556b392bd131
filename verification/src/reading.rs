//! The payload of a verified plaintext: six fields separated by `#`, the
//! first a device identifier, the others a humidity, two temperatures, a
//! presence flag and a threshold flag. A field that holds the single letter
//! `A` or `a` is absent. An enrollment request has the same shape, with the
//! reserved identifier and five capability flags.

use crate::device::{
    is_simple_text, lemma_simple_form_injective, simple_form, value_of_digits, DeviceId,
};
use crate::error::{FieldFault, ParseError};
use crate::text::{
    all_digits, count, digits_value, fold, is_digit, is_space, leading_digits, lemma_split_len,
    lower, matches_ignoring_case, split, split_fields, trim_end, trimmed_len,
};
use vstd::prelude::*;
use vstd::slice::slice_subrange;

verus! {

/// The byte that separates the fields of a payload.
pub const SEPARATOR: u8 = 35;

/// The bytes of the word `true`.
pub open spec fn word_true() -> Seq<u8> {
    seq![116u8, 114u8, 117u8, 101u8]
}

/// The bytes of the word `false`.
pub open spec fn word_false() -> Seq<u8> {
    seq![102u8, 97u8, 108u8, 115u8, 101u8]
}

/// Whether a field is the absent sentinel: the single letter `A` or `a`.
pub open spec fn is_absent(field: Seq<u8>) -> bool {
    field.len() == 1 && (field[0] == 65 || field[0] == 97)
}

/// The truth value that a field spells, letter case ignored.
pub open spec fn bool_value(field: Seq<u8>) -> Option<bool> {
    if fold(field) == word_true() {
        Some(true)
    } else if fold(field) == word_false() {
        Some(false)
    } else {
        None
    }
}

/// `s` without a plus or minus sign at its start.
pub open spec fn strip_sign(s: Seq<u8>) -> Seq<u8> {
    if s.len() > 0 && (s[0] == 43 || s[0] == 45) {
        s.drop_first()
    } else {
        s
    }
}

/// Whether `s` is the exponent part of a number: the letter `e`, an optional
/// sign, and one or more digits.
pub open spec fn is_exponent(s: Seq<u8>) -> bool {
    &&& s.len() >= 1
    &&& lower(s[0]) == 101
    &&& strip_sign(s.drop_first()).len() >= 1
    &&& all_digits(strip_sign(s.drop_first()))
}

/// Whether `s` is digits with an optional decimal point among them, at least
/// one digit in all, and an optional exponent part.
pub open spec fn is_plain_number(s: Seq<u8>) -> bool {
    let whole = leading_digits(s);
    let rest = s.subrange(whole, s.len() as int);
    if rest.len() > 0 && rest[0] == 46 {
        let fraction = leading_digits(rest.drop_first());
        let tail = rest.subrange(1 + fraction, rest.len() as int);
        whole + fraction >= 1 && (tail.len() == 0 || is_exponent(tail))
    } else {
        whole >= 1 && (rest.len() == 0 || is_exponent(rest))
    }
}

/// Whether `s` names infinity or not-a-number, letter case ignored.
pub open spec fn is_special_number(s: Seq<u8>) -> bool {
    let f = fold(s);
    f == seq![105u8, 110u8, 102u8] || f == seq![
        105u8,
        110u8,
        102u8,
        105u8,
        110u8,
        105u8,
        116u8,
        121u8,
    ] || f == seq![110u8, 97u8, 110u8]
}

/// Whether `s` is a decimal number as the standard library reads one for a
/// binary floating-point type: an optional sign, then `inf`, `infinity`,
/// `nan`, or digits with an optional point and an optional exponent.
pub open spec fn is_number(s: Seq<u8>) -> bool {
    is_special_number(strip_sign(s)) || is_plain_number(strip_sign(s))
}

/// What a field holds in a slot for a truth value.
pub open spec fn bool_slot(field: Seq<u8>) -> Result<Option<bool>, FieldFault> {
    if is_absent(field) {
        Ok(None)
    } else if field.len() == 0 {
        Err(FieldFault::Empty)
    } else {
        match bool_value(field) {
            Some(b) => Ok(Some(b)),
            None => Err(FieldFault::Malformed),
        }
    }
}

/// What a field holds in a slot for a 32-bit whole number: an optional sign
/// and one or more digits that denote a number in range.
pub open spec fn int_slot(field: Seq<u8>) -> Result<Option<int>, FieldFault> {
    if is_absent(field) {
        Ok(None)
    } else if field.len() == 0 {
        Err(FieldFault::Empty)
    } else {
        let digits = strip_sign(field);
        if digits.len() == 0 || !all_digits(digits) {
            Err(FieldFault::Malformed)
        } else {
            let v = if field[0] == 45 {
                -digits_value(digits)
            } else {
                digits_value(digits)
            };
            if -2147483648 <= v <= 2147483647 {
                Ok(Some(v))
            } else {
                Err(FieldFault::OutOfRange)
            }
        }
    }
}

/// What a field holds in a slot for a temperature: the text of a number.
pub open spec fn number_slot(field: Seq<u8>) -> Result<Option<Seq<u8>>, FieldFault> {
    if is_absent(field) {
        Ok(None)
    } else if field.len() == 0 {
        Err(FieldFault::Empty)
    } else if is_number(field) {
        Ok(Some(field))
    } else {
        Err(FieldFault::Malformed)
    }
}

/// What a field holds in a slot for a capability: a truth value, where the
/// absent sentinel stands for "not capable".
pub open spec fn capability_slot(field: Seq<u8>) -> Result<bool, FieldFault> {
    match bool_slot(field) {
        Ok(Some(b)) => Ok(b),
        Ok(None) => Ok(false),
        Err(fault) => Err(fault),
    }
}

/// The identifier whose canonical text is `text`.
pub open spec fn id_of_text(text: Seq<u8>) -> u128 {
    value_of_digits(text)
}

/// A number kept as the text in which it was received. The library carries
/// temperatures without computing on them; who needs the value converts the
/// text, which is known to follow the grammar of a number.
#[derive(Debug, PartialEq, Eq)]
pub struct NumberText {
    text: Vec<u8>,
}

impl Clone for NumberText {
    fn clone(&self) -> (copy: NumberText)
        ensures
            copy@ == self@,
    {
        proof {
            use_type_invariant(self);
        }
        let text = crate::text::copy_range(self.text.as_slice(), 0, self.text.len());
        assert(text@ =~= self.text@);
        NumberText { text }
    }
}

impl View for NumberText {
    type V = Seq<u8>;

    closed spec fn view(&self) -> Seq<u8> {
        self.text@
    }
}

/// The five things a device may be able to report.
#[derive(Clone, Copy, Debug, PartialEq, Eq, Structural)]
pub struct Capabilities {
    pub humidity: bool,
    pub temp_c: bool,
    pub temp_f: bool,
    pub presence: bool,
    pub threshold_open: bool,
}

/// A reading as mathematical values.
pub struct ReadingView {
    pub source: u128,
    pub humidity: Option<int>,
    pub temp_cel: Option<Seq<u8>>,
    pub temp_fah: Option<Seq<u8>>,
    pub presence: Option<bool>,
    pub threshol: Option<bool>,
}

/// What one device reported at one time.
#[derive(Clone, Debug, PartialEq, Eq)]
pub struct SerialReading {
    pub source: DeviceId,
    pub humidity: Option<i32>,
    pub temp_cel: Option<NumberText>,
    pub temp_fah: Option<NumberText>,
    pub presence: Option<bool>,
    pub threshol: Option<bool>,
}

/// The view of an optional number text.
pub open spec fn number_view(number: Option<NumberText>) -> Option<Seq<u8>> {
    match number {
        Some(n) => Some(n@),
        None => None,
    }
}

/// The view of an optional 32-bit number.
pub open spec fn int_view(number: Option<i32>) -> Option<int> {
    match number {
        Some(n) => Some(n as int),
        None => None,
    }
}

impl View for SerialReading {
    type V = ReadingView;

    open spec fn view(&self) -> ReadingView {
        ReadingView {
            source: self.source.value,
            humidity: int_view(self.humidity),
            temp_cel: number_view(self.temp_cel),
            temp_fah: number_view(self.temp_fah),
            presence: self.presence,
            threshol: self.threshol,
        }
    }
}

/// A plaintext read as an enrollment request or as a reading.
#[derive(Clone, Debug, PartialEq, Eq)]
pub enum ParsedPayload {
    Enrollment(Capabilities),
    Reading(SerialReading),
}

/// The fields of a plaintext: the pieces between separators, once the white
/// space at the end of the text is left out.
pub open spec fn fields_of(text: Seq<u8>) -> Seq<Seq<u8>> {
    split(trim_end(text), SEPARATOR)
}

/// The reading that a plaintext holds, or why it holds none. The shape is
/// checked first, then the identifier, then the fields from left to right.
pub open spec fn reading_of(text: Seq<u8>) -> Result<ReadingView, ParseError> {
    let fields = fields_of(text);
    if fields.len() != 6 {
        Err(ParseError::InvalidShape)
    } else if !is_simple_text(fields[0]) {
        Err(ParseError::InvalidId)
    } else if int_slot(fields[1]) is Err {
        Err(ParseError::InvalidField(1, int_slot(fields[1])->Err_0))
    } else if number_slot(fields[2]) is Err {
        Err(ParseError::InvalidField(2, number_slot(fields[2])->Err_0))
    } else if number_slot(fields[3]) is Err {
        Err(ParseError::InvalidField(3, number_slot(fields[3])->Err_0))
    } else if bool_slot(fields[4]) is Err {
        Err(ParseError::InvalidField(4, bool_slot(fields[4])->Err_0))
    } else if bool_slot(fields[5]) is Err {
        Err(ParseError::InvalidField(5, bool_slot(fields[5])->Err_0))
    } else {
        Ok(
            ReadingView {
                source: id_of_text(fields[0]),
                humidity: int_slot(fields[1])->Ok_0,
                temp_cel: number_slot(fields[2])->Ok_0,
                temp_fah: number_slot(fields[3])->Ok_0,
                presence: bool_slot(fields[4])->Ok_0,
                threshol: bool_slot(fields[5])->Ok_0,
            },
        )
    }
}

/// The capabilities that an enrollment request declares, or why a plaintext
/// is no enrollment request. The first field must be the reserved
/// identifier.
pub open spec fn enrollment_of(text: Seq<u8>) -> Result<Capabilities, ParseError> {
    let fields = fields_of(text);
    if fields.len() != 6 {
        Err(ParseError::InvalidShape)
    } else if fields[0] != simple_form(0) {
        Err(ParseError::InvalidId)
    } else if capability_slot(fields[1]) is Err {
        Err(ParseError::InvalidField(1, capability_slot(fields[1])->Err_0))
    } else if capability_slot(fields[2]) is Err {
        Err(ParseError::InvalidField(2, capability_slot(fields[2])->Err_0))
    } else if capability_slot(fields[3]) is Err {
        Err(ParseError::InvalidField(3, capability_slot(fields[3])->Err_0))
    } else if capability_slot(fields[4]) is Err {
        Err(ParseError::InvalidField(4, capability_slot(fields[4])->Err_0))
    } else if capability_slot(fields[5]) is Err {
        Err(ParseError::InvalidField(5, capability_slot(fields[5])->Err_0))
    } else {
        Ok(
            Capabilities {
                humidity: capability_slot(fields[1])->Ok_0,
                temp_c: capability_slot(fields[2])->Ok_0,
                temp_f: capability_slot(fields[3])->Ok_0,
                presence: capability_slot(fields[4])->Ok_0,
                threshold_open: capability_slot(fields[5])->Ok_0,
            },
        )
    }
}

/// Whether the values of a reading are of the types of their slots: the
/// humidity a 32-bit whole number, the temperatures texts of numbers.
pub open spec fn well_typed(reading: ReadingView) -> bool {
    &&& reading.humidity matches Some(h) ==> -2147483648 <= h <= 2147483647
    &&& reading.temp_cel matches Some(t) ==> is_number(t)
    &&& reading.temp_fah matches Some(t) ==> is_number(t)
}

/// Every reading that a plaintext holds is well typed, and names the device
/// whose canonical text is the first field.
pub proof fn lemma_reading_well_typed(text: Seq<u8>)
    requires
        reading_of(text) is Ok,
    ensures
        well_typed(reading_of(text)->Ok_0),
        simple_form(reading_of(text)->Ok_0.source) == fields_of(text)[0],
{
    let field = fields_of(text)[0];
    crate::device::lemma_simple_text_has_id(field);
}

/// A payload as mathematical values.
pub enum PayloadView {
    Enrollment(Capabilities),
    Reading(ReadingView),
}

impl View for ParsedPayload {
    type V = PayloadView;

    open spec fn view(&self) -> PayloadView {
        match self {
            ParsedPayload::Enrollment(capabilities) => PayloadView::Enrollment(*capabilities),
            ParsedPayload::Reading(reading) => PayloadView::Reading(reading@),
        }
    }
}

/// Whether a plaintext has six fields of which the first is the reserved
/// identifier, as a request for enrollment has.
pub open spec fn asks_for_enrollment(text: Seq<u8>) -> bool {
    fields_of(text).len() == 6 && fields_of(text)[0] == simple_form(0)
}

/// What a plaintext holds: the capabilities of a request for enrollment
/// where it names the reserved identifier, a reading where it names any
/// other.
pub open spec fn payload_of(text: Seq<u8>) -> Result<PayloadView, ParseError> {
    if asks_for_enrollment(text) {
        match enrollment_of(text) {
            Ok(capabilities) => Ok(PayloadView::Enrollment(capabilities)),
            Err(e) => Err(e),
        }
    } else {
        match reading_of(text) {
            Ok(reading) => Ok(PayloadView::Reading(reading)),
            Err(e) => Err(e),
        }
    }
}

/// The absent sentinel is absent in every kind of slot.
pub proof fn lemma_absent_sentinel(field: Seq<u8>)
    requires
        is_absent(field),
    ensures
        int_slot(field) == Ok::<Option<int>, FieldFault>(None),
        number_slot(field) == Ok::<Option<Seq<u8>>, FieldFault>(None),
        bool_slot(field) == Ok::<Option<bool>, FieldFault>(None),
        capability_slot(field) == Ok::<bool, FieldFault>(false),
{
}

/// A field that is not the sentinel and holds no value of the slot's type is
/// an error in that slot, and a field that is an error is neither.
pub proof fn lemma_slot_errors(field: Seq<u8>)
    ensures
        bool_slot(field) is Err <==> !is_absent(field) && bool_value(field) is None,
        number_slot(field) is Err <==> !is_absent(field) && !is_number(field),
        int_slot(field) is Err <==> !is_absent(field) && !(strip_sign(field).len() > 0
            && all_digits(strip_sign(field)) && -2147483648 <= (if field[0] == 45 {
            -digits_value(strip_sign(field))
        } else {
            digits_value(strip_sign(field))
        }) <= 2147483647),
{
    if field.len() == 0 {
        assert(fold(field).len() == 0);
        assert(word_true().len() == 4);
        assert(word_false().len() == 5);
        assert(!is_special_number(strip_sign(field))) by {
            assert(fold(strip_sign(field)).len() == 0);
            assert(seq![105u8, 110u8, 102u8].len() == 3);
            assert(seq![110u8, 97u8, 110u8].len() == 3);
            assert(seq![105u8, 110u8, 102u8, 105u8, 110u8, 105u8, 116u8, 121u8].len() == 8);
        }
    }
}

/// Leaving out white space at the end changes no count of a byte that is
/// not white space.
pub proof fn lemma_count_trim(s: Seq<u8>, b: u8)
    requires
        !is_space(b),
    ensures
        count(trim_end(s), b) == count(s, b),
    decreases s.len(),
{
    if s.len() > 0 && is_space(s.last()) {
        lemma_count_trim(s.drop_last(), b);
        lemma_count_drop_last(s, b);
    }
}

/// Taking away a last byte other than `b` changes no count of `b`.
pub proof fn lemma_count_drop_last(s: Seq<u8>, b: u8)
    requires
        s.len() > 0,
        s.last() != b,
    ensures
        count(s.drop_last(), b) == count(s, b),
    decreases s.len(),
{
    if s.len() > 1 {
        let rest = s.drop_first();
        let front = s.drop_last();
        assert(rest.last() == s.last());
        lemma_count_drop_last(rest, b);
        assert(front.drop_first() =~= rest.drop_last());
        assert(front[0] == s[0]);
        assert(count(front, b) == (if s[0] == b {
            1 + count(front.drop_first(), b)
        } else {
            count(front.drop_first(), b)
        }));
    } else {
        assert(s[0] == s.last());
        assert(s.drop_last().len() == 0);
        assert(s.drop_first().len() == 0);
        assert(count(s.drop_first(), b) == 0);
        assert(count(s.drop_last(), b) == 0);
    }
}

/// A text with exactly five separators always has the shape of a payload:
/// it holds a reading, or its identifier is not valid, or one of the fields
/// one to five has no value.
pub proof fn lemma_five_separators(text: Seq<u8>)
    requires
        count(text, SEPARATOR) == 5,
    ensures
        fields_of(text).len() == 6,
        reading_of(text) != Err::<ReadingView, ParseError>(ParseError::InvalidShape),
        enrollment_of(text) != Err::<Capabilities, ParseError>(ParseError::InvalidShape),
        match reading_of(text) {
            Ok(reading) => well_typed(reading),
            Err(ParseError::InvalidId) => true,
            Err(ParseError::InvalidField(i, _)) => 1 <= i <= 5,
            Err(ParseError::InvalidShape) => false,
        },
{
    lemma_count_trim(text, SEPARATOR);
    lemma_split_len(trim_end(text), SEPARATOR);
    if reading_of(text) is Ok {
        lemma_reading_well_typed(text);
    }
}

/// A text holds a reading or is refused for its shape exactly by the number
/// of its separators.
pub proof fn lemma_shape_by_count(text: Seq<u8>)
    ensures
        reading_of(text) == Err::<ReadingView, ParseError>(ParseError::InvalidShape) <==> count(
            text,
            SEPARATOR,
        ) != 5,
{
    lemma_count_trim(text, SEPARATOR);
    lemma_split_len(trim_end(text), SEPARATOR);
}

/// Whether a field is the absent sentinel.
pub fn field_is_absent(field: &[u8]) -> (absent: bool)
    ensures
        absent == is_absent(field@),
{
    field.len() == 1 && (field[0] == 65 || field[0] == 97)
}

/// Reads a truth value from a field of a payload.
pub fn parse_str_to_bool(item: &[u8]) -> (parsed: Result<Option<bool>, FieldFault>)
    ensures
        parsed == bool_slot(item@),
{
    if field_is_absent(item) {
        return Ok(None);
    }
    if item.len() == 0 {
        return Err(FieldFault::Empty);
    }
    let yes: [u8; 4] = [116, 114, 117, 101];
    let no: [u8; 5] = [102, 97, 108, 115, 101];
    assert(yes@ =~= word_true());
    assert(no@ =~= word_false());
    if matches_ignoring_case(item, yes.as_slice()) {
        Ok(Some(true))
    } else if matches_ignoring_case(item, no.as_slice()) {
        Ok(Some(false))
    } else {
        Err(FieldFault::Malformed)
    }
}

/// The field without a sign at its start.
fn without_sign(field: &[u8]) -> (rest: &[u8])
    ensures
        rest@ == strip_sign(field@),
{
    if field.len() > 0 && (field[0] == 43 || field[0] == 45) {
        let rest = slice_subrange(field, 1, field.len());
        assert(rest@ =~= field@.drop_first());
        rest
    } else {
        field
    }
}

/// Whether a field holds digits only.
fn is_all_digits(field: &[u8]) -> (all: bool)
    ensures
        all == all_digits(field@),
{
    let mut i: usize = 0;
    while i < field.len()
        invariant
            i <= field@.len(),
            forall|k: int| 0 <= k < i ==> is_digit(#[trigger] field@[k]),
        decreases field@.len() - i,
    {
        if !(48 <= field[i] && field[i] <= 57) {
            return false;
        }
        i = i + 1;
    }
    true
}

/// How many digits stand at the start of a field.
fn digits_at_start(field: &[u8]) -> (n: usize)
    ensures
        n == leading_digits(field@),
        n <= field@.len(),
{
    let mut i: usize = 0;
    assert(field@.subrange(0, field@.len() as int) =~= field@);
    while i < field.len() && 48 <= field[i] && field[i] <= 57
        invariant
            i <= field@.len(),
            leading_digits(field@) == i + leading_digits(
                field@.subrange(i as int, field@.len() as int),
            ),
        decreases field@.len() - i,
    {
        assert(field@.subrange(i as int, field@.len() as int).drop_first() =~= field@.subrange(
            i as int + 1,
            field@.len() as int,
        ));
        i = i + 1;
    }
    i
}

/// The value of a longer run of digits is the value of a shorter one, times
/// ten, plus the next digit; and it never gets smaller.
proof fn lemma_digits_step(digits: Seq<u8>, i: int)
    requires
        0 <= i < digits.len(),
        all_digits(digits),
    ensures
        digits_value(digits.subrange(0, i + 1)) == digits_value(digits.subrange(0, i)) * 10 + (
        digits[i] - 48),
        digits_value(digits.subrange(0, i)) >= 0,
        digits_value(digits.subrange(0, i + 1)) >= digits_value(digits.subrange(0, i)),
    decreases i,
{
    assert(digits.subrange(0, i + 1).drop_last() =~= digits.subrange(0, i));
    assert(is_digit(digits[i]));
    if i > 0 {
        lemma_digits_step(digits, i - 1);
    }
}

/// Reads a 32-bit whole number from a field of a payload.
pub fn parse_str_to_int(item: &[u8]) -> (parsed: Result<Option<i32>, FieldFault>)
    ensures
        parsed is Ok <==> int_slot(item@) is Ok,
        parsed is Ok ==> int_view(parsed->Ok_0) == int_slot(item@)->Ok_0,
        parsed is Err ==> parsed->Err_0 == int_slot(item@)->Err_0,
{
    if field_is_absent(item) {
        return Ok(None);
    }
    if item.len() == 0 {
        return Err(FieldFault::Empty);
    }
    let negative: bool = item[0] == 45;
    let digits = without_sign(item);
    if digits.len() == 0 || !is_all_digits(digits) {
        return Err(FieldFault::Malformed);
    }
    let limit: u64 = 2147483648;
    let mut acc: u64 = 0;
    let mut over: bool = false;
    let mut i: usize = 0;
    while i < digits.len()
        invariant
            i <= digits@.len(),
            all_digits(digits@),
            limit == 2147483648,
            !over ==> acc == digits_value(digits@.subrange(0, i as int)) && acc <= limit,
            over ==> digits_value(digits@.subrange(0, i as int)) > limit,
        decreases digits@.len() - i,
    {
        proof {
            lemma_digits_step(digits@, i as int);
        }
        if !over {
            let d: u64 = (digits[i] - 48) as u64;
            acc = acc * 10 + d;
            if acc > limit {
                over = true;
            }
        }
        i = i + 1;
    }
    assert(digits@.subrange(0, i as int) =~= digits@);
    if over {
        return Err(FieldFault::OutOfRange);
    }
    if negative {
        if acc == limit {
            Ok(Some(i32::MIN))
        } else {
            let v: i32 = acc as i32;
            Ok(Some(0 - v))
        }
    } else if acc == limit {
        Err(FieldFault::OutOfRange)
    } else {
        Ok(Some(acc as i32))
    }
}

/// Whether a field is an exponent part.
fn field_is_exponent(field: &[u8]) -> (yes: bool)
    ensures
        yes == is_exponent(field@),
{
    if field.len() == 0 {
        return false;
    }
    if !(field[0] == 101 || field[0] == 69) {
        return false;
    }
    let after = slice_subrange(field, 1, field.len());
    assert(after@ =~= field@.drop_first());
    let digits = without_sign(after);
    digits.len() >= 1 && is_all_digits(digits)
}

/// Whether a field is digits with an optional point and exponent.
fn field_is_plain_number(field: &[u8]) -> (yes: bool)
    ensures
        yes == is_plain_number(field@),
{
    let whole = digits_at_start(field);
    let rest = slice_subrange(field, whole, field.len());
    if rest.len() > 0 && rest[0] == 46 {
        let after = slice_subrange(rest, 1, rest.len());
        assert(after@ =~= rest@.drop_first());
        let fraction = digits_at_start(after);
        let tail = slice_subrange(rest, 1 + fraction, rest.len());
        whole + fraction >= 1 && (tail.len() == 0 || field_is_exponent(tail))
    } else {
        whole >= 1 && (rest.len() == 0 || field_is_exponent(rest))
    }
}

/// Whether a field names infinity or not-a-number.
fn field_is_special_number(field: &[u8]) -> (yes: bool)
    ensures
        yes == is_special_number(field@),
{
    let inf: [u8; 3] = [105, 110, 102];
    let infinity: [u8; 8] = [105, 110, 102, 105, 110, 105, 116, 121];
    let nan: [u8; 3] = [110, 97, 110];
    assert(inf@ =~= seq![105u8, 110u8, 102u8]);
    assert(infinity@ =~= seq![105u8, 110u8, 102u8, 105u8, 110u8, 105u8, 116u8, 121u8]);
    assert(nan@ =~= seq![110u8, 97u8, 110u8]);
    matches_ignoring_case(field, inf.as_slice()) || matches_ignoring_case(
        field,
        infinity.as_slice(),
    ) || matches_ignoring_case(field, nan.as_slice())
}

impl NumberText {
    #[verifier::type_invariant]
    spec fn follows_grammar(self) -> bool {
        is_number(self.text@)
    }

    /// Keeps a text that follows the grammar of a number; refuses any other.
    pub fn new(text: &[u8]) -> (number: Option<NumberText>)
        ensures
            number is Some <==> is_number(text@),
            number is Some ==> number->0@ == text@,
    {
        let body = without_sign(text);
        if field_is_special_number(body) || field_is_plain_number(body) {
            let copy = crate::text::copy_range(text, 0, text.len());
            assert(copy@ =~= text@);
            assert(is_number(copy@));
            Some(NumberText { text: copy })
        } else {
            None
        }
    }

    /// The text of the number.
    pub fn as_bytes(&self) -> (text: &[u8])
        ensures
            text@ == self@,
            is_number(text@),
    {
        proof {
            use_type_invariant(self);
        }
        self.text.as_slice()
    }
}

/// Reads a temperature from a field of a payload.
pub fn parse_str_to_float(item: &[u8]) -> (parsed: Result<Option<NumberText>, FieldFault>)
    ensures
        parsed is Ok <==> number_slot(item@) is Ok,
        parsed is Ok ==> number_view(parsed->Ok_0) == number_slot(item@)->Ok_0,
        parsed is Err ==> parsed->Err_0 == number_slot(item@)->Err_0,
{
    if field_is_absent(item) {
        return Ok(None);
    }
    if item.len() == 0 {
        return Err(FieldFault::Empty);
    }
    match NumberText::new(item) {
        Some(number) => {
            assert(item@.subrange(0, item@.len() as int) =~= item@);
            Ok(Some(number))
        },
        None => Err(FieldFault::Malformed),
    }
}

/// Tells the absent sentinel from every other field: `Ok(true)` for the
/// sentinel, an error for anything else.
pub fn parse_item_for_absent(item: &[u8]) -> (parsed: Result<bool, FieldFault>)
    ensures
        parsed is Ok <==> is_absent(item@),
        parsed is Ok ==> parsed->Ok_0,
        parsed is Err ==> parsed->Err_0 == (if item@.len() == 0 {
            FieldFault::Empty
        } else {
            FieldFault::Malformed
        }),
{
    if field_is_absent(item) {
        Ok(true)
    } else if item.len() == 0 {
        Err(FieldFault::Empty)
    } else {
        Err(FieldFault::Malformed)
    }
}

/// Reads a capability flag from a field of an enrollment request.
pub fn parse_capability(item: &[u8]) -> (parsed: Result<bool, FieldFault>)
    ensures
        parsed == capability_slot(item@),
{
    match parse_str_to_bool(item) {
        Ok(Some(b)) => Ok(b),
        Ok(None) => Ok(false),
        Err(fault) => Err(fault),
    }
}

/// The fields of a plaintext.
pub fn payload_fields(text: &[u8]) -> (fields: Vec<Vec<u8>>)
    ensures
        fields@.len() == fields_of(text@).len(),
        forall|k: int| 0 <= k < fields@.len() ==> (#[trigger] fields@[k])@ == fields_of(text@)[k],
{
    let n = trimmed_len(text);
    let trimmed = slice_subrange(text, 0, n);
    split_fields(trimmed, SEPARATOR)
}

impl SerialReading {
    /// A reading of the given device in which every value is absent.
    pub fn new(source: DeviceId) -> (reading: SerialReading)
        ensures
            reading@ == (ReadingView {
                source: source.value,
                humidity: None,
                temp_cel: None,
                temp_fah: None,
                presence: None,
                threshol: None,
            }),
    {
        SerialReading {
            source,
            humidity: None,
            temp_cel: None,
            temp_fah: None,
            presence: None,
            threshol: None,
        }
    }

    /// Reads a reading from the bytes of a plaintext.
    pub fn parse(text: &[u8]) -> (parsed: Result<SerialReading, ParseError>)
        ensures
            parsed is Ok <==> reading_of(text@) is Ok,
            parsed is Ok ==> parsed->Ok_0@ == reading_of(text@)->Ok_0,
            parsed is Ok ==> simple_form(parsed->Ok_0.source.value) == fields_of(text@)[0],
            parsed is Err ==> parsed->Err_0 == reading_of(text@)->Err_0,
    {
        let fields = payload_fields(text);
        if fields.len() != 6 {
            return Err(ParseError::InvalidShape);
        }
        let source = match DeviceId::parse_simple(fields[0].as_slice()) {
            Some(id) => id,
            None => {
                return Err(ParseError::InvalidId);
            },
        };
        let humidity = match parse_str_to_int(fields[1].as_slice()) {
            Ok(v) => v,
            Err(fault) => {
                return Err(ParseError::InvalidField(1, fault));
            },
        };
        let temp_cel = match parse_str_to_float(fields[2].as_slice()) {
            Ok(v) => v,
            Err(fault) => {
                return Err(ParseError::InvalidField(2, fault));
            },
        };
        let temp_fah = match parse_str_to_float(fields[3].as_slice()) {
            Ok(v) => v,
            Err(fault) => {
                return Err(ParseError::InvalidField(3, fault));
            },
        };
        let presence = match parse_str_to_bool(fields[4].as_slice()) {
            Ok(v) => v,
            Err(fault) => {
                return Err(ParseError::InvalidField(4, fault));
            },
        };
        let threshol = match parse_str_to_bool(fields[5].as_slice()) {
            Ok(v) => v,
            Err(fault) => {
                return Err(ParseError::InvalidField(5, fault));
            },
        };
        Ok(SerialReading { source, humidity, temp_cel, temp_fah, presence, threshol })
    }

    /// Reads a reading from a plaintext.
    pub fn parse_str_to_msg(msg: String) -> (parsed: Result<SerialReading, ParseError>)
        ensures
            parsed is Ok <==> reading_of(vstd::utf8::encode_utf8(msg@)) is Ok,
            parsed is Ok ==> parsed->Ok_0@ == reading_of(vstd::utf8::encode_utf8(msg@))->Ok_0,
            parsed is Err ==> parsed->Err_0 == reading_of(vstd::utf8::encode_utf8(msg@))->Err_0,
    {
        SerialReading::parse(msg.as_str().as_bytes())
    }
}

impl ParsedPayload {
    /// Reads a plaintext as a request for enrollment or as a reading.
    pub fn parse(text: &[u8]) -> (parsed: Result<ParsedPayload, ParseError>)
        ensures
            parsed is Ok <==> payload_of(text@) is Ok,
            parsed is Ok ==> parsed->Ok_0@ == payload_of(text@)->Ok_0,
            parsed is Err ==> parsed->Err_0 == payload_of(text@)->Err_0,
    {
        let fields = payload_fields(text);
        let nil = DeviceId::nil().to_simple();
        if fields.len() == 6 && crate::text::same_bytes(fields[0].as_slice(), nil.as_slice()) {
            match Capabilities::parse(text) {
                Ok(capabilities) => Ok(ParsedPayload::Enrollment(capabilities)),
                Err(e) => Err(e),
            }
        } else {
            match SerialReading::parse(text) {
                Ok(reading) => Ok(ParsedPayload::Reading(reading)),
                Err(e) => Err(e),
            }
        }
    }
}

impl Capabilities {
    /// Reads the capabilities that an enrollment request declares.
    pub fn parse(text: &[u8]) -> (parsed: Result<Capabilities, ParseError>)
        ensures
            parsed == enrollment_of(text@),
    {
        let fields = payload_fields(text);
        if fields.len() != 6 {
            return Err(ParseError::InvalidShape);
        }
        let nil = DeviceId::nil().to_simple();
        if !crate::text::same_bytes(fields[0].as_slice(), nil.as_slice()) {
            return Err(ParseError::InvalidId);
        }
        let humidity = match parse_capability(fields[1].as_slice()) {
            Ok(v) => v,
            Err(fault) => {
                return Err(ParseError::InvalidField(1, fault));
            },
        };
        let temp_c = match parse_capability(fields[2].as_slice()) {
            Ok(v) => v,
            Err(fault) => {
                return Err(ParseError::InvalidField(2, fault));
            },
        };
        let temp_f = match parse_capability(fields[3].as_slice()) {
            Ok(v) => v,
            Err(fault) => {
                return Err(ParseError::InvalidField(3, fault));
            },
        };
        let presence = match parse_capability(fields[4].as_slice()) {
            Ok(v) => v,
            Err(fault) => {
                return Err(ParseError::InvalidField(4, fault));
            },
        };
        let threshold_open = match parse_capability(fields[5].as_slice()) {
            Ok(v) => v,
            Err(fault) => {
                return Err(ParseError::InvalidField(5, fault));
            },
        };
        Ok(Capabilities { humidity, temp_c, temp_f, presence, threshold_open })
    }
}

} // verus!
