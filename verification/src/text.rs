//! Byte-level text primitives shared by the payload parser and the
//! enrollment handshake: trimming, splitting on a separator, ASCII case
//! folding and decimal digits.

use vstd::prelude::*;

verus! {

/// ASCII white space: the blank and the control characters from tab to
/// carriage return.
pub open spec fn is_space(b: u8) -> bool {
    b == 32 || (9 <= b <= 13)
}

/// `s` without the white space at its end.
pub open spec fn trim_end(s: Seq<u8>) -> Seq<u8>
    decreases s.len(),
{
    if s.len() > 0 && is_space(s.last()) {
        trim_end(s.drop_last())
    } else {
        s
    }
}

/// The position of the first `b` in `s`, or the length of `s` where there is none.
pub open spec fn first_index(s: Seq<u8>, b: u8) -> int
    decreases s.len(),
{
    if s.len() == 0 {
        0
    } else if s[0] == b {
        0
    } else {
        1 + first_index(s.drop_first(), b)
    }
}

/// How often `b` occurs in `s`.
pub open spec fn count(s: Seq<u8>, b: u8) -> nat
    decreases s.len(),
{
    if s.len() == 0 {
        0
    } else if s[0] == b {
        1 + count(s.drop_first(), b)
    } else {
        count(s.drop_first(), b)
    }
}

/// The pieces of `s` between occurrences of `sep`, in order. A sequence with
/// `n` separators has `n + 1` pieces, some of which may be empty.
pub open spec fn split(s: Seq<u8>, sep: u8) -> Seq<Seq<u8>>
    decreases s.len(),
{
    let i = first_index(s, sep);
    if 0 <= i < s.len() {
        seq![s.subrange(0, i)] + split(s.subrange(i + 1, s.len() as int), sep)
    } else {
        seq![s]
    }
}

/// The lower-case form of an ASCII letter; every other byte stays.
pub open spec fn lower(b: u8) -> u8 {
    if 65 <= b <= 90 {
        (b + 32) as u8
    } else {
        b
    }
}

/// `s` with its ASCII letters in lower case.
pub open spec fn fold(s: Seq<u8>) -> Seq<u8> {
    Seq::new(s.len(), |i: int| lower(s[i]))
}

/// The lower-case hexadecimal digit that stands for a value below sixteen.
pub open spec fn hex_digit(n: int) -> u8 {
    if n < 10 {
        (48 + n) as u8
    } else {
        (87 + n) as u8
    }
}

/// Whether a byte is one of `0`-`9` or `a`-`f`.
pub open spec fn is_lower_hex(b: u8) -> bool {
    (48 <= b <= 57) || (97 <= b <= 102)
}

/// The text of `bytes` in lower-case hexadecimal digits, two for each byte,
/// the high half first.
pub open spec fn hex_text(bytes: Seq<u8>) -> Seq<u8> {
    Seq::new(
        2 * bytes.len(),
        |i: int|
            if i % 2 == 0 {
                hex_digit(bytes[i / 2] as int / 16)
            } else {
                hex_digit(bytes[i / 2] as int % 16)
            },
    )
}

/// Whether a byte is a decimal digit.
pub open spec fn is_digit(b: u8) -> bool {
    48 <= b <= 57
}

/// Whether `s` holds decimal digits only.
pub open spec fn all_digits(s: Seq<u8>) -> bool {
    forall|i: int| 0 <= i < s.len() ==> is_digit(#[trigger] s[i])
}

/// The number that a run of decimal digits denotes.
pub open spec fn digits_value(s: Seq<u8>) -> int
    decreases s.len(),
{
    if s.len() == 0 {
        0
    } else {
        digits_value(s.drop_last()) * 10 + (s.last() - 48)
    }
}

/// How many decimal digits stand at the start of `s`.
pub open spec fn leading_digits(s: Seq<u8>) -> int
    decreases s.len(),
{
    if s.len() > 0 && is_digit(s[0]) {
        1 + leading_digits(s.drop_first())
    } else {
        0
    }
}

/// The first occurrence lies within the text, nothing before it is `b`, and
/// what stands there is `b`.
pub proof fn lemma_first_index_bounds(s: Seq<u8>, b: u8)
    ensures
        0 <= first_index(s, b) <= s.len(),
        forall|j: int| 0 <= j < first_index(s, b) ==> s[j] != b,
        first_index(s, b) < s.len() ==> s[first_index(s, b)] == b,
    decreases s.len(),
{
    if s.len() > 0 && s[0] != b {
        let rest = s.drop_first();
        lemma_first_index_bounds(rest, b);
        assert forall|j: int| 0 <= j < first_index(s, b) implies s[j] != b by {
            if j > 0 {
                assert(s[j] == rest[j - 1]);
            }
        }
        assert(first_index(rest, b) < rest.len() ==> rest[first_index(rest, b)] == s[first_index(
            s,
            b,
        )]);
    }
}

/// The first occurrence is where the first `k` bytes hold no `b` and the
/// next one, if there is one, is `b`.
pub proof fn lemma_first_index_is(s: Seq<u8>, b: u8, k: int)
    requires
        0 <= k <= s.len(),
        forall|j: int| 0 <= j < k ==> s[j] != b,
        k < s.len() ==> s[k] == b,
    ensures
        first_index(s, b) == k,
    decreases s.len(),
{
    if s.len() > 0 && k > 0 {
        let rest = s.drop_first();
        assert forall|j: int| 0 <= j < k - 1 implies rest[j] != b by {
            assert(rest[j] == s[j + 1]);
        }
        lemma_first_index_is(rest, b, k - 1);
    }
}

/// A text without `b` holds it zero times.
pub proof fn lemma_count_none(s: Seq<u8>, b: u8)
    requires
        forall|j: int| 0 <= j < s.len() ==> s[j] != b,
    ensures
        count(s, b) == 0,
    decreases s.len(),
{
    if s.len() > 0 {
        let rest = s.drop_first();
        assert forall|j: int| 0 <= j < rest.len() implies rest[j] != b by {
            assert(rest[j] == s[j + 1]);
        }
        lemma_count_none(rest, b);
    }
}

/// Counting after the first occurrence misses exactly that one.
pub proof fn lemma_count_after_first(s: Seq<u8>, b: u8)
    requires
        first_index(s, b) < s.len(),
    ensures
        count(s, b) == 1 + count(s.subrange(first_index(s, b) + 1, s.len() as int), b),
    decreases s.len(),
{
    lemma_first_index_bounds(s, b);
    if s[0] == b {
        assert(s.subrange(1, s.len() as int) =~= s.drop_first());
    } else {
        let rest = s.drop_first();
        lemma_count_after_first(rest, b);
        let i = first_index(rest, b);
        assert(rest.subrange(i + 1, rest.len() as int) =~= s.subrange(i + 2, s.len() as int));
    }
}

/// A text with `n` separators splits into `n + 1` pieces.
pub proof fn lemma_split_len(s: Seq<u8>, sep: u8)
    ensures
        split(s, sep).len() == count(s, sep) + 1,
    decreases s.len(),
{
    lemma_first_index_bounds(s, sep);
    let i = first_index(s, sep);
    if i < s.len() {
        lemma_count_after_first(s, sep);
        lemma_split_len(s.subrange(i + 1, s.len() as int), sep);
    } else {
        lemma_count_none(s, sep);
    }
}

/// The length of `text` once the white space at its end is left out.
pub fn trimmed_len(text: &[u8]) -> (n: usize)
    ensures
        n <= text@.len(),
        text@.subrange(0, n as int) == trim_end(text@),
{
    let mut n: usize = text.len();
    assert(text@.subrange(0, n as int) =~= text@);
    while n > 0 && (text[n - 1] == 32 || (9 <= text[n - 1] && text[n - 1] <= 13))
        invariant
            n <= text@.len(),
            trim_end(text@) == trim_end(text@.subrange(0, n as int)),
        decreases n,
    {
        assert(text@.subrange(0, n as int).drop_last() =~= text@.subrange(0, n as int - 1));
        n = n - 1;
    }
    n
}

/// A copy of the bytes of `text` from `from` up to `to`.
pub fn copy_range(text: &[u8], from: usize, to: usize) -> (piece: Vec<u8>)
    requires
        from <= to <= text@.len(),
    ensures
        piece@ == text@.subrange(from as int, to as int),
{
    let mut piece: Vec<u8> = Vec::new();
    let mut i: usize = from;
    while i < to
        invariant
            from <= i <= to <= text@.len(),
            piece@ == text@.subrange(from as int, i as int),
        decreases to - i,
    {
        piece.push(text[i]);
        assert(piece@ =~= text@.subrange(from as int, i as int + 1));
        i = i + 1;
    }
    piece
}

/// Splits `text` at every `sep`.
pub fn split_fields(text: &[u8], sep: u8) -> (fields: Vec<Vec<u8>>)
    ensures
        fields@.len() == split(text@, sep).len(),
        forall|k: int| 0 <= k < fields@.len() ==> (#[trigger] fields@[k])@ == split(text@, sep)[k],
{
    let n: usize = text.len();
    let mut fields: Vec<Vec<u8>> = Vec::new();
    let mut start: usize = 0;
    let mut i: usize = 0;
    let ghost mut done: Seq<Seq<u8>> = Seq::empty();
    assert(text@.subrange(0, n as int) =~= text@);
    while i < n
        invariant
            n == text@.len(),
            start <= i <= n,
            forall|j: int| start <= j < i ==> text@[j] != sep,
            done.len() == fields@.len(),
            forall|k: int| 0 <= k < fields@.len() ==> (#[trigger] fields@[k])@ == done[k],
            split(text@, sep) == done + split(text@.subrange(start as int, n as int), sep),
        decreases n - i,
    {
        if text[i] == sep {
            let piece = copy_range(text, start, i);
            proof {
                let tail = text@.subrange(start as int, n as int);
                assert forall|j: int| 0 <= j < i - start implies tail[j] != sep by {
                    assert(tail[j] == text@[start + j]);
                }
                lemma_first_index_is(tail, sep, i - start);
                assert(tail.subrange(0, i - start) =~= text@.subrange(start as int, i as int));
                assert(tail.subrange(i - start + 1, tail.len() as int) =~= text@.subrange(
                    i as int + 1,
                    n as int,
                ));
                assert(done + (seq![piece@] + split(text@.subrange(i as int + 1, n as int), sep))
                    =~= done.push(piece@) + split(text@.subrange(i as int + 1, n as int), sep));
                done = done.push(piece@);
            }
            fields.push(piece);
            start = i + 1;
        }
        i = i + 1;
    }
    let piece = copy_range(text, start, n);
    proof {
        let tail = text@.subrange(start as int, n as int);
        assert forall|j: int| 0 <= j < tail.len() implies tail[j] != sep by {
            assert(tail[j] == text@[start + j]);
        }
        lemma_first_index_is(tail, sep, tail.len() as int);
        assert(done + seq![piece@] =~= done.push(piece@));
        done = done.push(piece@);
    }
    fields.push(piece);
    fields
}

/// Whether `text` reads as `word` when letter case is ignored. `word` is
/// expected in lower case.
pub fn matches_ignoring_case(text: &[u8], word: &[u8]) -> (same: bool)
    ensures
        same == (fold(text@) == word@),
{
    if text.len() != word.len() {
        assert(fold(text@).len() != word@.len());
        return false;
    }
    let mut i: usize = 0;
    while i < text.len()
        invariant
            i <= text@.len(),
            text@.len() == word@.len(),
            forall|j: int| 0 <= j < i ==> lower(text@[j]) == word@[j],
        decreases text@.len() - i,
    {
        let b = text[i];
        let folded: u8 = if 65 <= b && b <= 90 {
            b + 32
        } else {
            b
        };
        if folded != word[i] {
            assert(fold(text@)[i as int] != word@[i as int]);
            return false;
        }
        i = i + 1;
    }
    assert(fold(text@) =~= word@);
    true
}

/// Whether two byte strings hold the same bytes.
pub fn same_bytes(a: &[u8], b: &[u8]) -> (same: bool)
    ensures
        same == (a@ == b@),
{
    if a.len() != b.len() {
        assert(a@.len() != b@.len());
        return false;
    }
    let mut i: usize = 0;
    while i < a.len()
        invariant
            i <= a@.len(),
            a@.len() == b@.len(),
            forall|j: int| 0 <= j < i ==> a@[j] == b@[j],
        decreases a@.len() - i,
    {
        if a[i] != b[i] {
            assert(a@[i as int] != b@[i as int]);
            return false;
        }
        i = i + 1;
    }
    assert(a@ =~= b@);
    true
}

/// Every byte of a hexadecimal text is a lower-case hexadecimal digit.
pub proof fn lemma_hex_text_digits(bytes: Seq<u8>)
    ensures
        hex_text(bytes).len() == 2 * bytes.len(),
        forall|i: int| 0 <= i < hex_text(bytes).len() ==> is_lower_hex(#[trigger] hex_text(bytes)[i]),
{
}

/// The lower-case hexadecimal digit of a value below sixteen.
fn hex_digit_of(n: u8) -> (digit: u8)
    requires
        n < 16,
    ensures
        digit == hex_digit(n as int),
{
    if n < 10 {
        48 + n
    } else {
        87 + n
    }
}

/// Writes bytes as lower-case hexadecimal text.
pub fn hex_encode(bytes: &[u8]) -> (text: Vec<u8>)
    ensures
        text@ == hex_text(bytes@),
{
    let mut text: Vec<u8> = Vec::new();
    let mut i: usize = 0;
    while i < bytes.len()
        invariant
            i <= bytes@.len(),
            text@.len() == 2 * i,
            forall|k: int| 0 <= k < 2 * i ==> text@[k] == hex_text(bytes@)[k],
        decreases bytes@.len() - i,
    {
        let b = bytes[i];
        text.push(hex_digit_of(b / 16));
        text.push(hex_digit_of(b % 16));
        i = i + 1;
    }
    assert(text@ =~= hex_text(bytes@));
    text
}

} // verus!
