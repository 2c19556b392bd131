//! Message boundaries on the serial line. During enrollment a message is a
//! line of text that ends with a line feed. Encrypted frames may hold any
//! byte, a line feed too, so once a device sends frames each one travels
//! behind its length: two bytes, low byte first.

use crate::error::SerialError;
use crate::text::{first_index, lemma_first_index_bounds, lemma_first_index_is};
use vstd::prelude::*;

verus! {

/// The byte that ends a line.
pub const LINE_FEED: u8 = 10;

/// The longest message that fits behind a two-byte length.
pub const MAX_PREFIXED: usize = 65535;

#[verifier::external_type_specification]
#[verifier::external_body]
pub struct ExBytesMut(bytes::BytesMut);

/// The bytes that a buffer holds, in order.
pub uninterp spec fn buffer_bytes(buffer: bytes::BytesMut) -> Seq<u8>;

/// Looks at the contents of a buffer through `BytesMut`'s `AsRef<[u8]>`.
#[verifier::external_body]
fn buffer_as_slice(buffer: &bytes::BytesMut) -> (contents: &[u8])
    ensures
        contents@ == buffer_bytes(*buffer),
{
    buffer.as_ref()
}

/// Takes the first `at` bytes out of a buffer with `BytesMut::split_to`: the
/// buffer keeps the bytes from `at` on, and the bytes before `at` are handed
/// out. The call panics where `at` is beyond the end.
#[verifier::external_body]
fn buffer_split_to(buffer: &mut bytes::BytesMut, at: usize) -> (head: Vec<u8>)
    requires
        at <= buffer_bytes(*old(buffer)).len(),
    ensures
        head@ == buffer_bytes(*old(buffer)).subrange(0, at as int),
        buffer_bytes(*final(buffer)) == buffer_bytes(*old(buffer)).subrange(
            at as int,
            buffer_bytes(*old(buffer)).len() as int,
        ),
{
    buffer.split_to(at).to_vec()
}

/// Appends to a buffer with `BytesMut::extend_from_slice`, which reserves
/// room and copies the bytes behind those that are there. Reserving panics
/// where the new length does not fit the machine's word.
#[verifier::external_body]
fn buffer_extend(buffer: &mut bytes::BytesMut, data: &[u8])
    requires
        buffer_bytes(*old(buffer)).len() + data@.len() <= usize::MAX,
    ensures
        buffer_bytes(*final(buffer)) == buffer_bytes(*old(buffer)) + data@,
{
    buffer.extend_from_slice(data)
}

/// A message taken from the front of a stream, and what stays behind it.
pub struct Taken {
    pub message: Seq<u8>,
    pub rest: Seq<u8>,
}

/// The first line of a stream, line feed included, and what follows it;
/// `None` while no line feed has arrived.
pub open spec fn first_line(stream: Seq<u8>) -> Option<Taken> {
    let n = first_index(stream, LINE_FEED);
    if 0 <= n < stream.len() {
        Some(
            Taken {
                message: stream.subrange(0, n + 1),
                rest: stream.subrange(n + 1, stream.len() as int),
            },
        )
    } else {
        None
    }
}

/// The length that the first two bytes of a stream announce.
pub open spec fn announced(stream: Seq<u8>) -> int {
    stream[0] + 256 * stream[1]
}

/// The first length-prefixed message of a stream, without its prefix, and
/// what follows it; `None` while the message has not arrived in full.
pub open spec fn first_prefixed(stream: Seq<u8>) -> Option<Taken> {
    if stream.len() >= 2 && stream.len() >= 2 + announced(stream) {
        Some(
            Taken {
                message: stream.subrange(2, 2 + announced(stream)),
                rest: stream.subrange(2 + announced(stream), stream.len() as int),
            },
        )
    } else {
        None
    }
}

/// A message behind its two-byte length.
pub open spec fn prefixed(message: Seq<u8>) -> Seq<u8> {
    seq![(message.len() % 256) as u8, (message.len() / 256) as u8] + message
}

/// A line that has arrived stays the first line whatever arrives after it:
/// decoding may start over at any time.
pub proof fn lemma_line_restartable(stream: Seq<u8>, more: Seq<u8>)
    requires
        first_line(stream) is Some,
    ensures
        first_line(stream + more) == Some(
            Taken { message: first_line(stream)->0.message, rest: first_line(stream)->0.rest + more },
        ),
{
    lemma_first_index_bounds(stream, LINE_FEED);
    let n = first_index(stream, LINE_FEED);
    let whole = stream + more;
    lemma_first_index_is(whole, LINE_FEED, n);
    assert(whole.subrange(0, n + 1) =~= stream.subrange(0, n + 1));
    assert(whole.subrange(n + 1, whole.len() as int) =~= stream.subrange(
        n + 1,
        stream.len() as int,
    ) + more);
}

/// A line never holds a line feed before its last byte, and always ends in
/// one.
pub proof fn lemma_line_shape(stream: Seq<u8>)
    requires
        first_line(stream) is Some,
    ensures
        first_line(stream)->0.message.len() >= 1,
        first_line(stream)->0.message.last() == LINE_FEED,
        forall|i: int|
            0 <= i < first_line(stream)->0.message.len() - 1 ==> first_line(stream)->0.message[i]
                != LINE_FEED,
        first_line(stream)->0.message + first_line(stream)->0.rest == stream,
{
    lemma_first_index_bounds(stream, LINE_FEED);
    assert(first_line(stream)->0.message + first_line(stream)->0.rest =~= stream);
}

/// What was written behind a length is read back whole, whatever bytes it
/// holds and whatever follows it.
pub proof fn lemma_prefixed_round_trip(message: Seq<u8>, more: Seq<u8>)
    requires
        message.len() <= MAX_PREFIXED,
    ensures
        first_prefixed(prefixed(message) + more) == Some(Taken { message, rest: more }),
{
    let stream = prefixed(message) + more;
    assert(stream[0] == (message.len() % 256) as u8);
    assert(stream[1] == (message.len() / 256) as u8);
    assert(announced(stream) == message.len());
    assert(stream.subrange(2, 2 + announced(stream)) =~= message);
    assert(stream.subrange(2 + announced(stream), stream.len() as int) =~= more);
}

/// Cuts a stream of bytes into lines.
#[derive(Clone, Copy, Debug)]
pub struct LineCodec;

impl LineCodec {
    /// Takes the first line out of the buffer, line feed included. While no
    /// line feed has arrived the buffer stays as it is.
    pub fn decode(&mut self, src: &mut bytes::BytesMut) -> (item: Option<Vec<u8>>)
        ensures
            item is Some <==> first_line(buffer_bytes(*old(src))) is Some,
            item is Some ==> item->0@ == first_line(buffer_bytes(*old(src)))->0.message
                && buffer_bytes(*final(src)) == first_line(buffer_bytes(*old(src)))->0.rest,
            item is None ==> buffer_bytes(*final(src)) == buffer_bytes(*old(src)),
    {
        let contents = buffer_as_slice(src);
        let len: usize = contents.len();
        let mut n: usize = 0;
        while n < len && contents[n] != LINE_FEED
            invariant
                n <= len == contents@.len(),
                forall|j: int| 0 <= j < n ==> contents@[j] != LINE_FEED,
            decreases len - n,
        {
            n = n + 1;
        }
        proof {
            lemma_first_index_is(contents@, LINE_FEED, n as int);
        }
        if n < len {
            Some(buffer_split_to(src, n + 1))
        } else {
            None
        }
    }

    /// Writes a message as it is: who sends a line has ended it already.
    pub fn encode(&mut self, item: Vec<u8>, dst: &mut bytes::BytesMut)
        requires
            buffer_bytes(*old(dst)).len() + item@.len() <= usize::MAX,
        ensures
            buffer_bytes(*final(dst)) == buffer_bytes(*old(dst)) + item@,
    {
        buffer_extend(dst, item.as_slice());
    }
}

/// Cuts a stream of bytes into messages that travel behind their length.
#[derive(Clone, Copy, Debug)]
pub struct LengthCodec;

impl LengthCodec {
    /// Takes the first message out of the buffer and drops its prefix. While
    /// the message has not arrived in full the buffer stays as it is.
    pub fn decode(&mut self, src: &mut bytes::BytesMut) -> (item: Option<Vec<u8>>)
        ensures
            item is Some <==> first_prefixed(buffer_bytes(*old(src))) is Some,
            item is Some ==> item->0@ == first_prefixed(buffer_bytes(*old(src)))->0.message
                && buffer_bytes(*final(src)) == first_prefixed(buffer_bytes(*old(src)))->0.rest,
            item is None ==> buffer_bytes(*final(src)) == buffer_bytes(*old(src)),
    {
        let contents = buffer_as_slice(src);
        let len: usize = contents.len();
        if len < 2 {
            return None;
        }
        let n: usize = contents[0] as usize + 256 * (contents[1] as usize);
        if len - 2 < n {
            return None;
        }
        let ghost before = buffer_bytes(*src);
        let whole = buffer_split_to(src, 2 + n);
        let message = crate::text::copy_range(whole.as_slice(), 2, 2 + n);
        assert(message@ =~= before.subrange(2, 2 + n));
        Some(message)
    }

    /// Writes a message behind its length. A message of more than 65535
    /// bytes has no length of two bytes: it is refused and nothing is
    /// written.
    pub fn encode(&mut self, item: Vec<u8>, dst: &mut bytes::BytesMut) -> (written: Result<
        (),
        SerialError,
    >)
        requires
            buffer_bytes(*old(dst)).len() + item@.len() + 2 <= usize::MAX,
        ensures
            written is Ok <==> item@.len() <= MAX_PREFIXED,
            written is Ok ==> buffer_bytes(*final(dst)) == buffer_bytes(*old(dst)) + prefixed(
                item@,
            ),
            written is Err ==> written->Err_0 == SerialError::Framing && buffer_bytes(*final(dst))
                == buffer_bytes(*old(dst)),
    {
        let len: usize = item.len();
        if len > MAX_PREFIXED {
            return Err(SerialError::Framing);
        }
        let prefix: [u8; 2] = [(len % 256) as u8, (len / 256) as u8];
        let ghost before = buffer_bytes(*dst);
        buffer_extend(dst, prefix.as_slice());
        buffer_extend(dst, item.as_slice());
        assert(prefix@ =~= seq![(len % 256) as u8, (len / 256) as u8]);
        assert(before + prefix@ + item@ =~= before + prefixed(item@));
        Ok(())
    }
}

} // verus!
