//! The wire frame: an initialisation vector of sixteen bytes, a ciphertext of
//! one or more sixteen-byte blocks, and an authentication tag of thirty-two
//! bytes, one after the other without separators. Nothing here looks into
//! the ciphertext.

use crate::error::FrameError;
use vstd::prelude::*;

verus! {

/// Bytes of a frame that are not ciphertext: vector and tag.
pub const FRAME_OVERHEAD: usize = 48;

/// The length of the shortest frame.
pub const FRAME_MIN: usize = 64;

/// The three parts of a frame as mathematical sequences.
pub struct FrameView {
    pub iv: Seq<u8>,
    pub ciphertext: Seq<u8>,
    pub mac: Seq<u8>,
}

/// A frame taken apart.
#[derive(Clone, Debug, PartialEq, Eq)]
pub struct Frame {
    pub iv: [u8; 16],
    pub ciphertext: Vec<u8>,
    pub mac: [u8; 32],
}

impl View for Frame {
    type V = FrameView;

    open spec fn view(&self) -> FrameView {
        FrameView { iv: self.iv@, ciphertext: self.ciphertext@, mac: self.mac@ }
    }
}

/// Whether three sequences have the lengths of the parts of a frame.
pub open spec fn well_formed(parts: FrameView) -> bool {
    &&& parts.iv.len() == 16
    &&& parts.mac.len() == 32
    &&& parts.ciphertext.len() >= 16
    &&& parts.ciphertext.len() % 16 == 0
}

/// The bytes of a frame on the wire.
pub open spec fn assemble(parts: FrameView) -> Seq<u8> {
    parts.iv + parts.ciphertext + parts.mac
}

/// The parts of a byte string read as a frame, or why it is none.
pub open spec fn take_apart(bytes: Seq<u8>) -> Result<FrameView, FrameError> {
    if bytes.len() < 64 {
        Err(FrameError::TooShort)
    } else if (bytes.len() - 48) % 16 != 0 {
        Err(FrameError::BadAlignment)
    } else {
        Ok(
            FrameView {
                iv: bytes.subrange(0, 16),
                ciphertext: bytes.subrange(16, bytes.len() - 32),
                mac: bytes.subrange(bytes.len() - 32, bytes.len() as int),
            },
        )
    }
}

/// Taking apart what was assembled gives the parts back.
pub proof fn lemma_take_apart_assemble(parts: FrameView)
    requires
        well_formed(parts),
    ensures
        take_apart(assemble(parts)) == Ok::<FrameView, FrameError>(parts),
{
    let bytes = assemble(parts);
    assert(bytes.subrange(0, 16) =~= parts.iv);
    assert(bytes.subrange(16, bytes.len() - 32) =~= parts.ciphertext);
    assert(bytes.subrange(bytes.len() - 32, bytes.len() as int) =~= parts.mac);
}

/// Assembling what was taken apart gives the bytes back, and the parts of
/// every byte string that is a frame have the lengths of a frame's parts.
pub proof fn lemma_assemble_take_apart(bytes: Seq<u8>)
    requires
        take_apart(bytes) is Ok,
    ensures
        well_formed(take_apart(bytes)->Ok_0),
        assemble(take_apart(bytes)->Ok_0) == bytes,
{
    assert(assemble(take_apart(bytes)->Ok_0) =~= bytes);
}

/// Sixteen bytes of `bytes`, starting at `from`.
pub fn block16(bytes: &[u8], from: usize) -> (out: [u8; 16])
    requires
        from + 16 <= bytes@.len(),
    ensures
        out@ == bytes@.subrange(from as int, from + 16),
{
    let mut out = [0u8; 16];
    let len: usize = bytes.len();
    let mut i: usize = 0;
    while i < 16
        invariant
            i <= 16,
            from + 16 <= bytes@.len() == len,
            forall|k: int| 0 <= k < i ==> out@[k] == bytes@[from + k],
        decreases 16 - i,
    {
        out[i] = bytes[from + i];
        i = i + 1;
    }
    assert(out@ =~= bytes@.subrange(from as int, from + 16));
    out
}

/// Thirty-two bytes of `bytes`, starting at `from`.
pub fn block32(bytes: &[u8], from: usize) -> (out: [u8; 32])
    requires
        from + 32 <= bytes@.len(),
    ensures
        out@ == bytes@.subrange(from as int, from + 32),
{
    let mut out = [0u8; 32];
    let len: usize = bytes.len();
    let mut i: usize = 0;
    while i < 32
        invariant
            i <= 32,
            from + 32 <= bytes@.len() == len,
            forall|k: int| 0 <= k < i ==> out@[k] == bytes@[from + k],
        decreases 32 - i,
    {
        out[i] = bytes[from + i];
        i = i + 1;
    }
    assert(out@ =~= bytes@.subrange(from as int, from + 32));
    out
}

impl Frame {
    /// Takes a received byte string apart. Fails with `TooShort` below
    /// sixty-four bytes, and with `BadAlignment` where the part between
    /// vector and tag is not a whole number of blocks.
    pub fn parse(bytes: &[u8]) -> (parsed: Result<Frame, FrameError>)
        ensures
            parsed is Ok <==> take_apart(bytes@) is Ok,
            parsed is Ok ==> parsed->Ok_0@ == take_apart(bytes@)->Ok_0,
            parsed is Err ==> parsed->Err_0 == take_apart(bytes@)->Err_0,
    {
        let len: usize = bytes.len();
        if len < FRAME_MIN {
            return Err(FrameError::TooShort);
        }
        if (len - FRAME_OVERHEAD) % 16 != 0 {
            return Err(FrameError::BadAlignment);
        }
        let iv = block16(bytes, 0);
        let ciphertext = crate::text::copy_range(bytes, 16, len - 32);
        let mac = block32(bytes, len - 32);
        Ok(Frame { iv, ciphertext, mac })
    }

    /// Puts the three parts of a frame one after the other.
    pub fn build(iv: &[u8; 16], ciphertext: &[u8], mac: &[u8; 32]) -> (bytes: Vec<u8>)
        requires
            ciphertext@.len() >= 16,
            ciphertext@.len() % 16 == 0,
        ensures
            bytes@ == iv@ + ciphertext@ + mac@,
            take_apart(bytes@) == Ok::<FrameView, FrameError>(
                FrameView { iv: iv@, ciphertext: ciphertext@, mac: mac@ },
            ),
    {
        let mut bytes: Vec<u8> = Vec::new();
        bytes.extend_from_slice(iv.as_slice());
        bytes.extend_from_slice(ciphertext);
        bytes.extend_from_slice(mac.as_slice());
        proof {
            let parts = FrameView { iv: iv@, ciphertext: ciphertext@, mac: mac@ };
            assert(iv@.len() == 16 && mac@.len() == 32);
            lemma_take_apart_assemble(parts);
            assert(bytes@ == assemble(parts));
        }
        bytes
    }

    /// The bytes of this frame on the wire.
    pub fn to_bytes(&self) -> (bytes: Vec<u8>)
        ensures
            bytes@ == assemble(self@),
    {
        let mut bytes: Vec<u8> = Vec::new();
        bytes.extend_from_slice(self.iv.as_slice());
        bytes.extend_from_slice(self.ciphertext.as_slice());
        bytes.extend_from_slice(self.mac.as_slice());
        bytes
    }
}

} // verus!
