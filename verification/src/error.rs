//! Error values of the library.

use vstd::prelude::*;

verus! {

/// Why a byte string is no frame.
#[derive(Clone, Copy, Debug, PartialEq, Eq, Structural)]
pub enum FrameError {
    /// Fewer than sixty-four bytes: no room for an initialisation vector,
    /// one cipher block and an authentication tag.
    TooShort,
    /// The bytes between the initialisation vector and the tag are not a
    /// whole number of cipher blocks.
    BadAlignment,
}

/// Why a field of a payload has no value of the type its slot asks for.
#[derive(Clone, Copy, Debug, PartialEq, Eq, Structural)]
pub enum FieldFault {
    /// The field holds no byte at all.
    Empty,
    /// The field does not follow the grammar of its type.
    Malformed,
    /// The field is a whole number that the slot cannot hold.
    OutOfRange,
}

/// Why a plaintext is no payload.
#[derive(Clone, Copy, Debug, PartialEq, Eq, Structural)]
pub enum ParseError {
    /// The text does not consist of exactly six fields.
    InvalidShape,
    /// The first field is no device identifier in canonical form.
    InvalidId,
    /// The field at the given position, counted from zero, has no value.
    InvalidField(usize, FieldFault),
}

/// The keyed hash refused its key.
#[derive(Clone, Copy, Debug, PartialEq, Eq, Structural)]
pub struct KeyRejected;

/// The kinds of failure that the serial core tells apart.
#[derive(Clone, Copy, Debug, PartialEq, Eq, Structural)]
pub enum SerialError {
    /// The serial port could not be opened, read or written.
    Io,
    /// A frame was too short, misaligned or malformed.
    Framing,
    /// The authentication tag of a frame did not verify.
    Auth,
    /// Padding or text decoding failed after the tag had verified.
    Decrypt,
    /// A plaintext did not consist of six fields.
    Shape,
    /// A field of a plaintext had no value.
    Field,
    /// A plaintext named the wrong device, or a handshake reply was wrong.
    Protocol,
    /// A handshake step ran out of time.
    Timeout,
    /// The frame came from a banned device.
    Banned,
}

} // verus!
