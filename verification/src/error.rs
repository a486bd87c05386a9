//! The closed set of failure kinds of the codec.
//!
//! Every fallible step of decoding or encoding returns one of these values;
//! malformed input is always reported, never a cause of a panic.

use vstd::prelude::*;

verus! {

/// The errors that can occur when encoding or decoding packets.
#[derive(Debug, Clone, Copy, PartialEq, Eq, Structural)]
pub enum MessageError {
    /// Header-level structural issues.
    InvalidHeader,
    /// Buffer shorter than a header on decode; encoded size over the fixed
    /// maximum on encode.
    InvalidPacketLength,
    /// Token length nibble above 8, or buffer too short for the declared
    /// token.
    InvalidTokenLength,
    /// Option delta selector 15, or an option number that no delta can
    /// reach within 16 bits.
    InvalidOptionDelta,
    /// Option length selector 15, or too few bytes left for an extension
    /// byte or an option value.
    InvalidOptionLength,
    /// Option-content validation failures.
    InvalidOption,
    /// Decode produced more options than the fixed capacity.
    OptionsLimitExceeded,
    /// Concatenated path text would exceed the fixed path capacity.
    PathLengthExceeded,
}

/// The error that can occur when parsing a content-format number.
#[derive(Debug, Clone, Copy, PartialEq, Eq, Structural)]
pub struct InvalidContentFormat;

/// The error that can occur when parsing an observe option value.
#[derive(Debug, Clone, Copy, PartialEq, Eq, Structural)]
pub struct InvalidObserve;

/// The error that can occur when reading a numeric option value: the value
/// carries more bytes than the target numeric width.
#[derive(Debug, Clone, Copy, PartialEq, Eq, Structural)]
pub struct IncompatibleOptionValueFormat {
    /// How many bytes the option value holds.
    pub got: usize,
    /// How many bytes the target numeric type holds at most.
    pub expected: usize,
}

/// The errors that can occur when constructing a new block value.
#[derive(Debug, Clone, Copy, PartialEq, Eq)]
pub enum InvalidBlockValue {
    /// The block size has no power-of-two exponent encoding.
    SizeExponentEncodingError(usize),
    /// The size provided is outside the bounds of the target type.
    TypeBoundsError(core::num::TryFromIntError),
}

} // verus!
