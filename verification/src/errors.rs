use vstd::prelude::*;

verus! {

/// Failure taxonomy for the codec boundary. Every operation reports
/// failure through a `Result` or `Option`; nothing panics and nothing
/// retries.
#[derive(Clone, Copy, Debug, PartialEq, Eq, Structural)]
pub enum CodecError {
    /// A zero-length or otherwise malformed argument.
    InvalidInput,
    /// The compressed or image stream is corrupt or unsupported.
    DecodeFailure,
    /// The encoder rejected a well-formed pixel buffer.
    EncodeFailure,
    /// The caller-supplied output capacity is too small for the result.
    BufferTooSmall,
    /// A raw pixel buffer is shorter than `width * height * 4`.
    InvalidBufferLength,
}

} // verus!
