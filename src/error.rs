use vstd::prelude::*;

verus! {

/// Why an image operation failed.
#[derive(Copy, Clone, Debug, Hash, PartialEq, Eq, Structural)]
pub enum ImageError {
    /// The channel that produces the bytes failed, or ended early.
    Io,
    /// The encoded data is malformed or cannot be decoded.
    Decoding,
}

/// Result of an image operation.
pub type ImageResult<T> = Result<T, ImageError>;

} // verus!
