use vstd::prelude::*;

verus! {

/// Errors of the sample/pixel transcoding pipeline.
#[derive(Clone, Copy, Debug, PartialEq, Eq, Structural)]
pub enum ConvError {
    /// The requested sample width is not 16 or 24 bits.
    UnsupportedBitDepth,
    /// The requested or inferred image cannot hold every sample.
    InsufficientCanvas,
    /// A sample lies outside the signed range of its bit depth, or the
    /// private chunk is present but its length field is not 8.
    MalformedChunk,
}

impl ConvError {
    /// A short human-readable description of the error.
    pub fn describe(&self) -> String {
        match self {
            ConvError::UnsupportedBitDepth => "unsupported bits per sample".to_string(),
            ConvError::InsufficientCanvas => "image dimensions too small for the samples".to_string(),
            ConvError::MalformedChunk => "malformed sample or dimension chunk".to_string(),
        }
    }
}

} // verus!
