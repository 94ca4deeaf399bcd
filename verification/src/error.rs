//! The ways in which building a picture or a sequence can be refused.

use vstd::prelude::*;

verus! {

/// Why a picture or a sequence of frames could not be built.
#[derive(Debug, Clone, Copy, PartialEq, Eq, Structural)]
pub enum FrameError {
    /// A raw planar dump has not the number of bytes that its width and
    /// height call for.
    SizeMismatch,
    /// The width or the height of a picture reaches the bound for conversion.
    TooLarge,
    /// The decoder rejected the bytes of a picture.
    Decode,
    /// A sequence was to hold no frame.
    Empty,
    /// A frame differs in width or height from the first frame of its
    /// sequence.
    MixedDimensions,
}

impl FrameError {
    /// A short description of the error.
    pub fn message(&self) -> (text: &'static str)
        ensures
            text@ == match *self {
                FrameError::SizeMismatch => "byte count does not match width and height"@,
                FrameError::TooLarge => "width or height exceeds the supported maximum"@,
                FrameError::Decode => "the picture could not be decoded"@,
                FrameError::Empty => "a sequence needs at least one frame"@,
                FrameError::MixedDimensions => "frames differ in width or height"@,
            },
    {
        match self {
            FrameError::SizeMismatch => "byte count does not match width and height",
            FrameError::TooLarge => "width or height exceeds the supported maximum",
            FrameError::Decode => "the picture could not be decoded",
            FrameError::Empty => "a sequence needs at least one frame",
            FrameError::MixedDimensions => "frames differ in width or height",
        }
    }
}

} // verus!
