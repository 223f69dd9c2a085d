//! Error taxonomy of the core.

use vstd::prelude::*;

verus! {

/// Why a configuration or a frame was rejected.
#[derive(Clone, Copy, Debug, PartialEq, Eq, Structural)]
pub enum ErrorKind {
    /// At construction: `min_depth_mm >= max_depth_mm`, `min_touch >= max_touch`,
    /// or an averaging window of length zero.
    InvalidRange,
    /// The raw buffer handed to `process` holds fewer than `2 * pixel_count` bytes.
    FrameSizeMismatch,
    /// `process` was called while the current capture is not a depth frame;
    /// the call is a no-op on the detector state.
    NotADepthFrame,
    /// The raw buffer handed to a decoder is too short for the requested
    /// number of pixels.
    BufferTooShort,
}

} // verus!
