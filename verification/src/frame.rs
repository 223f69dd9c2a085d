//! Decoding raw depth frames: little-endian 16-bit pixels, clamped to the
//! measuring range, with an optional 8-bit visualization scaling.

use vstd::prelude::*;
use vstd::pervasive::VecAdditionalExecFns;

use vstd::arithmetic::mul::lemma_mul_upper_bound;

use crate::error::ErrorKind;
use crate::util::{clamp_to_range, normalize_value, normalized_byte};

verus! {

/// Which kind of image a captured frame carries.
#[derive(Clone, Copy, Debug, PartialEq, Eq, Structural)]
pub enum FrameType {
    Depth,
    RGB,
}

/// The little-endian 16-bit value stored at pixel `i` of a raw frame.
pub open spec fn le16_at(frame: Seq<u8>, i: int) -> int {
    frame[2 * i] + 256 * frame[2 * i + 1]
}

/// The decoded depth of pixel `i`: the raw little-endian value clamped
/// to the measuring range `[min, max]`.
pub open spec fn decoded_depth(frame: Seq<u8>, i: int, min: u16, max: u16) -> int {
    clamp_to_range(le16_at(frame, i), min as int, max as int)
}

/// The whole decoded frame: `pc` clamped depths in pixel order.
pub open spec fn decoded_frame(frame: Seq<u8>, pc: int, min: u16, max: u16) -> Seq<int> {
    Seq::new(pc as nat, |i: int| decoded_depth(frame, i, min, max))
}

/// Whatever the raw 16-bit value was, the decoded depth lies in the
/// measuring range.
pub proof fn lemma_decoded_depth_in_range(frame: Seq<u8>, i: int, min: u16, max: u16)
    requires
        min <= max,
    ensures
        min <= decoded_depth(frame, i, min, max) <= max,
{
}

/// Decodes a raw depth frame into millimeters, one clamped `u16` per
/// pixel of `depth_mm`.
///
/// The raw buffer must hold two bytes per output pixel; a shorter buffer
/// is rejected with [`ErrorKind::BufferTooShort`] and leaves `depth_mm`
/// untouched.
pub fn get_depth_mm_u16_frame(
    frame: &[u8],
    min_depth: u16,
    max_depth: u16,
    depth_mm: &mut Vec<u16>,
) -> (r: Result<(), ErrorKind>)
    requires
        min_depth <= max_depth,
    ensures
        final(depth_mm).len() == old(depth_mm).len(),
        frame@.len() / 2 < old(depth_mm).len() ==> r == Err::<(), ErrorKind>(
            ErrorKind::BufferTooShort,
        ) && final(depth_mm)@ == old(depth_mm)@,
        frame@.len() / 2 >= old(depth_mm).len() ==> r == Ok::<(), ErrorKind>(()) && forall|i: int|
            0 <= i < old(depth_mm).len() ==> final(depth_mm)@[i] == decoded_depth(
                frame@,
                i,
                min_depth,
                max_depth,
            ),
{
    let pixel_count = depth_mm.len();
    let frame_len = frame.len();
    if frame_len / 2 < pixel_count {
        return Err(ErrorKind::BufferTooShort);
    }
    let mut i: usize = 0;
    while i < pixel_count
        invariant
            min_depth <= max_depth,
            i <= pixel_count,
            depth_mm.len() == pixel_count,
            2 * pixel_count <= frame_len,
            frame_len == frame@.len(),
            forall|j: int|
                0 <= j < i ==> depth_mm@[j] == decoded_depth(frame@, j, min_depth, max_depth),
        decreases pixel_count - i,
    {
        let lo = frame[2 * i];
        let hi = frame[2 * i + 1];
        let raw: u16 = lo as u16 + hi as u16 * 256;
        let clamped = if raw < min_depth {
            min_depth
        } else if raw > max_depth {
            max_depth
        } else {
            raw
        };
        depth_mm.set(i, clamped);
        i = i + 1;
    }
    Ok(())
}

/// Decodes a raw depth frame and scales each pixel to a byte, so that
/// `min_depth` maps to `0` and `max_depth` to `255`.
///
/// The raw buffer must hold two bytes per output pixel; a shorter buffer
/// is rejected with [`ErrorKind::BufferTooShort`] and leaves
/// `normalized_depth` untouched.
pub fn get_normalized_depth(
    frame: &[u8],
    min_depth: u16,
    max_depth: u16,
    normalized_depth: &mut Vec<u8>,
) -> (r: Result<(), ErrorKind>)
    requires
        min_depth < max_depth,
    ensures
        final(normalized_depth).len() == old(normalized_depth).len(),
        frame@.len() / 2 < old(normalized_depth).len() ==> r == Err::<(), ErrorKind>(
            ErrorKind::BufferTooShort,
        ) && final(normalized_depth)@ == old(normalized_depth)@,
        frame@.len() / 2 >= old(normalized_depth).len() ==> r == Ok::<(), ErrorKind>(()) && forall|
            i: int,
        |
            0 <= i < old(normalized_depth).len() ==> final(normalized_depth)@[i] == normalized_byte(
                le16_at(frame@, i),
                min_depth as int,
                max_depth as int,
            ),
{
    let pixel_count = normalized_depth.len();
    let frame_len = frame.len();
    if frame_len / 2 < pixel_count {
        return Err(ErrorKind::BufferTooShort);
    }
    let mut i: usize = 0;
    while i < pixel_count
        invariant
            min_depth < max_depth,
            i <= pixel_count,
            normalized_depth.len() == pixel_count,
            2 * pixel_count <= frame_len,
            frame_len == frame@.len(),
            forall|j: int|
                0 <= j < i ==> normalized_depth@[j] == normalized_byte(
                    le16_at(frame@, j),
                    min_depth as int,
                    max_depth as int,
                ),
        decreases pixel_count - i,
    {
        let lo = frame[2 * i];
        let hi = frame[2 * i + 1];
        let raw: u16 = lo as u16 + hi as u16 * 256;
        let b = normalize_value(raw, min_depth, max_depth);
        normalized_depth.set(i, b);
        i = i + 1;
    }
    Ok(())
}

/// Whether a frame of `width` by `height` pixels has exactly
/// `pixel_count` pixels.
pub fn check_pixel_count(width: u32, height: u32, pixel_count: usize) -> (r: bool)
    ensures
        r <==> width * height == pixel_count,
{
    proof {
        lemma_mul_upper_bound(width as int, u32::MAX as int, height as int, u32::MAX as int);
    }
    width as u64 * height as u64 == pixel_count as u64
}

} // verus!
