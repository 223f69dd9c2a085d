//! Shared helpers: range clamping, 8-bit normalization and a frame counter.

use vstd::prelude::*;
use vstd::arithmetic::div_mod::{lemma_div_by_multiple, lemma_div_is_ordered, lemma_div_pos_is_pos};
use vstd::pervasive::VecAdditionalExecFns;

verus! {

/// The value `v` pulled into the closed interval `[min, max]`.
pub open spec fn clamp_to_range(v: int, min: int, max: int) -> int {
    if v < min {
        min
    } else if v > max {
        max
    } else {
        v
    }
}

/// A depth value scaled into `0 ..= 255`: the value is clamped to
/// `[min, max]` and mapped affinely so that `min` becomes `0` and `max`
/// becomes `255`, rounding down.
pub open spec fn normalized_byte(d: int, min: int, max: int) -> int
    recommends
        min < max,
{
    (clamp_to_range(d, min, max) - min) * 255 / (max - min)
}

/// The normalized byte stays in `0 ..= 255`.
pub proof fn lemma_normalized_byte_bounds(d: int, min: int, max: int)
    requires
        min < max,
    ensures
        0 <= normalized_byte(d, min, max) <= 255,
{
    let c = clamp_to_range(d, min, max);
    let num = (c - min) * 255;
    let den = max - min;
    lemma_div_pos_is_pos(num, den);
    lemma_div_is_ordered(num, den * 255, den);
    lemma_div_by_multiple(255, den);
}

/// Normalization is monotone: a deeper value never maps to a smaller byte.
pub proof fn lemma_normalize_monotonic(d1: int, d2: int, min: int, max: int)
    requires
        min < max,
        min <= d1 <= d2 <= max,
    ensures
        normalized_byte(d1, min, max) <= normalized_byte(d2, min, max),
{
    lemma_div_is_ordered((d1 - min) * 255, (d2 - min) * 255, max - min);
}

/// Normalization maps the ends of the measuring range to the ends of the
/// byte range: `min` to `0` and `max` to `255`.
pub proof fn lemma_normalize_boundary(min: int, max: int)
    requires
        min < max,
    ensures
        normalized_byte(min, min, max) == 0,
        normalized_byte(max, min, max) == 255,
{
    lemma_div_by_multiple(255, max - min);
}

/// One depth value clamped to `[min, max]` and scaled to a byte.
pub fn normalize_value(d: u16, min: u16, max: u16) -> (r: u8)
    requires
        min < max,
    ensures
        r == normalized_byte(d as int, min as int, max as int),
{
    let clamped = if d < min {
        min
    } else if d > max {
        max
    } else {
        d
    };
    let num: u32 = (clamped - min) as u32 * 255;
    let den: u32 = (max - min) as u32;
    proof {
        lemma_normalized_byte_bounds(d as int, min as int, max as int);
    }
    (num / den) as u8
}

/// Scales a `u16` slice to bytes, entry by entry, after clamping each
/// entry to `[min, max]`.
pub fn normalize_u16_to_u8(input: &[u16], min: u16, max: u16, norm: &mut Vec<u8>)
    requires
        min < max,
        old(norm).len() == input.len(),
    ensures
        final(norm).len() == input.len(),
        forall|i: int|
            0 <= i < input.len() ==> final(norm)@[i] == normalized_byte(
                input@[i] as int,
                min as int,
                max as int,
            ),
{
    let mut i: usize = 0;
    while i < input.len()
        invariant
            min < max,
            i <= input.len(),
            norm.len() == input.len(),
            forall|j: int|
                0 <= j < i ==> norm@[j] == normalized_byte(input@[j] as int, min as int, max as int),
        decreases input.len() - i,
    {
        let b = normalize_value(input[i], min, max);
        norm.set(i, b);
        i = i + 1;
    }
}

/// A vector of length `size` whose entries all hold `init`.
pub fn new_fixed_vec<T: Copy>(size: usize, init: T) -> (r: Vec<T>)
    ensures
        r.len() == size,
        forall|i: int| 0 <= i < size ==> r@[i] == init,
{
    let mut v: Vec<T> = Vec::new();
    let mut i: usize = 0;
    while i < size
        invariant
            i <= size,
            v.len() == i,
            forall|j: int| 0 <= j < i ==> v@[j] == init,
        decreases size - i,
    {
        v.push(init);
        i = i + 1;
    }
    v
}

/// Counts processed frames; every `info_interval`-th call reports the
/// running frame count so the caller can emit rate information.
pub struct Counter {
    pub count: u64,
    pub info_interval: u64,
}

impl Counter {
    /// A fresh counter that reports every `info_interval`-th frame.
    pub fn new(info_interval: u64) -> (r: Counter)
        requires
            info_interval >= 1,
        ensures
            r.count == 0,
            r.info_interval == info_interval,
    {
        Counter { count: 0, info_interval }
    }

    /// Counts one more frame; returns the total so far exactly on every
    /// `info_interval`-th call and `None` otherwise.
    pub fn fps_frame_count_info(&mut self) -> (r: Option<u64>)
        requires
            old(self).info_interval >= 1,
            old(self).count < u64::MAX,
        ensures
            final(self).count == old(self).count + 1,
            final(self).info_interval == old(self).info_interval,
            r == if final(self).count % final(self).info_interval == 0 {
                Some(final(self).count)
            } else {
                None::<u64>
            },
    {
        self.count = self.count + 1;
        if self.count % self.info_interval == 0 {
            Some(self.count)
        } else {
            None
        }
    }
}

} // verus!
