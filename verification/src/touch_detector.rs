//! Streaming per-pixel touch detection against a warm-up baseline.
//!
//! The detector keeps, per pixel, a baseline depth sum accumulated over the
//! first `baseline_sample_size` frames and a sliding-window depth sum over
//! the most recent `sample_size` frames, the latter maintained in constant
//! time per pixel through a flat ring buffer.  A pixel counts as touched
//! when the baseline average exceeds the windowed average by an amount
//! strictly inside the configured band.
//!
//! All averages are kept as exact integer sums; the touch band is given in
//! thousandths of a millimeter, and every comparison is carried out on
//! cross-multiplied integers, so no rounding enters the classification.
//!
//! The mathematical model is the ghost sequence [`TouchDetector::frames`]
//! of all decoded frames processed so far: every concrete field is tied to
//! that history by [`TouchDetector::wf`].

use vstd::prelude::*;
use vstd::arithmetic::div_mod::{
    lemma_div_by_multiple, lemma_div_is_ordered, lemma_div_pos_is_pos, lemma_fundamental_div_mod,
    lemma_fundamental_div_mod_converse, lemma_mod_bound,
};
use vstd::arithmetic::mul::{
    lemma_mul_inequality, lemma_mul_strictly_positive, lemma_mul_upper_bound,
};
use vstd::pervasive::VecAdditionalExecFns;

use crate::error::ErrorKind;
use crate::frame::{decoded_depth, decoded_frame};
use crate::util::new_fixed_vec;

verus! {

/// Largest accepted length, in frames, of either averaging window.
pub const MAX_WINDOW: usize = 65535;

/// Largest accepted magnitude of a touch threshold, in thousandths of a
/// millimeter.
pub const MAX_TOUCH_MILLI: i64 = 1_000_000_000;

/// Sum of `hist[t][i]` over the frame indices `from <= t < to`.
pub open spec fn pixel_sum(hist: Seq<Seq<int>>, from: int, to: int, i: int) -> int
    decreases to - from,
{
    if from >= to {
        0
    } else {
        pixel_sum(hist, from, to - 1, i) + hist[to - 1][i]
    }
}

/// First frame index of the moving-average window over a history of
/// length `n`: the window covers the last `ss` frames once that many
/// have been seen.
pub open spec fn window_start(n: int, ss: int) -> int {
    if n <= ss {
        0
    } else {
        n - ss
    }
}

/// The sliding-window sum at pixel `i`: the sum of the last `ss` decoded
/// depths (or of all of them while fewer have been seen).
pub open spec fn window_sum(hist: Seq<Seq<int>>, ss: int, i: int) -> int {
    pixel_sum(hist, window_start(hist.len() as int, ss), hist.len() as int, i)
}

/// How many frames have entered the baseline after `n` frames: the
/// warm-up stops once `bss` frames are in.
pub open spec fn baseline_count(n: int, bss: int) -> int {
    if n <= bss {
        n
    } else {
        bss
    }
}

/// The baseline sum at pixel `i`: the sum of the first `bss` decoded
/// depths (or of all of them while fewer have been seen).
pub open spec fn baseline_sum(hist: Seq<Seq<int>>, bss: int, i: int) -> int {
    pixel_sum(hist, 0, baseline_count(hist.len() as int, bss), i)
}

/// The last step `t < n` that wrote ring slot `s` (steps cycle through
/// the `ss` slots in order), or a negative value if no step did.
pub open spec fn last_write(n: int, ss: int, s: int) -> int {
    if s < n % ss {
        n - n % ss + s
    } else {
        n - n % ss + s - ss
    }
}

/// What ring slot `s` holds at pixel `i` after the frames in `hist`:
/// the decoded depth of the last frame that wrote the slot, or the
/// initial zero fill.
pub open spec fn ring_entry(hist: Seq<Seq<int>>, ss: int, s: int, i: int) -> int {
    let t = last_write(hist.len() as int, ss, s);
    if t >= 0 {
        hist[t][i]
    } else {
        0
    }
}

/// The baseline sum at pixel `i` after state `s` takes in the decoded
/// frame `df`: it grows only while the warm-up window is open.
spec fn step_baseline(s: TouchDetector, df: Seq<int>, i: int) -> int {
    s.baseline_depth_sum@[i] + if s.baseline_sample < s.baseline_sample_size {
        df[i]
    } else {
        0
    }
}

/// The sliding-window sum at pixel `i` after state `s` takes in the
/// decoded frame `df`: the slot being overwritten leaves, the new depth
/// enters.
spec fn step_window(s: TouchDetector, df: Seq<int>, i: int) -> int {
    s.depth_sum@[i] - s.ring_buffer@[s.sample * s.pixel_count + i] + df[i]
}

/// The depth-decrease numerator at pixel `i` right after the step.
spec fn step_diff_num(s: TouchDetector, df: Seq<int>, i: int) -> int {
    step_baseline(s, df, i) * s.sample_size - step_window(s, df, i) * s.baseline_sample_size
}

/// The classification at pixel `i` right after the step.
spec fn step_is_touch(s: TouchDetector, df: Seq<int>, i: int) -> bool {
    &&& s.min_touch_milli * (s.baseline_sample_size * s.sample_size) < step_diff_num(s, df, i)
        * 1000
    &&& step_diff_num(s, df, i) * 1000 < s.max_touch_milli * (s.baseline_sample_size
        * s.sample_size)
}

/// Every summand is at least zero, so the sum is too.
proof fn lemma_pixel_sum_nonneg(hist: Seq<Seq<int>>, from: int, to: int, i: int)
    requires
        forall|t: int| from <= t < to ==> 0 <= #[trigger] hist[t][i],
    ensures
        0 <= pixel_sum(hist, from, to, i),
    decreases to - from,
{
    if from < to {
        lemma_pixel_sum_nonneg(hist, from, to - 1, i);
    }
}

/// A sum of at most `to - from` summands, each at most `hi`, is at most
/// `(to - from) * hi`.
proof fn lemma_pixel_sum_upper(hist: Seq<Seq<int>>, from: int, to: int, i: int, hi: int)
    requires
        from <= to,
        0 <= hi,
        forall|t: int| from <= t < to ==> #[trigger] hist[t][i] <= hi,
    ensures
        pixel_sum(hist, from, to, i) <= (to - from) * hi,
    decreases to - from,
{
    if from < to {
        lemma_pixel_sum_upper(hist, from, to - 1, i, hi);
        assert((to - 1 - from) * hi + hi == (to - from) * hi) by (nonlinear_arith);
    } else {
        assert((to - from) * hi == 0) by (nonlinear_arith)
            requires
                from == to,
        ;
    }
}

/// The sum reads only the entries in `from..to`, so two histories that
/// agree there have the same sum.
proof fn lemma_pixel_sum_agree(h1: Seq<Seq<int>>, h2: Seq<Seq<int>>, from: int, to: int, i: int)
    requires
        forall|t: int| from <= t < to ==> #[trigger] h1[t][i] == h2[t][i],
    ensures
        pixel_sum(h1, from, to, i) == pixel_sum(h2, from, to, i),
    decreases to - from,
{
    if from < to {
        lemma_pixel_sum_agree(h1, h2, from, to - 1, i);
    }
}

/// Splitting the first summand off the front of the sum.
proof fn lemma_pixel_sum_split_front(hist: Seq<Seq<int>>, from: int, to: int, i: int)
    requires
        from < to,
    ensures
        pixel_sum(hist, from, to, i) == hist[from][i] + pixel_sum(hist, from + 1, to, i),
    decreases to - from,
{
    if from + 1 < to {
        lemma_pixel_sum_split_front(hist, from, to - 1, i);
        assert(pixel_sum(hist, from, to, i) == pixel_sum(hist, from, to - 1, i) + hist[to - 1][i]);
        assert(pixel_sum(hist, from + 1, to, i) == pixel_sum(hist, from + 1, to - 1, i) + hist[to
            - 1][i]);
    } else {
        assert(pixel_sum(hist, from, to, i) == pixel_sum(hist, from, from, i) + hist[from][i]);
        assert(pixel_sum(hist, from + 1, to, i) == 0);
    }
}

/// How one more frame changes the baseline sum: it grows by the new
/// frame's depth during warm-up and is untouched afterwards.
proof fn lemma_baseline_sum_push(hist: Seq<Seq<int>>, f: Seq<int>, bss: int, i: int)
    requires
        1 <= bss,
    ensures
        baseline_sum(hist.push(f), bss, i) == baseline_sum(hist, bss, i) + if hist.len() < bss {
            f[i]
        } else {
            0
        },
{
    let n = hist.len() as int;
    let h2 = hist.push(f);
    if n < bss {
        assert(baseline_count(n + 1, bss) == n + 1);
        assert(pixel_sum(h2, 0, n + 1, i) == pixel_sum(h2, 0, n, i) + h2[n][i]);
        lemma_pixel_sum_agree(h2, hist, 0, n, i);
    } else {
        lemma_pixel_sum_agree(h2, hist, 0, bss, i);
    }
}

/// How one more frame changes the window sum: the new depth enters, and
/// once the window is full the oldest windowed depth leaves.
proof fn lemma_window_sum_push(hist: Seq<Seq<int>>, f: Seq<int>, ss: int, i: int)
    requires
        1 <= ss,
    ensures
        window_sum(hist.push(f), ss, i) == window_sum(hist, ss, i) + f[i] - if hist.len() >= ss {
            hist[hist.len() - ss][i]
        } else {
            0
        },
{
    let n = hist.len() as int;
    let h2 = hist.push(f);
    if n < ss {
        assert(window_start(n + 1, ss) == 0);
        assert(pixel_sum(h2, 0, n + 1, i) == pixel_sum(h2, 0, n, i) + h2[n][i]);
        lemma_pixel_sum_agree(h2, hist, 0, n, i);
    } else {
        assert(window_start(n + 1, ss) == n + 1 - ss);
        assert(pixel_sum(h2, n + 1 - ss, n + 1, i) == pixel_sum(h2, n + 1 - ss, n, i) + h2[n][i]);
        lemma_pixel_sum_agree(h2, hist, n + 1 - ss, n, i);
        lemma_pixel_sum_split_front(hist, n - ss, n, i);
    }
}

/// How the remainder modulo `ss` moves on from `n` to `n + 1`.
proof fn lemma_mod_step(n: int, ss: int)
    requires
        0 <= n,
        1 <= ss,
    ensures
        (n + 1) % ss == if n % ss + 1 == ss {
            0int
        } else {
            n % ss + 1
        },
{
    let q = n / ss;
    let r = n % ss;
    lemma_fundamental_div_mod(n, ss);
    lemma_mod_bound(n, ss);
    if r + 1 == ss {
        assert(n + 1 == (q + 1) * ss + 0) by (nonlinear_arith)
            requires
                n == ss * q + r,
                r + 1 == ss,
        ;
        lemma_fundamental_div_mod_converse(n + 1, ss, q + 1, 0);
    } else {
        assert(n + 1 == q * ss + (r + 1)) by (nonlinear_arith)
            requires
                n == ss * q + r,
        ;
        lemma_fundamental_div_mod_converse(n + 1, ss, q, r + 1);
    }
}

/// How one more frame changes a ring slot: the slot the new frame lands
/// in takes the new depth, every other slot keeps its content.
proof fn lemma_ring_entry_push(hist: Seq<Seq<int>>, f: Seq<int>, ss: int, s: int, i: int)
    requires
        1 <= ss,
        0 <= s < ss,
    ensures
        ring_entry(hist.push(f), ss, s, i) == if s == hist.len() as int % ss {
            f[i]
        } else {
            ring_entry(hist, ss, s, i)
        },
{
    let n = hist.len() as int;
    let h2 = hist.push(f);
    let r = n % ss;
    lemma_mod_bound(n, ss);
    lemma_mod_step(n, ss);
    let lw = last_write(n, ss, s);
    let lw2 = last_write(n + 1, ss, s);
    if s == r {
        assert(lw2 == n);
        assert(h2[n] == f);
    } else {
        assert(lw2 == lw);
        assert(lw < n);
        if lw >= 0 {
            assert(h2[lw] == hist[lw]);
        }
    }
}

/// Streaming touch detector over decoded depth frames.
///
/// Constructed once per session by [`TouchDetector::new`], advanced once
/// per depth frame by [`TouchDetector::process`].  The ghost field
/// `frames` records every decoded frame processed so far and is the
/// reference point of all contracts; [`TouchDetector::wf`] ties the
/// executable sums, counters and ring buffer to it.
pub struct TouchDetector {
    /// Lower end of the measuring range, millimeters.
    pub min_depth: u16,
    /// Upper end of the measuring range, millimeters.
    pub max_depth: u16,
    /// Lower end of the open touch band, thousandths of a millimeter.
    pub min_touch_milli: i64,
    /// Upper end of the open touch band, thousandths of a millimeter.
    pub max_touch_milli: i64,
    /// Number of pixels per frame; fixed at construction.
    pub pixel_count: usize,
    /// Length of the warm-up window, in frames.
    pub baseline_sample_size: usize,
    /// Length of the moving-average window, in frames.
    pub sample_size: usize,
    /// Frames consumed into the baseline so far, saturating at
    /// `baseline_sample_size`.
    pub baseline_sample: usize,
    /// Ring slot the next frame will be written to.
    pub sample: usize,
    /// Per-pixel depth sum over the warm-up frames.
    pub baseline_depth_sum: Vec<u32>,
    /// Per-pixel depth sum over the ring buffer contents.
    pub depth_sum: Vec<u32>,
    /// The last `sample_size` decoded depths per pixel, flattened as
    /// `slot * pixel_count + pixel`.
    pub ring_buffer: Vec<u16>,
    /// The decoded depth frames processed so far, newest last.
    pub frames: Ghost<Seq<Seq<int>>>,
}

impl TouchDetector {
    /// The configuration bounds that every constructed detector obeys.
    pub open spec fn config_wf(&self) -> bool {
        &&& self.min_depth < self.max_depth
        &&& self.min_touch_milli < self.max_touch_milli
        &&& -MAX_TOUCH_MILLI <= self.min_touch_milli
        &&& self.max_touch_milli <= MAX_TOUCH_MILLI
        &&& 1 <= self.baseline_sample_size <= MAX_WINDOW
        &&& 1 <= self.sample_size <= MAX_WINDOW
        &&& self.sample_size * self.pixel_count <= usize::MAX
        &&& 2 * self.pixel_count <= usize::MAX
    }

    /// Every recorded frame has one decoded depth per pixel, clamped to
    /// the measuring range.
    pub open spec fn frames_wf(&self) -> bool {
        &&& forall|t: int|
            0 <= t < self.frames@.len() ==> (#[trigger] self.frames@[t]).len() == self.pixel_count
        &&& forall|t: int, i: int|
            0 <= t < self.frames@.len() && 0 <= i < self.pixel_count ==> self.min_depth
                <= #[trigger] self.frames@[t][i] <= self.max_depth
    }

    /// Well-formedness: the concrete state is exactly what replaying the
    /// recorded frame history prescribes.
    pub open spec fn wf(&self) -> bool {
        &&& self.config_wf()
        &&& self.frames_wf()
        &&& self.baseline_depth_sum.len() == self.pixel_count
        &&& self.depth_sum.len() == self.pixel_count
        &&& self.ring_buffer.len() == self.sample_size * self.pixel_count
        &&& self.sample == self.frames@.len() as int % (self.sample_size as int)
        &&& self.baseline_sample == baseline_count(
            self.frames@.len() as int,
            self.baseline_sample_size as int,
        )
        &&& forall|i: int|
            0 <= i < self.pixel_count ==> #[trigger] self.baseline_depth_sum@[i] == baseline_sum(
                self.frames@,
                self.baseline_sample_size as int,
                i,
            )
        &&& forall|i: int|
            0 <= i < self.pixel_count ==> #[trigger] self.depth_sum@[i] == window_sum(
                self.frames@,
                self.sample_size as int,
                i,
            )
        &&& forall|s: int, i: int|
            0 <= s < self.sample_size && 0 <= i < self.pixel_count ==> self.ring_buffer@[s
                * self.pixel_count + i] == #[trigger] ring_entry(
                self.frames@,
                self.sample_size as int,
                s,
                i,
            )
    }

    /// The common denominator of both averages.
    pub open spec fn denom(&self) -> int {
        self.baseline_sample_size * self.sample_size
    }

    /// The depth decrease at pixel `i` relative to the baseline, as the
    /// numerator of an exact fraction over [`TouchDetector::denom`]
    /// millimeters: `baseline_sum/bss - window_sum/ss`, brought to the
    /// common denominator `bss * ss`.
    pub open spec fn diff_num(&self, i: int) -> int {
        baseline_sum(self.frames@, self.baseline_sample_size as int, i) * self.sample_size
            - window_sum(self.frames@, self.sample_size as int, i) * self.baseline_sample_size
    }

    /// Whether pixel `i` counts as touched: the depth decrease lies
    /// strictly inside the touch band.  Both sides are scaled to
    /// thousandths of a millimeter over the common denominator.
    pub open spec fn is_touch(&self, i: int) -> bool {
        &&& self.min_touch_milli * self.denom() < self.diff_num(i) * 1000
        &&& self.diff_num(i) * 1000 < self.max_touch_milli * self.denom()
    }

    /// Creates a detector for `pixel_count`-pixel frames.
    ///
    /// `min_depth` and `max_depth` bound decoded depths, in millimeters;
    /// `min_touch_milli` and `max_touch_milli` give the open touch band in
    /// thousandths of a millimeter.  Succeeds exactly when
    /// `min_depth < max_depth`, `min_touch_milli < max_touch_milli` and
    /// both window lengths are at least one; every other configuration is
    /// rejected with [`ErrorKind::InvalidRange`].
    pub fn new(
        min_depth: u16,
        max_depth: u16,
        min_touch_milli: i64,
        max_touch_milli: i64,
        baseline_sample_size: usize,
        sample_size: usize,
        pixel_count: usize,
    ) -> (r: Result<TouchDetector, ErrorKind>)
        requires
            baseline_sample_size <= MAX_WINDOW,
            sample_size <= MAX_WINDOW,
            -MAX_TOUCH_MILLI <= min_touch_milli,
            max_touch_milli <= MAX_TOUCH_MILLI,
            sample_size * pixel_count <= usize::MAX,
            2 * pixel_count <= usize::MAX,
        ensures
            r is Ok <==> (min_depth < max_depth && min_touch_milli < max_touch_milli && 1
                <= baseline_sample_size && 1 <= sample_size),
            r is Err ==> r == Err::<TouchDetector, ErrorKind>(ErrorKind::InvalidRange),
            r matches Ok(d) ==> {
                &&& d.wf()
                &&& d.min_depth == min_depth
                &&& d.max_depth == max_depth
                &&& d.min_touch_milli == min_touch_milli
                &&& d.max_touch_milli == max_touch_milli
                &&& d.pixel_count == pixel_count
                &&& d.baseline_sample_size == baseline_sample_size
                &&& d.sample_size == sample_size
                &&& d.baseline_sample == 0
                &&& d.sample == 0
                &&& d.frames@ == Seq::<Seq<int>>::empty()
            },
    {
        if min_depth >= max_depth || min_touch_milli >= max_touch_milli || baseline_sample_size == 0
            || sample_size == 0 {
            return Err(ErrorKind::InvalidRange);
        }
        let d = TouchDetector {
            min_depth,
            max_depth,
            min_touch_milli,
            max_touch_milli,
            pixel_count,
            baseline_sample_size,
            sample_size,
            baseline_sample: 0,
            sample: 0,
            baseline_depth_sum: new_fixed_vec(pixel_count, 0u32),
            depth_sum: new_fixed_vec(pixel_count, 0u32),
            ring_buffer: new_fixed_vec(sample_size * pixel_count, 0u16),
            frames: Ghost(Seq::empty()),
        };
        proof {
            let ss = sample_size as int;
            lemma_mod_bound(0, ss);
            assert(0int % ss == 0) by {
                lemma_fundamental_div_mod_converse(0, ss, 0, 0);
            }
            assert forall|s: int, i: int|
                0 <= s < d.sample_size && 0 <= i < d.pixel_count implies d.ring_buffer@[s
                * d.pixel_count + i] == #[trigger] ring_entry(
                d.frames@,
                d.sample_size as int,
                s,
                i,
            ) by {
                lemma_flat_in_range(s, sample_size as int, i, pixel_count as int);
                assert(last_write(0, ss, s) == s - ss);
            }
        }
        Ok(d)
    }

    /// Whether two detector states agree on every field, the recorded
    /// history included.
    pub open spec fn state_eq(&self, other: &TouchDetector) -> bool {
        &&& self.min_depth == other.min_depth
        &&& self.max_depth == other.max_depth
        &&& self.min_touch_milli == other.min_touch_milli
        &&& self.max_touch_milli == other.max_touch_milli
        &&& self.pixel_count == other.pixel_count
        &&& self.baseline_sample_size == other.baseline_sample_size
        &&& self.sample_size == other.sample_size
        &&& self.baseline_sample == other.baseline_sample
        &&& self.sample == other.sample
        &&& self.baseline_depth_sum@ == other.baseline_depth_sum@
        &&& self.depth_sum@ == other.depth_sum@
        &&& self.ring_buffer@ == other.ring_buffer@
        &&& self.frames@ == other.frames@
    }

    /// Whether two detector states share the same configuration.
    pub open spec fn config_eq(&self, other: &TouchDetector) -> bool {
        &&& self.min_depth == other.min_depth
        &&& self.max_depth == other.max_depth
        &&& self.min_touch_milli == other.min_touch_milli
        &&& self.max_touch_milli == other.max_touch_milli
        &&& self.pixel_count == other.pixel_count
        &&& self.baseline_sample_size == other.baseline_sample_size
        &&& self.sample_size == other.sample_size
    }

    /// Consumes one raw depth frame: decodes and clamps every pixel,
    /// accumulates the baseline while warming up, advances the sliding
    /// window, and classifies every pixel.
    ///
    /// `touch_signal[i]` becomes `255` exactly when the depth decrease at
    /// pixel `i` lies strictly inside the touch band, `0` otherwise.
    /// `distance[i]` becomes the exact decrease numerator
    /// [`TouchDetector::diff_num`]: millimeters times
    /// `baseline_sample_size * sample_size`.
    ///
    /// A call with `is_depth_frame` false is a no-op surfaced as
    /// [`ErrorKind::NotADepthFrame`]; a buffer shorter than two bytes per
    /// pixel is rejected with [`ErrorKind::FrameSizeMismatch`].  Either
    /// rejection leaves every part of the state and both outputs exactly
    /// as they were.
    pub fn process(
        &mut self,
        frame: &[u8],
        is_depth_frame: bool,
        touch_signal: &mut Vec<u8>,
        distance: &mut Vec<i64>,
    ) -> (r: Result<(), ErrorKind>)
        requires
            old(self).wf(),
            old(touch_signal).len() == old(self).pixel_count,
            old(distance).len() == old(self).pixel_count,
        ensures
            final(self).wf(),
            final(self).config_eq(old(self)),
            final(touch_signal).len() == old(self).pixel_count,
            final(distance).len() == old(self).pixel_count,
            !is_depth_frame ==> r == Err::<(), ErrorKind>(ErrorKind::NotADepthFrame)
                && final(self).state_eq(old(self)) && final(touch_signal)@ == old(touch_signal)@
                && final(distance)@ == old(distance)@,
            is_depth_frame && frame@.len() < 2 * old(self).pixel_count ==> r == Err::<
                (),
                ErrorKind,
            >(ErrorKind::FrameSizeMismatch) && final(self).state_eq(old(self))
                && final(touch_signal)@ == old(touch_signal)@
                && final(distance)@ == old(distance)@,
            is_depth_frame && frame@.len() >= 2 * old(self).pixel_count ==> {
                &&& r == Ok::<(), ErrorKind>(())
                &&& final(self).frames@ == old(self).frames@.push(
                    decoded_frame(
                        frame@,
                        old(self).pixel_count as int,
                        old(self).min_depth,
                        old(self).max_depth,
                    ),
                )
                &&& forall|i: int|
                    0 <= i < old(self).pixel_count ==> final(touch_signal)@[i] == (
                    if final(self).is_touch(i) {
                        255u8
                    } else {
                        0u8
                    })
                &&& forall|i: int|
                    0 <= i < old(self).pixel_count ==> final(distance)@[i] == final(self).diff_num(
                        i,
                    )
                &&& old(self).baseline_sample == old(self).baseline_sample_size
                    ==> final(self).baseline_depth_sum@ == old(self).baseline_depth_sum@
            },
    {
        if !is_depth_frame {
            return Err(ErrorKind::NotADepthFrame);
        }
        if frame.len() < 2 * self.pixel_count {
            return Err(ErrorKind::FrameSizeMismatch);
        }
        let ghost s0 = *self;
        let ghost df = decoded_frame(frame@, self.pixel_count as int, self.min_depth, self.max_depth);
        let pixel_count = self.pixel_count;
        let frame_len = frame.len();
        let ghost base = s0.sample * s0.pixel_count;
        let mut i: usize = 0;
        while i < pixel_count
            invariant
                s0.wf(),
                self.min_depth == s0.min_depth,
                self.max_depth == s0.max_depth,
                self.min_touch_milli == s0.min_touch_milli,
                self.max_touch_milli == s0.max_touch_milli,
                self.pixel_count == s0.pixel_count,
                self.baseline_sample_size == s0.baseline_sample_size,
                self.sample_size == s0.sample_size,
                self.baseline_sample == s0.baseline_sample,
                self.sample == s0.sample,
                self.frames@ == s0.frames@,
                pixel_count == s0.pixel_count,
                base == s0.sample * s0.pixel_count,
                i <= pixel_count,
                2 * pixel_count <= frame_len,
                frame_len == frame@.len(),
                df == decoded_frame(frame@, pixel_count as int, s0.min_depth, s0.max_depth),
                self.baseline_depth_sum.len() == pixel_count,
                self.depth_sum.len() == pixel_count,
                self.ring_buffer.len() == s0.ring_buffer.len(),
                touch_signal.len() == pixel_count,
                distance.len() == pixel_count,
                forall|j: int|
                    i <= j < pixel_count ==> #[trigger] self.baseline_depth_sum@[j]
                        == s0.baseline_depth_sum@[j],
                forall|j: int|
                    i <= j < pixel_count ==> #[trigger] self.depth_sum@[j] == s0.depth_sum@[j],
                forall|j: int|
                    0 <= j < s0.ring_buffer@.len() && (j < base || j >= base + i)
                        ==> #[trigger] self.ring_buffer@[j] == s0.ring_buffer@[j],
                forall|j: int|
                    0 <= j < i ==> #[trigger] self.baseline_depth_sum@[j] == step_baseline(
                        s0,
                        df,
                        j,
                    ),
                forall|j: int|
                    0 <= j < i ==> #[trigger] self.depth_sum@[j] == step_window(s0, df, j),
                forall|j: int|
                    base <= j < base + i ==> #[trigger] self.ring_buffer@[j] == df[j - base],
                forall|j: int|
                    0 <= j < i ==> #[trigger] touch_signal@[j] == (if step_is_touch(s0, df, j) {
                        255u8
                    } else {
                        0u8
                    }),
                forall|j: int|
                    0 <= j < i ==> #[trigger] distance@[j] == step_diff_num(s0, df, j),
            decreases pixel_count - i,
        {
            let lo = frame[2 * i];
            let hi = frame[2 * i + 1];
            let raw: u16 = lo as u16 + hi as u16 * 256;
            let depth_mm = if raw < self.min_depth {
                self.min_depth
            } else if raw > self.max_depth {
                self.max_depth
            } else {
                raw
            };
            let b_new: u32;
            if self.baseline_sample < self.baseline_sample_size {
                proof {
                    lemma_baseline_sum_bound(&s0, i as int);
                    lemma_warm_add_fits(
                        s0.baseline_depth_sum@[i as int] as int,
                        depth_mm as int,
                        s0.baseline_sample as int,
                        s0.baseline_sample_size as int,
                        s0.max_depth as int,
                    );
                }
                b_new = self.baseline_depth_sum[i] + depth_mm as u32;
                self.baseline_depth_sum.set(i, b_new);
            } else {
                b_new = self.baseline_depth_sum[i];
            }
            proof {
                lemma_flat_in_range(
                    s0.sample as int,
                    s0.sample_size as int,
                    i as int,
                    pixel_count as int,
                );
            }
            let j = self.sample * pixel_count + i;
            let old_depth = self.ring_buffer[j];
            proof {
                lemma_window_slot_facts(&s0, i as int);
                lemma_window_add_fits(
                    s0.depth_sum@[i as int] as int,
                    old_depth as int,
                    depth_mm as int,
                    s0.sample_size as int,
                    s0.max_depth as int,
                );
            }
            let d_new = self.depth_sum[i] - old_depth as u32 + depth_mm as u32;
            self.ring_buffer.set(j, depth_mm);
            self.depth_sum.set(i, d_new);
            proof {
                lemma_classify_fits(
                    b_new as int,
                    d_new as int,
                    s0.min_touch_milli as int,
                    s0.max_touch_milli as int,
                    s0.baseline_sample_size as int,
                    s0.sample_size as int,
                );
            }
            let diff_num: i64 = b_new as i64 * self.sample_size as i64 - d_new as i64
                * self.baseline_sample_size as i64;
            let diff_scaled: i64 = diff_num * 1000;
            let denom: i64 = self.baseline_sample_size as i64 * self.sample_size as i64;
            let touched = self.min_touch_milli * denom < diff_scaled && diff_scaled
                < self.max_touch_milli * denom;
            touch_signal.set(i, if touched { 255 } else { 0 });
            distance.set(i, diff_num);
            i = i + 1;
        }
        self.sample = if self.sample + 1 == self.sample_size {
            0
        } else {
            self.sample + 1
        };
        if self.baseline_sample < self.baseline_sample_size {
            self.baseline_sample = self.baseline_sample + 1;
        }
        self.frames = Ghost(s0.frames@.push(df));
        proof {
            let n = s0.frames@.len() as int;
            let ss = s0.sample_size as int;
            let bss = s0.baseline_sample_size as int;
            let pc = s0.pixel_count as int;
            let h2 = s0.frames@.push(df);
            lemma_mod_bound(n, ss);
            lemma_mod_step(n, ss);
            assert forall|t: int| 0 <= t < h2.len() implies (#[trigger] h2[t]).len() == pc by {
                if t < n {
                    assert(s0.frames@[t].len() == pc);
                }
            }
            assert forall|t: int, i: int|
                0 <= t < h2.len() && 0 <= i < pc implies s0.min_depth <= #[trigger] h2[t][i]
                <= s0.max_depth by {
                if t < n {
                    assert(s0.min_depth <= s0.frames@[t][i] <= s0.max_depth);
                } else {
                    assert(h2[t] == df);
                    assert(df[i] == decoded_depth(frame@, i, s0.min_depth, s0.max_depth));
                }
            }
            assert forall|i: int| 0 <= i < pc implies #[trigger] self.baseline_depth_sum@[i]
                == baseline_sum(h2, bss, i) by {
                lemma_baseline_sum_push(s0.frames@, df, bss, i);
            }
            assert forall|i: int| 0 <= i < pc implies #[trigger] self.depth_sum@[i] == window_sum(
                h2,
                ss,
                i,
            ) by {
                lemma_window_sum_push(s0.frames@, df, ss, i);
                lemma_window_slot_facts(&s0, i);
            }
            assert forall|s: int, i: int| 0 <= s < ss && 0 <= i < pc implies self.ring_buffer@[s
                * pc + i] == #[trigger] ring_entry(h2, ss, s, i) by {
                lemma_ring_entry_push(s0.frames@, df, ss, s, i);
                lemma_flat_in_range(s, ss, i, pc);
                lemma_flat_slot_order(s, s0.sample as int, i, pc);
            }
            assert forall|i: int| 0 <= i < pc implies #[trigger] touch_signal@[i] == (
            if self.is_touch(i) {
                255u8
            } else {
                0u8
            }) by {
                assert(touch_signal@[i] == (if step_is_touch(s0, df, i) {
                    255u8
                } else {
                    0u8
                }));
                lemma_baseline_sum_push(s0.frames@, df, bss, i);
                lemma_window_sum_push(s0.frames@, df, ss, i);
                lemma_window_slot_facts(&s0, i);
                assert(step_baseline(s0, df, i) == baseline_sum(h2, bss, i));
                assert(step_window(s0, df, i) == window_sum(h2, ss, i));
            }
            assert forall|i: int| 0 <= i < pc implies #[trigger] distance@[i] == self.diff_num(
                i,
            ) by {
                assert(distance@[i] == step_diff_num(s0, df, i));
                lemma_baseline_sum_push(s0.frames@, df, bss, i);
                lemma_window_sum_push(s0.frames@, df, ss, i);
                lemma_window_slot_facts(&s0, i);
                assert(step_baseline(s0, df, i) == baseline_sum(h2, bss, i));
                assert(step_window(s0, df, i) == window_sum(h2, ss, i));
            }
            if s0.baseline_sample == s0.baseline_sample_size {
                assert(self.baseline_depth_sum@ =~= s0.baseline_depth_sum@);
            }
        }
        Ok(())
    }

    /// The moving average at pixel `i`, scaled to a byte for display:
    /// `floor((window_sum/sample_size - min_depth) * 255 / (max_depth -
    /// min_depth))`, brought to the common denominator `sample_size`, and
    /// `0` while the young window still averages below the measuring
    /// range.
    pub open spec fn normalized_average(&self, i: int) -> int {
        let d = window_sum(self.frames@, self.sample_size as int, i);
        let floor = self.min_depth * self.sample_size;
        if d < floor {
            0
        } else {
            (d - floor) * 255 / ((self.max_depth - self.min_depth) * self.sample_size)
        }
    }

    /// Scales the per-pixel moving average into `average_depth`, one byte
    /// per pixel, `min_depth` mapping to `0` and `max_depth` to `255`.
    /// A display by-product; reading it never changes the detector.
    pub fn get_normalized_average_depth(&self, average_depth: &mut Vec<u8>)
        requires
            self.wf(),
            old(average_depth).len() == self.pixel_count,
        ensures
            final(average_depth).len() == self.pixel_count,
            forall|i: int|
                0 <= i < self.pixel_count ==> final(average_depth)@[i] == self.normalized_average(
                    i,
                ),
    {
        let pixel_count = self.pixel_count;
        let mut i: usize = 0;
        while i < pixel_count
            invariant
                self.wf(),
                pixel_count == self.pixel_count,
                i <= pixel_count,
                average_depth.len() == pixel_count,
                forall|j: int|
                    0 <= j < i ==> #[trigger] average_depth@[j] == self.normalized_average(j),
            decreases pixel_count - i,
        {
            proof {
                lemma_mul_upper_bound(
                    self.min_depth as int,
                    0xFFFF,
                    self.sample_size as int,
                    0xFFFF,
                );
                lemma_mul_upper_bound(
                    (self.max_depth - self.min_depth) as int,
                    0xFFFF,
                    self.sample_size as int,
                    0xFFFF,
                );
            }
            let d = self.depth_sum[i];
            let floor: u64 = self.min_depth as u64 * self.sample_size as u64;
            let v: u8;
            if (d as u64) < floor {
                v = 0;
            } else {
                let num: u64 = (d as u64 - floor) * 255;
                let den: u64 = (self.max_depth - self.min_depth) as u64 * self.sample_size as u64;
                proof {
                    lemma_window_slot_facts(self, i as int);
                    lemma_mul_strictly_positive(
                        (self.max_depth - self.min_depth) as int,
                        self.sample_size as int,
                    );
                    lemma_norm_avg_in_range(
                        self.depth_sum@[i as int] as int,
                        self.min_depth as int,
                        self.max_depth as int,
                        self.sample_size as int,
                    );
                    lemma_div_pos_is_pos(num as int, den as int);
                    lemma_div_is_ordered(num as int, den as int * 255, den as int);
                    lemma_div_by_multiple(255, den as int);
                }
                v = (num / den) as u8;
            }
            average_depth.set(i, v);
            i = i + 1;
        }
    }

    /// The learned baseline at pixel `i`, in thousandths of a millimeter,
    /// rounded down: `floor(baseline_sum * 1000 / baseline_sample_size)`.
    pub open spec fn baseline_milli(&self, i: int) -> int {
        baseline_sum(self.frames@, self.baseline_sample_size as int, i) * 1000 / (
        self.baseline_sample_size as int)
    }

    /// The learned reference surface: one baseline average per pixel, in
    /// thousandths of a millimeter, rounded down.  Reading it never
    /// changes the detector.
    pub fn get_baseline(&self) -> (r: Vec<u64>)
        requires
            self.wf(),
        ensures
            r.len() == self.pixel_count,
            forall|i: int| 0 <= i < self.pixel_count ==> #[trigger] r@[i] == self.baseline_milli(i),
    {
        let pixel_count = self.pixel_count;
        let mut r: Vec<u64> = Vec::new();
        let mut i: usize = 0;
        while i < pixel_count
            invariant
                self.wf(),
                pixel_count == self.pixel_count,
                i <= pixel_count,
                r.len() == i,
                forall|j: int| 0 <= j < i ==> #[trigger] r@[j] == self.baseline_milli(j),
            decreases pixel_count - i,
        {
            let v: u64 = self.baseline_depth_sum[i] as u64 * 1000 / self.baseline_sample_size as u64;
            r.push(v);
            i = i + 1;
        }
        r
    }
}

/// A windowed sum below the measuring range scales within the byte
/// range: the numerator never exceeds `255` times the denominator.
proof fn lemma_norm_avg_in_range(d: int, minv: int, maxv: int, ss: int)
    by (nonlinear_arith)
    requires
        0 <= d,
        d <= ss * maxv,
        0 <= minv < maxv <= 0xFFFF,
        1 <= ss <= 0xFFFF,
        minv * ss <= d,
    ensures
        (d - minv * ss) * 255 <= ((maxv - minv) * ss) * 255,
        (d - minv * ss) * 255 < 0x1_0000_0000_0000,
{
}

/// After at least `sample_size` frames have been processed, the stored
/// sliding sum at pixel `i` is exactly the sum of that pixel's last
/// `sample_size` decoded depths.
pub proof fn lemma_depth_sum_is_recent_window(d: &TouchDetector, i: int)
    requires
        d.wf(),
        0 <= i < d.pixel_count,
        d.frames@.len() >= d.sample_size,
    ensures
        d.depth_sum@[i] == pixel_sum(
            d.frames@,
            d.frames@.len() - d.sample_size,
            d.frames@.len() as int,
            i,
        ),
{
    assert(d.depth_sum@[i] == window_sum(d.frames@, d.sample_size as int, i));
}

/// After the warm-up window has filled, the stored baseline sum at pixel
/// `i` is exactly the sum of that pixel's first `baseline_sample_size`
/// decoded depths; since `process` only appends to the history, that sum
/// never changes again.
pub proof fn lemma_baseline_is_warmup_sum(d: &TouchDetector, i: int)
    requires
        d.wf(),
        0 <= i < d.pixel_count,
        d.frames@.len() >= d.baseline_sample_size,
    ensures
        d.baseline_depth_sum@[i] == pixel_sum(d.frames@, 0, d.baseline_sample_size as int, i),
{
    assert(d.baseline_depth_sum@[i] == baseline_sum(
        d.frames@,
        d.baseline_sample_size as int,
        i,
    ));
}

/// A flat ring index `s * pc + i` stays inside a buffer of `smax * pc`
/// entries whenever `s < smax` and `i < pc`.
proof fn lemma_flat_in_range(s: int, smax: int, i: int, pc: int)
    by (nonlinear_arith)
    requires
        0 <= s < smax,
        0 <= i < pc,
    ensures
        0 <= s * pc + i < smax * pc,
        s * pc + i >= s * pc,
{
}

/// Flat ring indices of different slots never collide: a smaller slot
/// ends before a larger slot begins.
proof fn lemma_flat_slot_order(s: int, s2: int, i: int, pc: int)
    by (nonlinear_arith)
    requires
        0 <= i < pc,
        0 <= s,
        0 <= s2,
    ensures
        s < s2 ==> s * pc + i < s2 * pc,
        s > s2 ==> s * pc + i >= s2 * pc + pc,
{
}

/// The stored baseline sum is bounded by the frames that entered it.
proof fn lemma_baseline_sum_bound(s: &TouchDetector, i: int)
    requires
        s.wf(),
        0 <= i < s.pixel_count,
    ensures
        s.baseline_depth_sum@[i] <= (s.baseline_sample as int) * (s.max_depth as int),
{
    let n = s.frames@.len() as int;
    let bc = baseline_count(n, s.baseline_sample_size as int);
    lemma_pixel_sum_upper(s.frames@, 0, bc, i, s.max_depth as int);
}

/// A warm-up step keeps the baseline sum inside `u32`.
proof fn lemma_warm_add_fits(bsum: int, d: int, bs: int, bss: int, maxd: int)
    by (nonlinear_arith)
    requires
        0 <= bsum,
        bsum <= bs * maxd,
        0 <= d <= maxd,
        0 <= bs < bss,
        bss <= 0xFFFF,
        0 <= maxd <= 0xFFFF,
    ensures
        bsum + d < 0x1_0000_0000,
{
}

/// What the current ring slot holds relative to the windowed sum: its
/// content is the oldest windowed depth (or the zero fill), so it never
/// exceeds the stored sum, and the sum itself is bounded.
proof fn lemma_window_slot_facts(s: &TouchDetector, i: int)
    requires
        s.wf(),
        0 <= i < s.pixel_count,
    ensures
        ring_entry(s.frames@, s.sample_size as int, s.sample as int, i) == if s.frames@.len()
            >= s.sample_size {
            s.frames@[s.frames@.len() - s.sample_size][i]
        } else {
            0
        },
        0 <= ring_entry(s.frames@, s.sample_size as int, s.sample as int, i)
            <= s.depth_sum@[i],
        s.depth_sum@[i] <= (s.sample_size as int) * (s.max_depth as int),
{
    let n = s.frames@.len() as int;
    let ss = s.sample_size as int;
    let ws = window_start(n, ss);
    lemma_mod_bound(n, ss);
    assert(last_write(n, ss, s.sample as int) == n - ss);
    lemma_pixel_sum_upper(s.frames@, ws, n, i, s.max_depth as int);
    lemma_mul_inequality(n - ws, ss, s.max_depth as int);
    if n >= ss {
        lemma_pixel_sum_split_front(s.frames@, n - ss, n, i);
        lemma_pixel_sum_nonneg(s.frames@, n - ss + 1, n, i);
    } else {
        lemma_pixel_sum_nonneg(s.frames@, ws, n, i);
    }
}

/// A window step keeps the sliding sum inside `u32`.
proof fn lemma_window_add_fits(dsum: int, rold: int, d: int, ss: int, maxd: int)
    by (nonlinear_arith)
    requires
        0 <= rold <= dsum,
        dsum <= ss * maxd,
        0 <= d <= maxd,
        1 <= ss <= 0xFFFF,
        0 <= maxd <= 0xFFFF,
    ensures
        0 <= dsum - rold + d < 0x1_0000_0000,
{
}

/// Bounds for every product the classification step computes in `i64`.
proof fn lemma_classify_fits(bsum: int, dsum: int, tmin: int, tmax: int, bss: int, ss: int)
    by (nonlinear_arith)
    requires
        0 <= bsum < 0x1_0000_0000,
        0 <= dsum < 0x1_0000_0000,
        1 <= bss <= 0xFFFF,
        1 <= ss <= 0xFFFF,
        -1_000_000_000 <= tmin <= 1_000_000_000,
        -1_000_000_000 <= tmax <= 1_000_000_000,
    ensures
        0 <= bsum * ss < 0x1_0000_0000_0000,
        0 <= dsum * bss < 0x1_0000_0000_0000,
        1 <= bss * ss <= 0x1_0000_0000,
        -0x4000_0000_0000_0000 < tmin * (bss * ss) < 0x4000_0000_0000_0000,
        -0x4000_0000_0000_0000 < tmax * (bss * ss) < 0x4000_0000_0000_0000,
{
}

} // verus!
