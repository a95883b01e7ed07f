//! Pacing decisions of the render callback.
//!
//! The render callback is paced by its own device's clock, which is not the
//! source's: on every block it asks the resampler for exactly what the host
//! expects. Whether a resampling pass can run at all, and what happens to the
//! stream when the source falls silent, is decided here; the resampling and
//! gain arithmetic stay with the audio path.

use vstd::prelude::*;

verus! {

/// Frames produced per resampling pass. Short, because this grain sets the last
/// slice of latency the engine adds: roughly 1.3 ms at 48 kHz.
pub const CHUNK_FRAMES: usize = 64;

/// Consecutive empty passes before the buffer is rebuilt. Below that, the gap is
/// filled with silence without interrupting anything.
pub const STARVE_LIMIT: u32 = 4;

/// Length of the fade applied when the source falls silent mid-block.
pub const FADE_FRAMES: usize = 48;

#[derive(Debug, Clone, Copy, PartialEq, Eq, Structural)]
pub enum Phase {
    /// The buffer is filling; output stays silent.
    Priming,
    /// Steady state.
    Running,
}

/// Where the render callback stands between two resampling passes.
#[derive(Debug, Clone, Copy)]
pub struct Pacing {
    phase: Phase,
    starved_rounds: u32,
}

/// What one resampling pass should do.
#[derive(Debug, Clone, Copy, PartialEq, Eq, Structural)]
pub struct Pass {
    /// The buffer just reached its target: the drift corrector restarts from
    /// it.
    pub reprime: bool,
    /// Frames to read from the ring; zero means no pass runs and the output
    /// falls silent.
    pub read_frames: usize,
    /// The pass runs short of input: the shortfall is covered with silence.
    pub underrun: bool,
    /// The source stayed dry too long: the stream goes back to priming and
    /// stops reporting itself live.
    pub back_to_priming: bool,
}

/// Phase and count of consecutive empty passes after one pass, from the ring
/// occupancy `filled`, the occupancy target, and the input `needed`.
pub open spec fn paced(phase: Phase, starved: u32, filled: usize, target_frames: usize, needed: usize) -> (Phase, u32) {
    if phase == Phase::Priming && filled < target_frames {
        (phase, starved)
    } else {
        let before: u32 = if phase == Phase::Priming { 0 } else { starved };
        let available = if filled < needed { filled } else { needed };
        let after: u32 = if available == 0 {
            (before + 1) as u32
        } else if available < needed {
            before
        } else {
            0
        };
        let back = available == 0 && before + 1 >= STARVE_LIMIT;
        (if back { Phase::Priming } else { Phase::Running }, after)
    }
}

/// Phase and count after `passes` passes in a row with an empty ring.
pub open spec fn after_dry_passes(phase: Phase, starved: u32, target_frames: usize, needed: usize, passes: nat) -> (
    Phase,
    u32,
)
    decreases passes,
{
    if passes == 0 {
        (phase, starved)
    } else {
        let earlier = after_dry_passes(phase, starved, target_frames, needed, (passes - 1) as nat);
        paced(earlier.0, earlier.1, 0, target_frames, needed)
    }
}

/// A source that stays dry sends the stream back to priming within
/// [`STARVE_LIMIT`] passes, whatever state it was in, so it rebuilds its margin
/// before playing again.
pub proof fn lemma_dry_source_reprimes(phase: Phase, starved: u32, target_frames: usize, needed: usize)
    requires
        target_frames > 0,
        starved <= STARVE_LIMIT,
        phase == Phase::Running ==> starved < STARVE_LIMIT,
    ensures
        after_dry_passes(phase, starved, target_frames, needed, STARVE_LIMIT as nat).0 == Phase::Priming,
{
    reveal_with_fuel(after_dry_passes, 5);
}

impl Pacing {
    pub closed spec fn spec_phase(&self) -> Phase {
        self.phase
    }

    pub closed spec fn spec_starved(&self) -> u32 {
        self.starved_rounds
    }

    /// A running stream has always seen fewer than [`STARVE_LIMIT`] empty
    /// passes in a row.
    pub open spec fn wf(&self) -> bool {
        &&& self.spec_starved() <= STARVE_LIMIT
        &&& self.spec_phase() == Phase::Running ==> self.spec_starved() < STARVE_LIMIT
    }

    /// A fresh stream starts priming.
    pub fn new() -> (pacing: Self)
        ensures
            pacing.wf(),
            pacing.spec_phase() == Phase::Priming,
            pacing.spec_starved() == 0,
    {
        Pacing { phase: Phase::Priming, starved_rounds: 0 }
    }

    pub fn phase(&self) -> (phase: Phase)
        ensures
            phase == self.spec_phase(),
    {
        self.phase
    }

    /// Decides one resampling pass from the ring occupancy `filled`, the
    /// occupancy target, and the input the resampler `needed` for its next
    /// pass.
    ///
    /// While priming, nothing runs until the buffer reaches its target. Once
    /// running, a pass reads what is there up to what is needed; with nothing
    /// there it is skipped, and after [`STARVE_LIMIT`] skipped passes in a row
    /// the stream rebuilds its margin rather than restarting dry the moment
    /// sound returns.
    pub fn begin_pass(&mut self, filled: usize, target_frames: usize, needed: usize) -> (pass: Pass)
        requires
            old(self).wf(),
        ensures
            final(self).wf(),
            (final(self).spec_phase(), final(self).spec_starved()) == paced(
                old(self).spec_phase(),
                old(self).spec_starved(),
                filled,
                target_frames,
                needed,
            ),
            old(self).spec_phase() == Phase::Priming && filled < target_frames ==> {
                &&& pass == Pass { reprime: false, read_frames: 0, underrun: false, back_to_priming: false }
                &&& *final(self) == *old(self)
            },
            !(old(self).spec_phase() == Phase::Priming && filled < target_frames) ==> {
                let reprime = old(self).spec_phase() == Phase::Priming;
                let starved: u32 = if reprime { 0 } else { old(self).spec_starved() };
                let available = if filled < needed { filled } else { needed };
                &&& pass.reprime == reprime
                &&& pass.read_frames == available
                &&& pass.underrun == (0 < available && available < needed)
                &&& pass.back_to_priming == (available == 0 && starved + 1 >= STARVE_LIMIT)
                &&& final(self).spec_phase() == if pass.back_to_priming { Phase::Priming } else { Phase::Running }
                &&& final(self).spec_starved() == if available == 0 {
                    (starved + 1) as u32
                } else if available < needed {
                    starved
                } else {
                    0u32
                }
            },
    {
        let mut reprime = false;
        if self.phase == Phase::Priming {
            if filled < target_frames {
                return Pass { reprime: false, read_frames: 0, underrun: false, back_to_priming: false };
            }
            self.phase = Phase::Running;
            self.starved_rounds = 0;
            reprime = true;
        }

        let available = if filled < needed { filled } else { needed };

        if available == 0 {
            self.starved_rounds = self.starved_rounds + 1;
            // A source can stay silent for a long time: loopback delivers
            // nothing while nothing is playing. Rebuild the margin rather than
            // restarting dry the moment sound returns.
            let back = self.starved_rounds >= STARVE_LIMIT;
            if back {
                self.phase = Phase::Priming;
            }
            return Pass { reprime, read_frames: 0, underrun: false, back_to_priming: back };
        }

        let underrun = available < needed;
        if !underrun {
            self.starved_rounds = 0;
        }
        Pass { reprime, read_frames: available, underrun, back_to_priming: false }
    }
}

/// Copies `frames` whole frames of `channels` samples from `src`, starting at
/// frame `src_frame`, into `dst` at frame `dst_frame`. Nothing else in `dst`
/// changes.
pub fn copy_frames<T: Copy>(
    dst: &mut [T],
    dst_frame: usize,
    src: &[T],
    src_frame: usize,
    frames: usize,
    channels: usize,
)
    requires
        (dst_frame + frames) * channels <= old(dst)@.len(),
        (src_frame + frames) * channels <= src@.len(),
    ensures
        final(dst)@.len() == old(dst)@.len(),
        forall|i: int|
            0 <= i < final(dst)@.len() ==> #[trigger] final(dst)@[i] == if dst_frame * channels <= i < (
            dst_frame + frames) * channels {
                src@[i - dst_frame * channels + src_frame * channels]
            } else {
                old(dst)@[i]
            },
{
    proof {
        vstd::arithmetic::mul::lemma_mul_is_distributive_add_other_way(channels as int, dst_frame as int, frames as int);
        vstd::arithmetic::mul::lemma_mul_is_distributive_add_other_way(channels as int, src_frame as int, frames as int);
        vstd::arithmetic::mul::lemma_mul_nonnegative(dst_frame as int, channels as int);
        vstd::arithmetic::mul::lemma_mul_nonnegative(src_frame as int, channels as int);
        vstd::arithmetic::mul::lemma_mul_nonnegative(frames as int, channels as int);
    }
    let dst_len = dst.len();
    let src_len = src.len();
    let start = dst_frame * channels;
    let from = src_frame * channels;
    let count = frames * channels;
    let mut k: usize = 0;
    while k < count
        invariant
            dst_len == dst@.len(),
            src_len == src@.len(),
            dst@.len() == old(dst)@.len(),
            start == dst_frame * channels,
            from == src_frame * channels,
            count == frames * channels,
            start + count == (dst_frame + frames) * channels,
            from + count == (src_frame + frames) * channels,
            start + count <= dst@.len(),
            from + count <= src@.len(),
            0 <= k <= count,
            forall|i: int|
                0 <= i < dst@.len() ==> #[trigger] dst@[i] == if start <= i < start + k {
                    src@[i - start + from]
                } else {
                    old(dst)@[i]
                },
        decreases count - k,
    {
        dst[start + k] = src[from + k];
        k = k + 1;
    }
}

} // verus!
