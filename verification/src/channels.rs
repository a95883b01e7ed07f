//! Channel count adaptation between the source and a destination.
//!
//! The rule is chosen once, when the destination opens, so the callback only
//! ever walks a loop with no avoidable branching.
//!
//! Moving samples is generic over the sample type. Folding to mono averages
//! the source channels, which is arithmetic on the samples themselves; that
//! one rule is carried out by the audio path that owns the sample format.

use vstd::prelude::*;

verus! {

/// How source channels spread across destination channels.
#[derive(Debug, Clone, Copy, PartialEq, Eq)]
pub enum Plan {
    /// Same width: a plain copy.
    Direct,
    /// A mono source feeds every destination channel.
    Spread,
    /// A mono destination receives the average of the source channels.
    Fold,
    /// Different widths: shared channels pass through in order, any extra
    /// destination channel stays silent.
    Common,
}

/// The rule for a given pair of widths.
pub open spec fn plan_for(source: nat, target: nat) -> Plan {
    if source == target {
        Plan::Direct
    } else if source == 1 {
        Plan::Spread
    } else if target == 1 {
        Plan::Fold
    } else {
        Plan::Common
    }
}

/// Sample written at `channel` of `frame` by the rules that move samples
/// without computing on them.
pub open spec fn mapped_sample<T>(
    plan: Plan,
    source: nat,
    target: nat,
    input: Seq<T>,
    frame: int,
    channel: int,
    silence: T,
) -> T {
    match plan {
        Plan::Spread => input[frame],
        _ => if channel < source && channel < target {
            input[frame * source + channel]
        } else {
            silence
        },
    }
}

#[derive(Debug, Clone, Copy)]
pub struct ChannelMapper {
    source: usize,
    target: usize,
    plan: Plan,
}

impl ChannelMapper {
    pub closed spec fn spec_source(&self) -> nat {
        self.source as nat
    }

    pub closed spec fn spec_target(&self) -> nat {
        self.target as nat
    }

    pub closed spec fn spec_plan(&self) -> Plan {
        self.plan
    }

    pub closed spec fn wf(&self) -> bool {
        &&& self.source > 0
        &&& self.target > 0
        &&& self.plan == plan_for(self.source as nat, self.target as nat)
    }

    /// A stream has at least one channel: zero on either side is a
    /// programming error, kept out by `requires`.
    pub fn new(source: usize, target: usize) -> (mapper: Self)
        requires
            source > 0,
            target > 0,
        ensures
            mapper.wf(),
            mapper.spec_source() == source,
            mapper.spec_target() == target,
            mapper.spec_plan() == plan_for(source as nat, target as nat),
    {
        let plan = if source == target {
            Plan::Direct
        } else if source == 1 {
            Plan::Spread
        } else if target == 1 {
            Plan::Fold
        } else {
            Plan::Common
        };

        ChannelMapper { source, target, plan }
    }

    pub fn source_channels(&self) -> (channels: usize)
        ensures
            channels == self.spec_source(),
    {
        self.source
    }

    pub fn target_channels(&self) -> (channels: usize)
        ensures
            channels == self.spec_target(),
    {
        self.target
    }

    /// The rule chosen for this pair of widths.
    pub fn plan(&self) -> (plan: Plan)
        ensures
            plan == self.spec_plan(),
    {
        self.plan
    }

    /// True when the conversion is a plain copy, letting the engine skip the
    /// intermediate buffer entirely.
    pub fn is_transparent(&self) -> (transparent: bool)
        ensures
            transparent == (self.spec_plan() == Plan::Direct),
    {
        match self.plan {
            Plan::Direct => true,
            _ => false,
        }
    }

    /// True when the destination is mono and the source is not: each output
    /// sample is then the average of a source frame.
    pub fn folds(&self) -> (folds: bool)
        ensures
            folds == (self.spec_plan() == Plan::Fold),
    {
        match self.plan {
            Plan::Fold => true,
            _ => false,
        }
    }

    /// Converts `input` (interleaved, `source` channels) into `output`
    /// (interleaved, `target` channels). Both slices hold the same number of
    /// frames. Every rule but folding moves samples as they are: a copy, a
    /// mono sample repeated across the frame, or the shared channels in
    /// order with `silence` in the extra ones.
    pub fn map<T: Copy>(&self, input: &[T], output: &mut [T], silence: T)
        requires
            self.wf(),
            self.spec_plan() != Plan::Fold,
            (input@.len() as int) % (self.spec_source() as int) == 0,
            (old(output)@.len() as int) % (self.spec_target() as int) == 0,
            (input@.len() as int) / (self.spec_source() as int) == (old(output)@.len() as int) / (self.spec_target() as int),
        ensures
            final(output)@.len() == old(output)@.len(),
            forall|frame: int, channel: int|
                #![trigger final(output)@[frame * (self.spec_target() as int) + channel]]
                0 <= frame < (input@.len() as int) / (self.spec_source() as int) && 0 <= channel < self.spec_target()
                    ==> final(output)@[frame * (self.spec_target() as int) + channel] == mapped_sample(
                        self.spec_plan(),
                        self.spec_source(),
                        self.spec_target(),
                        input@,
                        frame,
                        channel,
                        silence,
                    ),
            forall|frame: int, channel: int|
                #![trigger final(output)@[frame * (self.spec_target() as int) + channel]]
                0 <= frame < (input@.len() as int) / (self.spec_source() as int) && 0 <= channel < self.spec_target()
                    ==> final(output)@[frame * (self.spec_target() as int) + channel] == moved_sample(
                        self.spec_source(),
                        input@,
                        frame,
                        channel,
                        silence,
                    ),
    {
        proof {
            let s = self.spec_source();
            let t = self.spec_target();
            assert forall|frame: int, channel: int| 0 <= channel < t implies #[trigger] mapped_sample(
                plan_for(s, t),
                s,
                t,
                input@,
                frame,
                channel,
                silence,
            ) == moved_sample(s, input@, frame, channel, silence) by {
                lemma_channels_move_unchanged(s, t, input@, frame, channel, silence);
            }
        }
        let source = self.source;
        let target = self.target;
        let in_len = input.len();
        let out_len = output.len();
        let frames = in_len / source;
        let common = if source < target { source } else { target };
        let plan = self.plan;
        proof {
            lemma_frames_fit(input@.len() as int, source as int);
            lemma_frames_fit(output@.len() as int, target as int);
        }

        let mut frame: usize = 0;
        let mut in_base: usize = 0;
        let mut out_base: usize = 0;
        while frame < frames
            invariant
                self.wf(),
                plan == self.spec_plan(),
                plan != Plan::Fold,
                source == self.spec_source(),
                target == self.spec_target(),
                common == if source < target { source } else { target },
                frames == (input@.len() as int) / (source as int),
                in_len == input@.len(),
                out_len == output@.len(),
                frames * source == input@.len(),
                frames * target == output@.len(),
                output@.len() == old(output)@.len(),
                0 <= frame <= frames,
                in_base == frame * source,
                out_base == frame * target,
                forall|f: int, c: int|
                    #![trigger output@[f * (target as int) + c]]
                    0 <= f < frame && 0 <= c < target
                        ==> output@[f * (target as int) + c] == mapped_sample(
                            plan,
                            source as nat,
                            target as nat,
                            input@,
                            f,
                            c,
                            silence,
                        ),
            decreases frames - frame,
        {
            proof {
                lemma_frame_slot(frame as int, frames as int, source as int);
                lemma_frame_slot(frame as int, frames as int, target as int);
            }
            let mut channel: usize = 0;
            while channel < target
                invariant
                    self.wf(),
                    plan == self.spec_plan(),
                    plan != Plan::Fold,
                    source == self.spec_source(),
                    target == self.spec_target(),
                    common == if source < target { source } else { target },
                    frames == (input@.len() as int) / (source as int),
                    in_len == input@.len(),
                    out_len == output@.len(),
                    frames * source == input@.len(),
                    frames * target == output@.len(),
                    output@.len() == old(output)@.len(),
                    0 <= frame < frames,
                    in_base == frame * source,
                    out_base == frame * target,
                    in_base + source <= input@.len(),
                    out_base + target <= output@.len(),
                    frame < input@.len(),
                    0 <= channel <= target,
                    forall|f: int, c: int|
                        #![trigger output@[f * (target as int) + c]]
                        0 <= f < frame && 0 <= c < target
                            ==> output@[f * (target as int) + c] == mapped_sample(
                                plan,
                                source as nat,
                                target as nat,
                                input@,
                                f,
                                c,
                                silence,
                            ),
                    forall|c: int|
                        #![trigger output@[out_base + c]]
                        0 <= c < channel
                            ==> output@[out_base + c] == mapped_sample(
                                plan,
                                source as nat,
                                target as nat,
                                input@,
                                frame as int,
                                c,
                                silence,
                            ),
                decreases target - channel,
            {
                let value = match plan {
                    Plan::Spread => input[frame],
                    _ => if channel < common {
                        input[in_base + channel]
                    } else {
                        silence
                    },
                };
                let ghost before = output@;
                output[out_base + channel] = value;
                proof {
                    assert forall|f: int, c: int|
                        #![trigger output@[f * (target as int) + c]]
                        0 <= f < frame && 0 <= c < target implies output@[f * (target as int) + c]
                            == mapped_sample(plan, source as nat, target as nat, input@, f, c, silence) by {
                        lemma_earlier_frame_below(f, frame as int, c, target as int);
                        assert(before[f * (target as int) + c] == output@[f * (target as int) + c]);
                    }
                }
                channel = channel + 1;
            }
            proof {
                assert forall|f: int, c: int|
                    #![trigger output@[f * (target as int) + c]]
                    0 <= f < frame + 1 && 0 <= c < target implies output@[f * (target as int) + c]
                        == mapped_sample(plan, source as nat, target as nat, input@, f, c, silence) by {
                    if f == frame {
                        assert(f * (target as int) + c == out_base + c);
                    }
                }
            }
            frame = frame + 1;
            in_base = in_base + source;
            out_base = out_base + target;
            proof {
                vstd::arithmetic::mul::lemma_mul_is_distributive_add_other_way(source as int, (frame - 1) as int, 1);
                vstd::arithmetic::mul::lemma_mul_is_distributive_add_other_way(target as int, (frame - 1) as int, 1);
            }
        }
    }
}

/// Where a sample lands when samples are moved as they are, with `source`
/// channels on the way in: a mono source repeats its one sample across the
/// frame; otherwise each channel the source has passes through at the same
/// position, and any channel beyond stays silent.
pub open spec fn moved_sample<T>(source: nat, input: Seq<T>, frame: int, channel: int, silence: T) -> T {
    if source == 1 {
        input[frame]
    } else if channel < source {
        input[frame * source + channel]
    } else {
        silence
    }
}

/// Every rule but folding moves samples unchanged: a copy keeps every
/// channel, a mono source feeds all of them, and between other widths each
/// channel both sides have passes through in place while the extra ones stay
/// silent.
pub proof fn lemma_channels_move_unchanged<T>(
    source: nat,
    target: nat,
    input: Seq<T>,
    frame: int,
    channel: int,
    silence: T,
)
    requires
        source > 0,
        target > 0,
        plan_for(source, target) != Plan::Fold,
        0 <= channel < target,
    ensures
        mapped_sample(plan_for(source, target), source, target, input, frame, channel, silence) == moved_sample(
            source,
            input,
            frame,
            channel,
            silence,
        ),
{
    if source == 1 && target == 1 {
        assert(frame * 1 + 0 == frame);
    }
}

proof fn lemma_frames_fit(len: int, width: int)
    requires
        len >= 0,
        width > 0,
        len % width == 0,
    ensures
        (len / width) * width == len,
        len / width >= 0,
{
    vstd::arithmetic::div_mod::lemma_fundamental_div_mod(len, width);
    vstd::arithmetic::mul::lemma_mul_is_commutative(len / width, width);
    vstd::arithmetic::div_mod::lemma_div_pos_is_pos(len, width);
}

proof fn lemma_frame_slot(frame: int, frames: int, width: int)
    requires
        0 <= frame < frames,
        width > 0,
    ensures
        frame * width + width <= frames * width,
        frame <= frame * width,
{
    vstd::arithmetic::mul::lemma_mul_inequality(frame + 1, frames, width);
    vstd::arithmetic::mul::lemma_mul_is_distributive_add_other_way(width, frame, 1);
    vstd::arithmetic::mul::lemma_mul_inequality(1, width, frame);
    vstd::arithmetic::mul::lemma_mul_is_commutative(frame, width);
}

proof fn lemma_earlier_frame_below(f: int, frame: int, c: int, width: int)
    requires
        0 <= f < frame,
        0 <= c < width,
    ensures
        f * width + c < frame * width,
{
    vstd::arithmetic::mul::lemma_mul_inequality(f + 1, frame, width);
    vstd::arithmetic::mul::lemma_mul_is_distributive_add_other_way(width, f, 1);
}

} // verus!
