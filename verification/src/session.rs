//! What a session computes, as a function of the rig and the audio clock.
//!
//! The functions here are the mathematical model that the engine's contracts
//! are stated over. A rig is the sequence of its audio components and the
//! sequence of its modulators; a session takes a rig at an audio position
//! through a number of frames, applying a modulation tick wherever the
//! position is a multiple of the modulation period.

use crate::concepts::{AudioSampleIndex, ModulationSampleIndex};
use crate::traits::{AudioComponent, ModulationComponent};
use vstd::arithmetic::div_mod::{lemma_fundamental_div_mod, lemma_fundamental_div_mod_converse};
use vstd::prelude::*;

verus! {

/// The components of a topology, each family in insertion order.
pub ghost struct Rig<A: AudioComponent> {
    pub audio: Seq<A>,
    pub modulators: Seq<A::Modulator>,
}

/// What a run of frames leaves behind.
pub ghost struct Outcome<A: AudioComponent> {
    /// The rig after the run.
    pub rig: Rig<A>,
    /// The mono samples produced, one per frame.
    pub samples: Seq<A::Sample>,
    /// The audio positions at which a modulation tick was applied, in order.
    pub ticks: Seq<nat>,
}

/// The outcome of a run of no frames.
pub open spec fn idle<A: AudioComponent>(rig: Rig<A>) -> Outcome<A> {
    Outcome { rig, samples: Seq::empty(), ticks: Seq::empty() }
}

/// The audio position `at` as the engine hands it to components.
pub open spec fn audio_index(at: nat) -> AudioSampleIndex {
    AudioSampleIndex(at as u64)
}

/// Every modulator advanced by the tick numbered `sample`.
pub open spec fn stepped_all<M: ModulationComponent>(
    modulators: Seq<M>,
    sample: ModulationSampleIndex,
) -> Seq<M> {
    Seq::new(modulators.len(), |i: int| modulators[i].stepped(sample))
}

/// Every audio component refreshed from `modulators` at the position
/// `sample`.
pub open spec fn modulated_all<A: AudioComponent>(
    audio: Seq<A>,
    modulators: Seq<A::Modulator>,
    sample: AudioSampleIndex,
) -> Seq<A> {
    Seq::new(audio.len(), |i: int| audio[i].modulated(modulators, sample))
}

/// Every audio component after it has produced the frames from `start` up
/// to `end`.
pub open spec fn played_all<A: AudioComponent>(
    audio: Seq<A>,
    start: AudioSampleIndex,
    end: AudioSampleIndex,
) -> Seq<A> {
    Seq::new(audio.len(), |i: int| audio[i].played(start, end))
}

/// The buffer `under` after every component, in insertion order, has added
/// its signal for the frames that begin at `start`.
pub open spec fn mixed<A: AudioComponent>(
    audio: Seq<A>,
    under: Seq<A::Sample>,
    start: AudioSampleIndex,
) -> Seq<A::Sample>
    decreases audio.len(),
{
    if audio.len() == 0 {
        under
    } else {
        audio.last().rendered(mixed(audio.drop_last(), under, start), start)
    }
}

/// A buffer of `count` frames of silence.
pub open spec fn silent<S>(silence: S, count: nat) -> Seq<S> {
    Seq::new(count, |i: int| silence)
}

/// The rig after the modulation tick that falls at the audio position `at`:
/// every modulator advances by the tick numbered `at / period`, and then
/// every audio component refreshes its parameters from them.
pub open spec fn ticked<A: AudioComponent>(rig: Rig<A>, at: nat, period: nat) -> Rig<A> {
    let modulators = stepped_all(rig.modulators, ModulationSampleIndex((at / period) as u64));
    Rig { audio: modulated_all(rig.audio, modulators, audio_index(at)), modulators }
}

/// The number of frames from `at` to the next multiple of `period` after it.
pub open spec fn room(period: nat, at: nat) -> nat {
    (period - at % period) as nat
}

/// The outcome of `before`, followed by `after`.
pub open spec fn followed_by<A: AudioComponent>(before: Outcome<A>, after: Outcome<A>) -> Outcome<
    A,
> {
    Outcome {
        rig: after.rig,
        samples: before.samples + after.samples,
        ticks: before.ticks + after.ticks,
    }
}

/// The outcome of the stretch of a session that begins at `at`: the tick
/// that is due if `at` is a multiple of `period`, then `count` frames mixed
/// over silence. A stretch crosses no multiple of the period.
pub open spec fn stretch<A: AudioComponent>(
    period: nat,
    silence: A::Sample,
    rig: Rig<A>,
    at: nat,
    count: nat,
) -> Outcome<A> {
    let due = at % period == 0;
    let tuned = if due {
        ticked(rig, at, period)
    } else {
        rig
    };
    Outcome {
        rig: Rig {
            audio: played_all(tuned.audio, audio_index(at), audio_index(at + count)),
            modulators: tuned.modulators,
        },
        samples: mixed(tuned.audio, silent(silence, count), audio_index(at)),
        ticks: if due {
            seq![at]
        } else {
            Seq::empty()
        },
    }
}

/// The outcome of producing `frames` frames with `rig` from the audio
/// position `at`: a tick is applied exactly where a frame to be produced
/// stands on a multiple of `period`, and the frames between two ticks are
/// mixed over silence by the components as the earlier tick left them.
pub open spec fn session<A: AudioComponent>(
    period: nat,
    silence: A::Sample,
    rig: Rig<A>,
    at: nat,
    frames: nat,
) -> Outcome<A>
    decreases frames,
{
    if frames == 0 || period == 0 {
        idle(rig)
    } else {
        let count = if frames <= room(period, at) {
            frames
        } else {
            room(period, at)
        };
        let first = stretch(period, silence, rig, at, count);
        followed_by(
            first,
            session(period, silence, first.rig, at + count, (frames - count) as nat),
        )
    }
}

/// The number of frames in a sequence of blocks.
pub open spec fn total_frames(blocks: Seq<nat>) -> nat
    decreases blocks.len(),
{
    if blocks.len() == 0 {
        0
    } else {
        total_frames(blocks.drop_last()) + blocks.last()
    }
}

/// The outcome of a session that is produced block by block: one `session`
/// for each element of `blocks`, each taking up rig and position where the
/// one before left them.
pub open spec fn driven<A: AudioComponent>(
    period: nat,
    silence: A::Sample,
    rig: Rig<A>,
    at: nat,
    blocks: Seq<nat>,
) -> Outcome<A>
    decreases blocks.len(),
{
    if blocks.len() == 0 {
        idle(rig)
    } else {
        let before = driven(period, silence, rig, at, blocks.drop_last());
        followed_by(
            before,
            session(
                period,
                silence,
                before.rig,
                at + total_frames(blocks.drop_last()),
                blocks.last(),
            ),
        )
    }
}

/// The mono samples `mono` written to every channel of their frame:
/// `channels` interleaved copies of each.
pub open spec fn fanned_out<S>(mono: Seq<S>, channels: nat) -> Seq<S> {
    Seq::new(mono.len() * channels, |j: int| mono[j / channels as int])
}

/// A position `offset` frames after a multiple of `period`, with `offset` at
/// most a period, stands where quotient and remainder say.
pub proof fn lemma_past_grid_point(base: nat, offset: nat, period: nat)
    requires
        period > 0,
        base % period == 0,
        offset <= period,
    ensures
        offset < period ==> (base + offset) % period == offset && (base + offset) / period == base
            / period,
        offset == period ==> (base + offset) % period == 0 && (base + offset) / period == base
            / period + 1,
{
    let q = base as int / period as int;
    lemma_fundamental_div_mod(base as int, period as int);
    if offset < period {
        assert(base + offset == q * period + offset) by (nonlinear_arith)
            requires
                base == period * q,
        ;
        lemma_fundamental_div_mod_converse((base + offset) as int, period as int, q, offset as int);
    } else {
        assert(base + offset == (q + 1) * period + 0) by (nonlinear_arith)
            requires
                base == period * q,
                offset == period,
        ;
        lemma_fundamental_div_mod_converse((base + offset) as int, period as int, q + 1, 0);
    }
}

} // verus!
