//! The two families of components that an engine drives.
//!
//! A component is code that the engine cannot see into. Each trait therefore
//! names what a call leaves behind by a specification function of the
//! component's state and the call's arguments, and the engine's contracts are
//! stated over those names. The names have default bodies that say nothing
//! about their values, so an implementation need not define them: it is then
//! described by whatever its methods compute. What the contracts claim of
//! such an implementation is that each method's effect is a function of the
//! component and the arguments alone.

use crate::concepts::{AudioSampleIndex, ModulationSampleIndex};
use crate::topology::ModulationComponentsStore;
use std::ops::Range;
use vstd::pervasive::arbitrary;
use vstd::prelude::*;

verus! {

/// A source of one slowly varying level, advanced once per modulation tick.
pub trait ModulationComponent: Sized {
    /// The type of the level that this modulator emits.
    type Level;

    /// This modulator after the tick numbered `sample`.
    closed spec fn stepped(&self, sample: ModulationSampleIndex) -> Self {
        (arbitrary::<spec_fn(Self, ModulationSampleIndex) -> Self>())(*self, sample)
    }

    /// The level that this modulator emits in its present state.
    closed spec fn level(&self) -> Self::Level {
        (arbitrary::<spec_fn(Self) -> Self::Level>())(*self)
    }

    /// Advances the modulator by the tick numbered `sample`.
    fn process_modulation(&mut self, sample: ModulationSampleIndex)
        ensures
            *final(self) == old(self).stepped(sample),
    ;

    /// The level computed by the most recent tick.
    fn get_current_level(&self) -> (level: Self::Level)
        ensures
            level == self.level(),
    ;
}

/// A producer of audio that adds its signal to a mono buffer.
pub trait AudioComponent: Sized {
    /// The type of one audio sample.
    type Sample: Copy;

    /// The type of the modulators that this component's parameters listen to.
    type Modulator: ModulationComponent;

    /// The buffer `under` after this component has added its signal for the
    /// frames that begin at `start`, one frame per element.
    closed spec fn rendered(&self, under: Seq<Self::Sample>, start: AudioSampleIndex) -> Seq<
        Self::Sample,
    > {
        (arbitrary::<spec_fn(Self, Seq<Self::Sample>, AudioSampleIndex) -> Seq<Self::Sample>>())(
            *self,
            under,
            start,
        )
    }

    /// This component after it has produced the frames from `start` up to,
    /// not including, `end`.
    closed spec fn played(&self, start: AudioSampleIndex, end: AudioSampleIndex) -> Self {
        (arbitrary::<spec_fn(Self, AudioSampleIndex, AudioSampleIndex) -> Self>())(
            *self,
            start,
            end,
        )
    }

    /// This component after it has refreshed its parameters from `modulators`
    /// at the audio position `sample`.
    closed spec fn modulated(
        &self,
        modulators: Seq<Self::Modulator>,
        sample: AudioSampleIndex,
    ) -> Self {
        (arbitrary::<spec_fn(Self, Seq<Self::Modulator>, AudioSampleIndex) -> Self>())(
            *self,
            modulators,
            sample,
        )
    }

    /// Adds this component's signal for the frames of `sample_range` to
    /// `data`, which holds one sample per frame of the range.
    fn process_audio(&mut self, data: &mut [Self::Sample], sample_range: Range<AudioSampleIndex>)
        requires
            sample_range.start.0 <= sample_range.end.0,
            old(data)@.len() == sample_range.end.0 - sample_range.start.0,
        ensures
            final(data)@.len() == old(data)@.len(),
            final(data)@ == old(self).rendered(old(data)@, sample_range.start),
            *final(self) == old(self).played(sample_range.start, sample_range.end),
    ;

    /// Refreshes this component's parameters from the current levels of
    /// `modulators`; `sample` is the audio position at which the tick falls.
    fn apply_modulations(
        &mut self,
        modulators: &ModulationComponentsStore<Self::Modulator>,
        sample: AudioSampleIndex,
    )
        ensures
            *final(self) == old(self).modulated(modulators@, sample),
    ;
}

} // verus!
