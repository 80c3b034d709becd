//! Typed counters for the two clocks of the engine.
//!
//! Positions and distances on the audio clock and on the modulation clock are
//! kept apart by type, so that a count of modulation steps cannot be added to
//! an audio position by accident. All arithmetic is exact: an operation whose
//! mathematical result does not fit the underlying integer is excluded by its
//! precondition.

use std::ops::{Add, Mul, Sub};
use vstd::prelude::*;
use vstd::std_specs::ops::{AddSpecImpl, MulSpecImpl, SubSpecImpl};

verus! {

/// A position on the audio clock: the number of frames produced before it.
#[derive(Copy, Clone, Debug, PartialEq, Eq, Structural)]
pub struct AudioSampleIndex(pub u64);

/// A count of audio frames.
#[derive(Copy, Clone, Debug, PartialEq, Eq, PartialOrd, Ord, Structural)]
pub struct AudioSampleDifference(pub u64);

/// A position on the modulation clock: the number of ticks applied before it.
#[derive(Copy, Clone, Debug, PartialEq, Eq, Structural)]
pub struct ModulationSampleIndex(pub u64);

/// A count of modulation ticks.
#[derive(Copy, Clone, Debug, PartialEq, Eq, Structural)]
pub struct ModulationSampleDifference(pub u64);

/// The number of interleaved channels of an output buffer.
#[derive(Copy, Clone, Debug)]
pub struct Channels(pub u16);

/// Audio frames per second.
#[derive(Copy, Clone, Debug)]
pub struct SamplingRate(pub u32);

/// Modulation ticks per second.
#[derive(Copy, Clone, Debug)]
pub struct ModulationRate(pub u32);

impl Add<AudioSampleDifference> for AudioSampleIndex {
    type Output = AudioSampleIndex;

    /// The position `rhs` frames after `self`.
    fn add(self, rhs: AudioSampleDifference) -> AudioSampleIndex {
        AudioSampleIndex(self.0 + rhs.0)
    }
}

impl AddSpecImpl<AudioSampleDifference> for AudioSampleIndex {
    open spec fn obeys_add_spec() -> bool {
        true
    }

    open spec fn add_req(self, rhs: AudioSampleDifference) -> bool {
        self.0 + rhs.0 <= u64::MAX
    }

    open spec fn add_spec(self, rhs: AudioSampleDifference) -> AudioSampleIndex {
        AudioSampleIndex((self.0 + rhs.0) as u64)
    }
}

impl Sub for AudioSampleIndex {
    type Output = AudioSampleDifference;

    /// The number of frames from `rhs` up to `self`.
    fn sub(self, rhs: AudioSampleIndex) -> AudioSampleDifference {
        AudioSampleDifference(self.0 - rhs.0)
    }
}

impl SubSpecImpl for AudioSampleIndex {
    open spec fn obeys_sub_spec() -> bool {
        true
    }

    open spec fn sub_req(self, rhs: AudioSampleIndex) -> bool {
        rhs.0 <= self.0
    }

    open spec fn sub_spec(self, rhs: AudioSampleIndex) -> AudioSampleDifference {
        AudioSampleDifference((self.0 - rhs.0) as u64)
    }
}

impl Add for AudioSampleDifference {
    type Output = AudioSampleDifference;

    fn add(self, rhs: AudioSampleDifference) -> AudioSampleDifference {
        AudioSampleDifference(self.0 + rhs.0)
    }
}

impl AddSpecImpl for AudioSampleDifference {
    open spec fn obeys_add_spec() -> bool {
        true
    }

    open spec fn add_req(self, rhs: AudioSampleDifference) -> bool {
        self.0 + rhs.0 <= u64::MAX
    }

    open spec fn add_spec(self, rhs: AudioSampleDifference) -> AudioSampleDifference {
        AudioSampleDifference((self.0 + rhs.0) as u64)
    }
}

impl Sub for AudioSampleDifference {
    type Output = AudioSampleDifference;

    fn sub(self, rhs: AudioSampleDifference) -> AudioSampleDifference {
        AudioSampleDifference(self.0 - rhs.0)
    }
}

impl SubSpecImpl for AudioSampleDifference {
    open spec fn obeys_sub_spec() -> bool {
        true
    }

    open spec fn sub_req(self, rhs: AudioSampleDifference) -> bool {
        rhs.0 <= self.0
    }

    open spec fn sub_spec(self, rhs: AudioSampleDifference) -> AudioSampleDifference {
        AudioSampleDifference((self.0 - rhs.0) as u64)
    }
}

impl Mul<Channels> for AudioSampleDifference {
    type Output = usize;

    /// The number of interleaved samples that `self` frames of `rhs` channels
    /// occupy.
    fn mul(self, rhs: Channels) -> usize {
        self.0 as usize * rhs.0 as usize
    }
}

impl MulSpecImpl<Channels> for AudioSampleDifference {
    open spec fn obeys_mul_spec() -> bool {
        true
    }

    open spec fn mul_req(self, rhs: Channels) -> bool {
        self.0 <= usize::MAX && self.0 * rhs.0 <= usize::MAX
    }

    open spec fn mul_spec(self, rhs: Channels) -> usize {
        (self.0 * rhs.0) as usize
    }
}

impl Add<ModulationSampleDifference> for ModulationSampleIndex {
    type Output = ModulationSampleIndex;

    /// The position `rhs` ticks after `self`.
    fn add(self, rhs: ModulationSampleDifference) -> ModulationSampleIndex {
        ModulationSampleIndex(self.0 + rhs.0)
    }
}

impl AddSpecImpl<ModulationSampleDifference> for ModulationSampleIndex {
    open spec fn obeys_add_spec() -> bool {
        true
    }

    open spec fn add_req(self, rhs: ModulationSampleDifference) -> bool {
        self.0 + rhs.0 <= u64::MAX
    }

    open spec fn add_spec(self, rhs: ModulationSampleDifference) -> ModulationSampleIndex {
        ModulationSampleIndex((self.0 + rhs.0) as u64)
    }
}

impl Add for ModulationSampleIndex {
    type Output = ModulationSampleIndex;

    fn add(self, rhs: ModulationSampleIndex) -> ModulationSampleIndex {
        ModulationSampleIndex(self.0 + rhs.0)
    }
}

impl AddSpecImpl for ModulationSampleIndex {
    open spec fn obeys_add_spec() -> bool {
        true
    }

    open spec fn add_req(self, rhs: ModulationSampleIndex) -> bool {
        self.0 + rhs.0 <= u64::MAX
    }

    open spec fn add_spec(self, rhs: ModulationSampleIndex) -> ModulationSampleIndex {
        ModulationSampleIndex((self.0 + rhs.0) as u64)
    }
}

impl Add for ModulationSampleDifference {
    type Output = ModulationSampleDifference;

    fn add(self, rhs: ModulationSampleDifference) -> ModulationSampleDifference {
        ModulationSampleDifference(self.0 + rhs.0)
    }
}

impl AddSpecImpl for ModulationSampleDifference {
    open spec fn obeys_add_spec() -> bool {
        true
    }

    open spec fn add_req(self, rhs: ModulationSampleDifference) -> bool {
        self.0 + rhs.0 <= u64::MAX
    }

    open spec fn add_spec(self, rhs: ModulationSampleDifference) -> ModulationSampleDifference {
        ModulationSampleDifference((self.0 + rhs.0) as u64)
    }
}

impl Sub for ModulationSampleDifference {
    type Output = ModulationSampleDifference;

    fn sub(self, rhs: ModulationSampleDifference) -> ModulationSampleDifference {
        ModulationSampleDifference(self.0 - rhs.0)
    }
}

impl SubSpecImpl for ModulationSampleDifference {
    open spec fn obeys_sub_spec() -> bool {
        true
    }

    open spec fn sub_req(self, rhs: ModulationSampleDifference) -> bool {
        rhs.0 <= self.0
    }

    open spec fn sub_spec(self, rhs: ModulationSampleDifference) -> ModulationSampleDifference {
        ModulationSampleDifference((self.0 - rhs.0) as u64)
    }
}

} // verus!
