//! The components of one rig: its audio components, its modulators, and the
//! mono scratch buffer in which a block is mixed.

use crate::component_store::{ComponentId, ComponentsStore};
use crate::engine::EngineSpec;
use crate::session::{silent, Rig};
use crate::traits::AudioComponent;
use vstd::prelude::*;

verus! {

/// Marks the identifiers of modulators.
#[derive(Copy, Clone, PartialEq, Eq, Structural)]
pub struct ModulationComponentIdTag;

/// Marks the identifiers of audio components.
#[derive(Copy, Clone, PartialEq, Eq, Structural)]
pub struct AudioComponentIdTag;

/// The identifier of a modulator.
pub type ModulationComponentId = ComponentId<ModulationComponentIdTag>;

/// The identifier of a modulator, under its short name.
pub type ModulatorId = ComponentId<ModulationComponentIdTag>;

/// The identifier of an audio component.
pub type AudioComponentId = ComponentId<AudioComponentIdTag>;

/// The store of a topology's audio components.
pub type AudioComponentsStore<A> = ComponentsStore<A, AudioComponentIdTag>;

/// The store of a topology's modulators.
pub type ModulationComponentsStore<M> = ComponentsStore<M, ModulationComponentIdTag>;

/// The components that an engine drives, with the buffer they are mixed in.
pub struct AudioTopology<A: AudioComponent> {
    /// The configuration that the topology was made for.
    pub spec: EngineSpec,
    /// The mono scratch buffer, one sample for each frame of the largest
    /// block.
    pub processing_buffer: Vec<A::Sample>,
    /// The audio components, in insertion order.
    pub audio_components: AudioComponentsStore<A>,
    /// The modulators, in insertion order.
    pub modulation_components: ModulationComponentsStore<A::Modulator>,
    /// The sample that stands for no signal; every stretch of a block is
    /// set to it before the components add to it.
    pub silence: A::Sample,
}

impl<A: AudioComponent> AudioTopology<A> {
    /// Both stores are well formed and the scratch buffer has one sample for
    /// each frame of the largest block.
    pub open spec fn wf(&self) -> bool {
        &&& self.audio_components.wf()
        &&& self.modulation_components.wf()
        &&& self.processing_buffer@.len() == self.spec.max_samples_per_step
    }

    /// The components of the topology as the session model sees them.
    pub open spec fn rig(&self) -> Rig<A> {
        Rig { audio: self.audio_components@, modulators: self.modulation_components@ }
    }

    /// A topology without components for the configuration `spec`, with a
    /// scratch buffer of `spec.max_samples_per_step` samples of `silence`.
    pub fn new(spec: EngineSpec, silence: A::Sample) -> (topology: Self)
        ensures
            topology.wf(),
            topology.spec == spec,
            topology.silence == silence,
            topology.processing_buffer@ == silent(silence, spec.max_samples_per_step as nat),
            topology.audio_components@ == Seq::<A>::empty(),
            topology.modulation_components@ == Seq::<A::Modulator>::empty(),
    {
        let mut processing_buffer: Vec<A::Sample> = Vec::with_capacity(spec.max_samples_per_step);
        let mut i: usize = 0;
        while i < spec.max_samples_per_step
            invariant
                i <= spec.max_samples_per_step,
                processing_buffer@.len() == i,
                forall|j: int| 0 <= j < i ==> processing_buffer@[j] == silence,
            decreases spec.max_samples_per_step - i,
        {
            processing_buffer.push(silence);
            i += 1;
        }
        assert(processing_buffer@ =~= silent(silence, spec.max_samples_per_step as nat));
        Self {
            spec,
            processing_buffer,
            audio_components: ComponentsStore::default(),
            modulation_components: ComponentsStore::default(),
            silence,
        }
    }

    /// Takes ownership of `component` and returns its identifier: the number
    /// of audio components that were added before it.
    pub fn add_component(&mut self, component: A) -> (id: AudioComponentId)
        requires
            old(self).wf(),
            old(self).audio_components@.len() < usize::MAX,
        ensures
            final(self).wf(),
            id.0 == old(self).audio_components@.len(),
            final(self).audio_components@ == old(self).audio_components@.push(component),
            final(self).modulation_components == old(self).modulation_components,
            final(self).processing_buffer == old(self).processing_buffer,
            final(self).spec == old(self).spec,
            final(self).silence == old(self).silence,
    {
        let boxed = Box::new(component);
        self.audio_components.add_component(boxed)
    }

    /// Takes ownership of `modulator` and returns its identifier: the number
    /// of modulators that were added before it.
    pub fn add_modulator(&mut self, modulator: A::Modulator) -> (id: ModulationComponentId)
        requires
            old(self).wf(),
            old(self).modulation_components@.len() < usize::MAX,
        ensures
            final(self).wf(),
            id.0 == old(self).modulation_components@.len(),
            final(self).modulation_components@ == old(self).modulation_components@.push(modulator),
            final(self).audio_components == old(self).audio_components,
            final(self).processing_buffer == old(self).processing_buffer,
            final(self).spec == old(self).spec,
            final(self).silence == old(self).silence,
    {
        let boxed = Box::new(modulator);
        self.modulation_components.add_component(boxed)
    }

    /// The modulator that `id` names, if the topology holds one under it.
    pub fn get_modulator(&self, id: ModulationComponentId) -> (found: Option<&A::Modulator>)
        ensures
            id.0 < self.modulation_components@.len() ==> found == Some(
                &self.modulation_components@[id.0 as int],
            ),
            id.0 >= self.modulation_components@.len() ==> found is None,
    {
        self.modulation_components.get_component(id)
    }
}

} // verus!
