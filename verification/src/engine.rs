//! The scheduler: it interleaves modulation ticks with audio production.

use crate::component_store::ComponentId;
use crate::concepts::{
    AudioSampleDifference, AudioSampleIndex, Channels, ModulationRate, ModulationSampleIndex,
    SamplingRate,
};
use crate::session::{
    fanned_out, lemma_past_grid_point, mixed, modulated_all, played_all, session, silent,
    stepped_all, stretch, Rig,
};
use crate::topology::{AudioComponentsStore, AudioTopology, ModulationComponentsStore};
use crate::traits::{AudioComponent, ModulationComponent};
use vstd::arithmetic::div_mod::{lemma_fundamental_div_mod, lemma_fundamental_div_mod_converse};
use vstd::prelude::*;

verus! {

/// Why a set of rates and sizes is not a usable engine configuration.
#[derive(Copy, Clone, Debug, PartialEq, Eq, Structural)]
pub enum SpecError {
    /// A rate, the channel count or the block size is zero.
    ZeroField,
    /// The sampling rate is not a whole multiple of the modulation rate.
    NotAMultiple,
}

/// The fixed configuration of an engine.
#[derive(Copy, Clone, Debug)]
pub struct EngineSpec {
    pub sampling_rate: SamplingRate,
    pub modulation_rate: ModulationRate,
    pub modulation_period: AudioSampleDifference,
    pub channels: Channels,
    pub max_samples_per_step: usize,
}

impl EngineSpec {
    /// No field is zero, the sampling rate is a multiple of the modulation
    /// rate, and the period is their quotient.
    pub open spec fn wf(&self) -> bool {
        &&& self.sampling_rate.0 > 0
        &&& self.modulation_rate.0 > 0
        &&& self.channels.0 > 0
        &&& self.max_samples_per_step > 0
        &&& self.sampling_rate.0 % self.modulation_rate.0 == 0
        &&& self.modulation_period.0 == self.sampling_rate.0 / self.modulation_rate.0
    }

    /// A usable configuration has a period of at least one frame.
    pub proof fn lemma_period_positive(&self)
        requires
            self.wf(),
        ensures
            self.modulation_period.0 > 0,
    {
        lemma_fundamental_div_mod(self.sampling_rate.0 as int, self.modulation_rate.0 as int);
        let rate = self.modulation_rate.0 as int;
        let quotient = self.sampling_rate.0 as int / rate;
        assert(quotient > 0) by (nonlinear_arith)
            requires
                rate * quotient > 0,
                rate > 0,
        ;
    }

    /// What `new` returns for the given rates, channel count and largest
    /// block: the error for a zero field first, then the error for rates
    /// that do not divide, else the configuration with the period that the
    /// two rates imply.
    pub open spec fn checked(
        sampling_rate: SamplingRate,
        modulation_rate: ModulationRate,
        channels: Channels,
        max_samples_per_step: usize,
    ) -> Result<EngineSpec, SpecError> {
        if sampling_rate.0 == 0 || modulation_rate.0 == 0 || channels.0 == 0
            || max_samples_per_step == 0 {
            Err(SpecError::ZeroField)
        } else if sampling_rate.0 % modulation_rate.0 != 0 {
            Err(SpecError::NotAMultiple)
        } else {
            Ok(
                EngineSpec {
                    sampling_rate,
                    modulation_rate,
                    modulation_period: AudioSampleDifference(
                        (sampling_rate.0 / modulation_rate.0) as u64,
                    ),
                    channels,
                    max_samples_per_step,
                },
            )
        }
    }

    /// The configuration with the given rates, channel count and largest
    /// block, and with the modulation period that the two rates imply; an
    /// error if a field is zero or the sampling rate is not a multiple of
    /// the modulation rate.
    pub fn new(
        sampling_rate: SamplingRate,
        modulation_rate: ModulationRate,
        channels: Channels,
        max_samples_per_step: usize,
    ) -> (made: Result<EngineSpec, SpecError>)
        ensures
            made == Self::checked(sampling_rate, modulation_rate, channels, max_samples_per_step),
            made matches Ok(spec) ==> spec.wf(),
    {
        if sampling_rate.0 == 0 || modulation_rate.0 == 0 || channels.0 == 0
            || max_samples_per_step == 0 {
            return Err(SpecError::ZeroField);
        }
        if sampling_rate.0 % modulation_rate.0 != 0 {
            return Err(SpecError::NotAMultiple);
        }
        let period: u32 = sampling_rate.0 / modulation_rate.0;
        Ok(
            EngineSpec {
                sampling_rate,
                modulation_rate,
                modulation_period: AudioSampleDifference(period as u64),
                channels,
                max_samples_per_step,
            },
        )
    }
}

/// The dual-rate clock of one session.
pub struct Engine {
    pub spec: EngineSpec,
    current_audio_sample: AudioSampleIndex,
    current_modulation_sample: ModulationSampleIndex,
    last_audio_sample_with_modulation: AudioSampleIndex,
}

impl Engine {
    /// The configuration that the engine runs with.
    pub closed spec fn config(&self) -> EngineSpec {
        self.spec
    }

    /// The audio position: the number of frames produced so far.
    pub closed spec fn position(&self) -> nat {
        self.current_audio_sample.0 as nat
    }

    /// The number of modulation ticks applied so far.
    pub closed spec fn ticks(&self) -> nat {
        self.current_modulation_sample.0 as nat
    }

    /// The audio position at which the most recent tick was applied.
    pub closed spec fn last_tick(&self) -> nat {
        self.last_audio_sample_with_modulation.0 as nat
    }

    /// The modulation period in frames.
    pub open spec fn period(&self) -> nat {
        self.config().modulation_period.0 as nat
    }

    /// The configuration is usable and the two clocks agree: before the
    /// first frame no tick has been applied; after it, the most recent tick
    /// fell on a multiple of the period, at most one period ago, and it was
    /// the one numbered by that multiple.
    pub open spec fn wf(&self) -> bool {
        &&& self.config().wf()
        &&& if self.position() == 0 {
            self.last_tick() == 0 && self.ticks() == 0
        } else {
            &&& self.last_tick() % self.period() == 0
            &&& self.last_tick() < self.position() <= self.last_tick() + self.period()
            &&& self.ticks() == self.last_tick() / self.period() + 1
        }
    }

    /// The clock is a function of the position: two well-formed engines with
    /// the same configuration at the same audio position are the same
    /// engine.
    pub proof fn lemma_clock_determined(self, other: Engine)
        requires
            self.wf(),
            other.wf(),
            self.config() == other.config(),
            self.position() == other.position(),
        ensures
            self == other,
    {
        if self.position() > 0 {
            let period = self.period();
            let before = (self.position() - 1) as nat;
            self.spec.lemma_period_positive();
            lemma_past_grid_point(
                self.last_tick(),
                (before - self.last_tick()) as nat,
                period,
            );
            lemma_past_grid_point(
                other.last_tick(),
                (before - other.last_tick()) as nat,
                period,
            );
            lemma_fundamental_div_mod(self.last_tick() as int, period as int);
            lemma_fundamental_div_mod(other.last_tick() as int, period as int);
        }
    }

    /// The modulation clock follows the audio clock: the number of ticks
    /// applied is the number of multiples of the period below the position.
    pub proof fn lemma_ticks_counted(self)
        requires
            self.wf(),
        ensures
            self.ticks() == (self.position() + self.period() - 1) / (self.period() as int),
    {
        let period = self.period();
        self.spec.lemma_period_positive();
        if self.position() == 0 {
            lemma_fundamental_div_mod_converse(period - 1, period as int, 0, period - 1);
        } else {
            let last = self.last_tick();
            lemma_past_grid_point(last, period, period);
            lemma_past_grid_point(last + period, (self.position() - last - 1) as nat, period);
        }
    }

    /// An engine at the start of a session: no frame produced, no tick
    /// applied.
    pub fn new(spec: EngineSpec) -> (engine: Engine)
        ensures
            engine.config() == spec,
            engine.position() == 0,
            engine.ticks() == 0,
            engine.last_tick() == 0,
            spec.wf() ==> engine.wf(),
    {
        Engine {
            spec,
            current_audio_sample: AudioSampleIndex(0),
            current_modulation_sample: ModulationSampleIndex(0),
            last_audio_sample_with_modulation: AudioSampleIndex(0),
        }
    }

    /// A topology without components for this engine's configuration.
    pub fn create_empty_topology<A: AudioComponent>(&self, silence: A::Sample) -> (topology:
        AudioTopology<A>)
        ensures
            topology.wf(),
            topology.spec == self.config(),
            topology.silence == silence,
            topology.processing_buffer@ == silent(
                silence,
                self.config().max_samples_per_step as nat,
            ),
            topology.audio_components@ == Seq::<A>::empty(),
            topology.modulation_components@ == Seq::<A::Modulator>::empty(),
    {
        AudioTopology::new(self.spec, silence)
    }

    /// Fills `audio` with the next block of the session.
    ///
    /// The block has one frame for each `channels` samples of `audio`. The
    /// frames are produced as `session` says, from the engine's position on:
    /// a modulation tick wherever a frame stands on a multiple of the period,
    /// and the components mixed over silence in between. Every channel of a
    /// frame receives the frame's mono sample, and the audio clock advances
    /// by the number of frames. A block of no frames changes nothing.
    pub fn advance<A: AudioComponent>(
        &mut self,
        topology: &mut AudioTopology<A>,
        audio: &mut [A::Sample],
    )
        requires
            old(self).wf(),
            old(topology).wf(),
            old(topology).spec == old(self).config(),
            old(audio)@.len() % (old(self).config().channels.0 as nat) == 0,
            old(audio)@.len() / (old(self).config().channels.0 as nat) <= old(
                self,
            ).config().max_samples_per_step,
            old(self).position() + old(audio)@.len() / (old(self).config().channels.0 as nat)
                <= u64::MAX,
        ensures
            final(self).wf(),
            final(topology).wf(),
            final(self).config() == old(self).config(),
            final(topology).spec == old(topology).spec,
            final(topology).silence == old(topology).silence,
            final(audio)@.len() == old(audio)@.len(),
            ({
                let channels = old(self).config().channels.0 as nat;
                let frames = old(audio)@.len() / channels;
                let outcome = session(
                    old(self).period(),
                    old(topology).silence,
                    old(topology).rig(),
                    old(self).position(),
                    frames,
                );
                &&& final(self).position() == old(self).position() + frames
                &&& final(self).ticks() == old(self).ticks() + outcome.ticks.len()
                &&& final(topology).rig() == outcome.rig
                &&& final(audio)@ == fanned_out(outcome.samples, channels)
                &&& final(topology).processing_buffer@ == outcome.samples + old(
                    topology,
                ).processing_buffer@.skip(frames as int)
            }),
    {
        let channels = self.spec.channels.0 as usize;
        let total = audio.len() / channels;
        proof {
            lemma_fundamental_div_mod(audio@.len() as int, channels as int);
            assert(channels * total == total * channels) by (nonlinear_arith);
        }
        let silence = topology.silence;
        let scratch = topology.processing_buffer.as_mut_slice();
        let (mono, _spare) = scratch.split_at_mut(total);
        self.render::<A>(
            &mut topology.modulation_components,
            &mut topology.audio_components,
            mono,
            silence,
        );
        self.mix_output(mono, audio);
    }

    /// Takes the rig through as many frames as `mono` holds and leaves their
    /// mono mix in it: a tick wherever a frame stands on a multiple of the
    /// period, and between ticks one stretch of audio.
    #[verifier::rlimit(40)]
    fn render<A: AudioComponent>(
        &mut self,
        modulators: &mut ModulationComponentsStore<A::Modulator>,
        components: &mut AudioComponentsStore<A>,
        mono: &mut [A::Sample],
        silence: A::Sample,
    )
        requires
            old(self).wf(),
            old(modulators).wf(),
            old(components).wf(),
            old(self).position() + old(mono)@.len() <= u64::MAX,
        ensures
            final(self).wf(),
            final(modulators).wf(),
            final(components).wf(),
            final(self).config() == old(self).config(),
            final(self).position() == old(self).position() + old(mono)@.len(),
            final(mono)@.len() == old(mono)@.len(),
            ({
                let outcome = session(
                    old(self).period(),
                    silence,
                    Rig { audio: old(components)@, modulators: old(modulators)@ },
                    old(self).position(),
                    old(mono)@.len(),
                );
                &&& final(components)@ == outcome.rig.audio
                &&& final(modulators)@ == outcome.rig.modulators
                &&& final(mono)@ == outcome.samples
                &&& final(self).ticks() == old(self).ticks() + outcome.ticks.len()
            }),
    {
        let total = mono.len();
        if total == 0 {
            return ;
        }
        let period: u64 = self.spec.modulation_period.0;
        proof {
            self.spec.lemma_period_positive();
        }
        let ghost rig_at_entry = Rig::<A> { audio: components@, modulators: modulators@ };
        let ghost at_entry = self.position();
        let ghost ticks_at_entry = self.ticks();
        let ghost whole = session(period as nat, silence, rig_at_entry, at_entry, total as nat);

        if self.current_audio_sample.0 == 0 {
            self.process_modulation::<A>(modulators, components);
        }
        let elapsed: u64 = self.current_audio_sample.0 - self.last_audio_sample_with_modulation.0;
        let head: u64 = period - elapsed;
        let first: usize = if head >= total as u64 {
            total
        } else {
            head as usize
        };
        proof {
            if at_entry == 0 {
                assert(0nat % (period as nat) == 0 && 0nat / (period as nat) == 0) by {
                    lemma_fundamental_div_mod_converse(0, period as int, 0, 0);
                }
            }
            lemma_past_grid_point(self.last_tick(), elapsed as nat, period as nat);
        }
        let part = window(mono, 0, first);
        self.process_audio::<A>(components, part, silence, AudioSampleDifference(first as u64));
        let mut offset: usize = first;
        let mut remaining: usize = total - first;
        proof {
            if first > 0 {
                let begun = stretch(period as nat, silence, rig_at_entry, at_entry, first as nat);
                assert(components@ == begun.rig.audio);
                assert(modulators@ == begun.rig.modulators);
                assert(mono@.take(offset as int) =~= begun.samples);
                assert(whole.samples =~= begun.samples + session(
                    period as nat,
                    silence,
                    begun.rig,
                    (at_entry + first) as nat,
                    remaining as nat,
                ).samples);
            } else {
                assert(mono@.take(offset as int) =~= Seq::<A::Sample>::empty());
            }
        }
        while remaining > 0
            invariant
                self.wf(),
                modulators.wf(),
                components.wf(),
                self.config() == old(self).config(),
                period == self.period(),
                period > 0,
                mono@.len() == total,
                offset + remaining == total,
                self.position() == at_entry + offset,
                at_entry + total <= u64::MAX,
                remaining > 0 ==> self.position() == self.last_tick() + period,
                self.position() > 0,
                ({
                    let rest = session(
                        period as nat,
                        silence,
                        Rig { audio: components@, modulators: modulators@ },
                        self.position(),
                        remaining as nat,
                    );
                    &&& whole.rig == rest.rig
                    &&& whole.samples == mono@.take(offset as int) + rest.samples
                    &&& whole.ticks.len() == (self.ticks() - ticks_at_entry) + rest.ticks.len()
                }),
            decreases remaining,
        {
            let ghost rig = Rig::<A> { audio: components@, modulators: modulators@ };
            let ghost at = self.position();
            let ghost done = mono@.take(offset as int);
            proof {
                lemma_past_grid_point(self.last_tick(), period as nat, period as nat);
            }
            self.process_modulation::<A>(modulators, components);
            let chunk: usize = if remaining as u64 <= period {
                remaining
            } else {
                period as usize
            };
            let part = window(mono, offset, chunk);
            self.process_audio::<A>(components, part, silence, AudioSampleDifference(chunk as u64));
            proof {
                let one = stretch(period as nat, silence, rig, at, chunk as nat);
                assert(components@ == one.rig.audio);
                assert(modulators@ == one.rig.modulators);
                assert(mono@.take(offset + chunk) =~= done + one.samples);
                let rest = session(
                    period as nat,
                    silence,
                    one.rig,
                    (at + chunk) as nat,
                    (remaining - chunk) as nat,
                );
                assert(whole.samples =~= mono@.take(offset + chunk) + rest.samples);
                lemma_past_grid_point(at, chunk as nat, period as nat);
            }
            offset += chunk;
            remaining -= chunk;
        }
        assert(mono@.take(offset as int) =~= mono@);
    }

    /// Writes each sample of `mono_output` to every channel of its frame in
    /// `interleaved_output`.
    pub fn mix_output<S: Copy>(&self, mono_output: &[S], interleaved_output: &mut [S])
        requires
            self.config().channels.0 > 0,
            old(interleaved_output)@.len() == mono_output@.len() * self.config().channels.0,
        ensures
            final(interleaved_output)@ == fanned_out(
                mono_output@,
                self.config().channels.0 as nat,
            ),
    {
        let channels = self.spec.channels.0 as usize;
        let frames = mono_output.len();
        let mut frame: usize = 0;
        let mut i: usize = 0;
        while frame < frames
            invariant
                channels == self.config().channels.0,
                channels > 0,
                frames == mono_output@.len(),
                interleaved_output@.len() == frames * channels,
                frame <= frames,
                i == frame * channels,
                forall|k: int| 0 <= k < i ==> interleaved_output@[k] == mono_output@[k / channels as int],
            decreases frames - frame,
        {
            let sample = mono_output[frame];
            let mut channel: usize = 0;
            while channel < channels
                invariant
                    channels > 0,
                    frames == mono_output@.len(),
                    interleaved_output@.len() == frames * channels,
                    frame < frames,
                    channel <= channels,
                    i == frame * channels + channel,
                    sample == mono_output@[frame as int],
                    forall|k: int|
                        0 <= k < i ==> interleaved_output@[k] == mono_output@[k / channels as int],
                decreases channels - channel,
            {
                proof {
                    assert(frame * channels + channels <= frames * channels) by (nonlinear_arith)
                        requires
                            frame < frames,
                            channels > 0,
                    ;
                    lemma_fundamental_div_mod_converse(
                        i as int,
                        channels as int,
                        frame as int,
                        channel as int,
                    );
                }
                interleaved_output[i] = sample;
                i += 1;
                channel += 1;
            }
            proof {
                assert(frame * channels + channels == (frame + 1) * channels) by (nonlinear_arith);
            }
            frame += 1;
        }
        assert(interleaved_output@ =~= fanned_out(mono_output@, channels as nat));
    }

    /// Applies one modulation tick at the current audio position: every
    /// modulator advances, in insertion order, and then every audio component
    /// refreshes its parameters from them, in insertion order.
    fn process_modulation<A: AudioComponent>(
        &mut self,
        modulators: &mut ModulationComponentsStore<A::Modulator>,
        components: &mut AudioComponentsStore<A>,
    )
        requires
            old(modulators).wf(),
            old(components).wf(),
            old(self).ticks() < u64::MAX,
        ensures
            final(modulators).wf(),
            final(components).wf(),
            final(modulators)@ == stepped_all(
                old(modulators)@,
                ModulationSampleIndex(old(self).ticks() as u64),
            ),
            final(components)@ == modulated_all(
                old(components)@,
                final(modulators)@,
                AudioSampleIndex(old(self).position() as u64),
            ),
            final(self).config() == old(self).config(),
            final(self).position() == old(self).position(),
            final(self).last_tick() == old(self).position(),
            final(self).ticks() == old(self).ticks() + 1,
    {
        step_modulators(modulators, self.current_modulation_sample);
        refresh_components(components, modulators, self.current_audio_sample);
        self.last_audio_sample_with_modulation = self.current_audio_sample;
        self.current_modulation_sample = self.current_modulation_sample + ModulationSampleIndex(1);
    }

    /// Produces `total_samples` frames from the current audio position into
    /// `audio`: the buffer is silenced, then every audio component adds its
    /// signal, in insertion order. Nothing is called for an empty run.
    fn process_audio<A: AudioComponent>(
        &mut self,
        components: &mut AudioComponentsStore<A>,
        audio: &mut [A::Sample],
        silence: A::Sample,
        total_samples: AudioSampleDifference,
    )
        requires
            old(components).wf(),
            old(audio)@.len() == total_samples.0,
            old(self).position() + total_samples.0 <= u64::MAX,
        ensures
            final(components).wf(),
            final(audio)@.len() == old(audio)@.len(),
            final(self).config() == old(self).config(),
            final(self).last_tick() == old(self).last_tick(),
            final(self).ticks() == old(self).ticks(),
            final(self).position() == old(self).position() + total_samples.0,
            total_samples.0 == 0 ==> final(components)@ == old(components)@ && final(audio)@ == old(
                audio,
            )@,
            total_samples.0 > 0 ==> final(components)@ == played_all(
                old(components)@,
                AudioSampleIndex(old(self).position() as u64),
                AudioSampleIndex((old(self).position() + total_samples.0) as u64),
            ) && final(audio)@ == mixed(
                old(components)@,
                silent(silence, total_samples.0 as nat),
                AudioSampleIndex(old(self).position() as u64),
            ),
    {
        if total_samples.0 == 0 {
            return ;
        }
        let start_sample = self.current_audio_sample;
        let end_sample = start_sample + total_samples;
        fill(audio, silence);
        let count = components.len();
        let mut i: usize = 0;
        while i < count
            invariant
                i <= count,
                components.wf(),
                components@.len() == count,
                old(components)@.len() == count,
                start_sample.0 <= end_sample.0,
                audio@.len() == end_sample.0 - start_sample.0,
                audio@ == mixed(
                    old(components)@.take(i as int),
                    silent(silence, total_samples.0 as nat),
                    start_sample,
                ),
                forall|j: int|
                    0 <= j < i ==> components@[j] == old(components)@[j].played(
                        start_sample,
                        end_sample,
                    ),
                forall|j: int| i <= j < count ==> components@[j] == old(components)@[j],
            decreases count - i,
        {
            proof {
                let before = old(components)@.take(i as int);
                let with = old(components)@.take(i + 1);
                assert(with.drop_last() =~= before);
                assert(with.last() == old(components)@[i as int]);
            }
            match components.get_component_mut(ComponentId::new(i)) {
                Some(component) => {
                    component.process_audio(audio, start_sample..end_sample);
                },
                None => {},
            }
            i += 1;
        }
        assert(old(components)@.take(count as int) =~= old(components)@);
        assert(components@ =~= played_all(old(components)@, start_sample, end_sample));
        self.current_audio_sample = end_sample;
    }
}

/// The `count` elements of `buffer` that begin at `offset`, for writing.
fn window<S>(buffer: &mut [S], offset: usize, count: usize) -> (part: &mut [S])
    requires
        offset + count <= old(buffer)@.len(),
    ensures
        part@ == old(buffer)@.subrange(offset as int, offset + count),
        final(buffer)@ == old(buffer)@.take(offset as int) + final(part)@ + old(buffer)@.skip(
            offset + count,
        ),
{
    let (_before, rest) = buffer.split_at_mut(offset);
    let (part, _after) = rest.split_at_mut(count);
    part
}

/// Overwrites every element of `data` with `value`.
fn fill<S: Copy>(data: &mut [S], value: S)
    ensures
        final(data)@ == silent(value, old(data)@.len()),
{
    let count = data.len();
    let mut i: usize = 0;
    while i < count
        invariant
            i <= count,
            data@.len() == count,
            forall|j: int| 0 <= j < i ==> data@[j] == value,
        decreases count - i,
    {
        data[i] = value;
        i += 1;
    }
    assert(data@ =~= silent(value, old(data)@.len()));
}

/// Refreshes every audio component of `components` from `modulators` at the
/// audio position `sample`.
fn refresh_components<A: AudioComponent>(
    components: &mut AudioComponentsStore<A>,
    modulators: &ModulationComponentsStore<A::Modulator>,
    sample: AudioSampleIndex,
)
    requires
        old(components).wf(),
    ensures
        final(components).wf(),
        final(components)@ == modulated_all(old(components)@, modulators@, sample),
{
    let count = components.len();
    let mut i: usize = 0;
    while i < count
        invariant
            i <= count,
            components.wf(),
            components@.len() == count,
            old(components)@.len() == count,
            forall|j: int|
                0 <= j < i ==> components@[j] == old(components)@[j].modulated(
                    modulators@,
                    sample,
                ),
            forall|j: int| i <= j < count ==> components@[j] == old(components)@[j],
        decreases count - i,
    {
        match components.get_component_mut(ComponentId::new(i)) {
            Some(component) => {
                component.apply_modulations(modulators, sample);
            },
            None => {},
        }
        i += 1;
    }
    assert(components@ =~= modulated_all(old(components)@, modulators@, sample));
}

/// Advances every modulator of `modulators` by the tick numbered `sample`.
fn step_modulators<M: ModulationComponent>(
    modulators: &mut ModulationComponentsStore<M>,
    sample: ModulationSampleIndex,
)
    requires
        old(modulators).wf(),
    ensures
        final(modulators).wf(),
        final(modulators)@ == stepped_all(old(modulators)@, sample),
{
    let count = modulators.len();
    let mut i: usize = 0;
    while i < count
        invariant
            i <= count,
            modulators.wf(),
            modulators@.len() == count,
            old(modulators)@.len() == count,
            forall|j: int| 0 <= j < i ==> modulators@[j] == old(modulators)@[j].stepped(sample),
            forall|j: int| i <= j < count ==> modulators@[j] == old(modulators)@[j],
        decreases count - i,
    {
        match modulators.get_component_mut(ComponentId::new(i)) {
            Some(modulator) => {
                modulator.process_modulation(sample);
            },
            None => {},
        }
        i += 1;
    }
    assert(modulators@ =~= stepped_all(old(modulators)@, sample));
}

/// An engine at the start of a session and a topology without components,
/// both for the configuration that the arguments describe.
pub fn empty_engine<A: AudioComponent>(
    sampling_rate: SamplingRate,
    modulation_rate: ModulationRate,
    samples_per_step: usize,
    channels: Channels,
    silence: A::Sample,
) -> (made: Result<(Engine, AudioTopology<A>), SpecError>)
    ensures
        match EngineSpec::checked(sampling_rate, modulation_rate, channels, samples_per_step) {
            Ok(spec) => made matches Ok(pair) && {
                &&& pair.0.wf()
                &&& pair.0.config() == spec
                &&& pair.0.position() == 0
                &&& pair.1.wf()
                &&& pair.1.spec == spec
                &&& pair.1.silence == silence
                &&& pair.1.processing_buffer@ == silent(silence, samples_per_step as nat)
                &&& pair.1.audio_components@ == Seq::<A>::empty()
                &&& pair.1.modulation_components@ == Seq::<A::Modulator>::empty()
            },
            Err(error) => made matches Err(e) && e == error,
        },
{
    match EngineSpec::new(sampling_rate, modulation_rate, channels, samples_per_step) {
        Ok(spec) => {
            let engine = Engine::new(spec);
            let audio_topology = engine.create_empty_topology(silence);
            Ok((engine, audio_topology))
        },
        Err(error) => Err(error),
    }
}

} // verus!
