use rynth::concepts::{AudioSampleIndex, Channels, ModulationRate, ModulationSampleIndex, SamplingRate};
use rynth::engine::{empty_engine, Engine, EngineSpec};
use rynth::topology::{AudioTopology, ModulationComponentsStore};
use rynth::traits::{AudioComponent, ModulationComponent};
use std::ops::Range;

/// A modulator that counts its ticks and remembers their numbers.
struct Counter {
    ticks: Vec<u64>,
}

impl ModulationComponent for Counter {
    type Level = f32;

    fn process_modulation(&mut self, sample: ModulationSampleIndex) {
        self.ticks.push(sample.0);
    }

    fn get_current_level(&self) -> f32 {
        self.ticks.len() as f32
    }
}

/// An audio component whose signal names the frame and the latest tick, and
/// that remembers every call.
struct Probe {
    gain: f32,
    ticks_heard: f32,
    refreshed_at: Vec<u64>,
    stretches: Vec<(u64, u64, usize)>,
}

impl Probe {
    fn new(gain: f32) -> Self {
        Probe { gain, ticks_heard: 0.0, refreshed_at: vec![], stretches: vec![] }
    }

    fn signal(gain: f32, ticks_heard: f32, frame: u64) -> f32 {
        gain * ((frame % 1000) as f32 + 1000.0 * ticks_heard)
    }
}

impl AudioComponent for Probe {
    type Sample = f32;
    type Modulator = Counter;

    fn process_audio(&mut self, data: &mut [f32], sample_range: Range<AudioSampleIndex>) {
        self.stretches.push((sample_range.start.0, sample_range.end.0, data.len()));
        for (sample, frame) in data.iter_mut().zip(sample_range.start.0..sample_range.end.0) {
            *sample += Probe::signal(self.gain, self.ticks_heard, frame);
        }
    }

    fn apply_modulations(
        &mut self,
        modulators: &ModulationComponentsStore<Counter>,
        sample: AudioSampleIndex,
    ) {
        self.refreshed_at.push(sample.0);
        self.ticks_heard = match modulators.iter_components().first() {
            Some(counter) => counter.get_current_level(),
            None => self.ticks_heard + 1.0,
        };
    }
}

fn rig(max_samples_per_step: usize, channels: u16) -> (Engine, AudioTopology<Probe>) {
    let (engine, mut topology) = empty_engine(
        SamplingRate(48000),
        ModulationRate(100),
        max_samples_per_step,
        Channels(channels),
        0.0,
    )
    .unwrap();
    topology.add_modulator(Counter { ticks: vec![] });
    topology.add_component(Probe::new(1.0));
    (engine, topology)
}

fn drive(engine: &mut Engine, topology: &mut AudioTopology<Probe>, blocks: &[usize]) -> Vec<f32> {
    let channels = engine.spec.channels.0 as usize;
    let mut obtained = vec![];
    for frames in blocks {
        assert!(*frames <= engine.spec.max_samples_per_step);
        let mut buffer = vec![f32::NAN; frames * channels];
        engine.advance(topology, buffer.as_mut_slice());
        obtained.extend(buffer);
    }
    obtained
}

fn expected_mono(frames: u64) -> Vec<f32> {
    (0..frames).map(|frame| Probe::signal(1.0, (frame / 480 + 1) as f32, frame)).collect()
}

fn probe(topology: &AudioTopology<Probe>) -> &Probe {
    topology.audio_components.iter_components()[0]
}

fn counter(topology: &AudioTopology<Probe>) -> &Counter {
    topology.modulation_components.iter_components()[0]
}

#[test]
fn ticks_fall_on_the_multiples_of_the_period() {
    let (mut engine, mut topology) = rig(128, 1);
    drive(&mut engine, &mut topology, &[128; 16]);
    // 2048 frames: the multiples of 480 below 2048 are 0, 480, 960, 1440, 1920.
    assert_eq!(counter(&topology).ticks, vec![0, 1, 2, 3, 4]);
    assert_eq!(probe(&topology).refreshed_at, vec![0, 480, 960, 1440, 1920]);
}

#[test]
fn ticks_fall_on_the_multiples_of_the_period_whatever_the_blocks() {
    let (mut engine, mut topology) = rig(2000, 1);
    drive(&mut engine, &mut topology, &[1, 478, 1, 1, 959, 2000, 1, 0, 7]);
    // 3448 frames: the multiples of 480 below 3448 are 0, 480, ..., 3360.
    assert_eq!(counter(&topology).ticks, vec![0, 1, 2, 3, 4, 5, 6, 7]);
    assert_eq!(
        probe(&topology).refreshed_at,
        vec![0, 480, 960, 1440, 1920, 2400, 2880, 3360]
    );
}

#[test]
fn a_tick_that_falls_on_the_end_of_a_block_waits_for_the_next_frame() {
    let (mut engine, mut topology) = rig(480, 1);
    drive(&mut engine, &mut topology, &[480]);
    assert_eq!(probe(&topology).refreshed_at, vec![0]);
    drive(&mut engine, &mut topology, &[0]);
    assert_eq!(probe(&topology).refreshed_at, vec![0]);
    drive(&mut engine, &mut topology, &[1]);
    assert_eq!(probe(&topology).refreshed_at, vec![0, 480]);
    assert_eq!(counter(&topology).ticks, vec![0, 1]);
}

#[test]
fn an_empty_block_changes_nothing() {
    let (mut engine, mut topology) = rig(128, 2);
    let obtained = drive(&mut engine, &mut topology, &[0, 0]);
    assert!(obtained.is_empty());
    assert!(counter(&topology).ticks.is_empty());
    assert!(probe(&topology).refreshed_at.is_empty());
    assert!(probe(&topology).stretches.is_empty());

    let obtained = drive(&mut engine, &mut topology, &[3]);
    assert_eq!(obtained, vec![1000.0, 1000.0, 1001.0, 1001.0, 1002.0, 1002.0]);
    assert_eq!(counter(&topology).ticks, vec![0]);
}

#[test]
fn the_first_block_starts_with_the_first_tick() {
    let (mut engine, mut topology) = rig(128, 1);
    let obtained = drive(&mut engine, &mut topology, &[2]);
    assert_eq!(obtained, vec![1000.0, 1001.0]);
    assert_eq!(probe(&topology).refreshed_at, vec![0]);
    assert_eq!(probe(&topology).stretches, vec![(0, 2, 2)]);
}

#[test]
fn output_does_not_depend_on_the_block_sizes() {
    let expected = expected_mono(5000);

    let (mut engine, mut topology) = rig(5000, 1);
    assert_eq!(drive(&mut engine, &mut topology, &[5000]), expected);

    let (mut engine, mut topology) = rig(128, 1);
    let mut blocks = vec![128; 39];
    blocks.push(8);
    assert_eq!(drive(&mut engine, &mut topology, &blocks), expected);

    let (mut engine, mut topology) = rig(480, 1);
    let mut blocks = vec![480; 10];
    blocks.push(200);
    assert_eq!(drive(&mut engine, &mut topology, &blocks), expected);

    let (mut engine, mut topology) = rig(1000, 1);
    assert_eq!(drive(&mut engine, &mut topology, &[1000; 5]), expected);

    let (mut engine, mut topology) = rig(1500, 1);
    assert_eq!(
        drive(&mut engine, &mut topology, &[1, 479, 480, 481, 0, 959, 1, 1500, 1099]),
        expected
    );
}

#[test]
fn a_stretch_never_crosses_a_tick() {
    let (mut engine, mut topology) = rig(1500, 1);
    drive(&mut engine, &mut topology, &[1, 479, 480, 481, 0, 959, 1, 1500, 1099]);
    let mut position = 0;
    for (start, end, length) in probe(&topology).stretches.iter() {
        assert_eq!(*start, position);
        assert!(start < end);
        assert_eq!((end - start) as usize, *length);
        assert_eq!(start / 480, (end - 1) / 480);
        position = *end;
    }
    assert_eq!(position, 5000);
}

#[test]
fn a_block_longer_than_a_period_is_produced_in_stretches_of_one_period() {
    let (mut engine, mut topology) = rig(1500, 1);
    drive(&mut engine, &mut topology, &[100, 1500]);
    assert_eq!(
        probe(&topology).stretches,
        vec![(0, 100, 100), (100, 480, 380), (480, 960, 480), (960, 1440, 480), (1440, 1600, 160)]
    );
}

#[test]
fn every_channel_of_a_frame_holds_the_same_sample() {
    let (mut engine, mut topology) = rig(700, 3);
    let obtained = drive(&mut engine, &mut topology, &[700, 300]);
    let expected = expected_mono(1000);
    assert_eq!(obtained.len(), 3000);
    for (frame, channels) in obtained.chunks(3).enumerate() {
        assert_eq!(channels, [expected[frame]; 3]);
    }
}

#[test]
fn components_are_mixed_over_silence() {
    let (mut engine, mut topology) = rig(64, 1);
    topology.add_component(Probe::new(0.5));
    topology.add_component(Probe::new(0.25));
    for sample in topology.processing_buffer.iter_mut() {
        *sample = f32::NAN;
    }
    let obtained = drive(&mut engine, &mut topology, &[64, 64]);
    let expected: Vec<f32> = expected_mono(128).iter().map(|s| s * 1.75).collect();
    assert_eq!(obtained, expected);
}

#[test]
fn a_rig_without_components_produces_silence() {
    let (mut engine, mut topology): (Engine, AudioTopology<Probe>) =
        empty_engine(SamplingRate(48000), ModulationRate(100), 128, Channels(2), 0.0).unwrap();
    let obtained = drive(&mut engine, &mut topology, &[128, 5]);
    assert_eq!(obtained, vec![0.0; 266]);
}

#[test]
fn the_scratch_buffer_holds_the_mono_mix_of_the_last_block() {
    let (mut engine, mut topology) = rig(128, 2);
    drive(&mut engine, &mut topology, &[128, 100]);
    let expected = expected_mono(228);
    assert_eq!(topology.processing_buffer.len(), 128);
    assert_eq!(topology.processing_buffer[..100], expected[128..]);
    assert_eq!(topology.processing_buffer[100..], expected[100..128]);
}

#[test]
fn engines_built_alike_and_driven_alike_produce_the_same_output() {
    let blocks = [17, 480, 1, 999, 0, 503];
    let (mut engine, mut topology) = rig(1000, 2);
    let (mut other_engine, mut other_topology) = rig(1000, 2);
    let obtained = drive(&mut engine, &mut topology, &blocks);
    let other = drive(&mut other_engine, &mut other_topology, &blocks);
    let same_bits = obtained.iter().zip(other.iter()).all(|(a, b)| a.to_bits() == b.to_bits());
    assert_eq!(obtained.len(), other.len());
    assert!(same_bits);
    assert_eq!(counter(&topology).ticks, counter(&other_topology).ticks);
}

#[test]
fn a_period_of_one_frame_ticks_before_every_frame() {
    let (mut engine, mut topology): (Engine, AudioTopology<Probe>) =
        empty_engine(SamplingRate(100), ModulationRate(100), 8, Channels(1), 0.0).unwrap();
    topology.add_modulator(Counter { ticks: vec![] });
    topology.add_component(Probe::new(1.0));
    let obtained = drive(&mut engine, &mut topology, &[3, 2]);
    assert_eq!(obtained, vec![1000.0, 2001.0, 3002.0, 4003.0, 5004.0]);
    assert_eq!(probe(&topology).refreshed_at, vec![0, 1, 2, 3, 4]);
}

#[test]
fn mix_output_writes_each_sample_to_every_channel() {
    let spec = EngineSpec::new(SamplingRate(48000), ModulationRate(100), Channels(2), 128).unwrap();
    let engine = Engine::new(spec);
    let mut interleaved = vec![0; 6];
    engine.mix_output(&[1, 2, 3], interleaved.as_mut_slice());
    assert_eq!(interleaved, vec![1, 1, 2, 2, 3, 3]);

    let spec = EngineSpec::new(SamplingRate(48000), ModulationRate(100), Channels(1), 128).unwrap();
    let engine = Engine::new(spec);
    let mut mono = vec![0; 3];
    engine.mix_output(&[7, 8, 9], mono.as_mut_slice());
    assert_eq!(mono, vec![7, 8, 9]);
}

#[test]
fn a_new_topology_has_a_silent_scratch_buffer_and_no_components() {
    let spec = EngineSpec::new(SamplingRate(48000), ModulationRate(100), Channels(2), 128).unwrap();
    let topology: AudioTopology<Probe> = AudioTopology::new(spec, 0.0);
    assert_eq!(topology.processing_buffer, vec![0.0; 128]);
    assert_eq!(topology.audio_components.len(), 0);
    assert_eq!(topology.modulation_components.len(), 0);
    assert_eq!(topology.spec.max_samples_per_step, 128);

    let engine = Engine::new(spec);
    let from_engine: AudioTopology<Probe> = engine.create_empty_topology(0.0);
    assert_eq!(from_engine.processing_buffer, vec![0.0; 128]);
    assert_eq!(from_engine.audio_components.len(), 0);
}

#[test]
fn a_topology_numbers_each_family_from_zero() {
    let spec = EngineSpec::new(SamplingRate(48000), ModulationRate(100), Channels(2), 128).unwrap();
    let mut topology: AudioTopology<Probe> = AudioTopology::new(spec, 0.0);
    assert_eq!(topology.add_component(Probe::new(1.0)).0, 0);
    let first = topology.add_modulator(Counter { ticks: vec![] });
    let second = topology.add_modulator(Counter { ticks: vec![9] });
    assert_eq!(topology.add_component(Probe::new(2.0)).0, 1);
    assert_eq!(first.0, 0);
    assert_eq!(second.0, 1);
    assert!(topology.get_modulator(first).unwrap().ticks.is_empty());
    assert_eq!(topology.get_modulator(second).unwrap().ticks, vec![9]);
}

#[test]
fn a_modulator_that_was_never_added_is_not_found() {
    let spec = EngineSpec::new(SamplingRate(48000), ModulationRate(100), Channels(2), 128).unwrap();
    let mut issuing: AudioTopology<Probe> = AudioTopology::new(spec, 0.0);
    let id = issuing.add_modulator(Counter { ticks: vec![] });
    let empty: AudioTopology<Probe> = AudioTopology::new(spec, 0.0);
    assert!(empty.get_modulator(id).is_none());
}

#[test]
fn an_unusable_configuration_makes_no_engine() {
    let made: Result<(Engine, AudioTopology<Probe>), _> =
        empty_engine(SamplingRate(48000), ModulationRate(7), 128, Channels(2), 0.0);
    assert!(made.is_err());
    let made: Result<(Engine, AudioTopology<Probe>), _> =
        empty_engine(SamplingRate(48000), ModulationRate(100), 128, Channels(0), 0.0);
    assert!(made.is_err());
}
