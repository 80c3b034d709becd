use rynth::concepts::{Channels, ModulationRate, SamplingRate};
use rynth::engine::{Engine, EngineSpec, SpecError};

#[test]
fn period_is_the_quotient_of_the_rates() {
    let spec = EngineSpec::new(SamplingRate(48000), ModulationRate(100), Channels(2), 128).unwrap();
    assert_eq!(spec.modulation_period.0, 480);
    assert_eq!(spec.sampling_rate.0, 48000);
    assert_eq!(spec.modulation_rate.0, 100);
    assert_eq!(spec.channels.0, 2);
    assert_eq!(spec.max_samples_per_step, 128);
}

#[test]
fn equal_rates_give_a_period_of_one_frame() {
    let spec = EngineSpec::new(SamplingRate(44100), ModulationRate(44100), Channels(1), 1).unwrap();
    assert_eq!(spec.modulation_period.0, 1);
}

#[test]
fn a_zero_sampling_rate_is_refused() {
    let made = EngineSpec::new(SamplingRate(0), ModulationRate(100), Channels(2), 128);
    assert_eq!(made.err(), Some(SpecError::ZeroField));
}

#[test]
fn a_zero_modulation_rate_is_refused() {
    let made = EngineSpec::new(SamplingRate(48000), ModulationRate(0), Channels(2), 128);
    assert_eq!(made.err(), Some(SpecError::ZeroField));
}

#[test]
fn a_zero_channel_count_is_refused() {
    let made = EngineSpec::new(SamplingRate(48000), ModulationRate(100), Channels(0), 128);
    assert_eq!(made.err(), Some(SpecError::ZeroField));
}

#[test]
fn a_zero_block_size_is_refused() {
    let made = EngineSpec::new(SamplingRate(48000), ModulationRate(100), Channels(2), 0);
    assert_eq!(made.err(), Some(SpecError::ZeroField));
}

#[test]
fn rates_that_do_not_divide_are_refused() {
    let made = EngineSpec::new(SamplingRate(48000), ModulationRate(7), Channels(2), 128);
    assert_eq!(made.err(), Some(SpecError::NotAMultiple));
    let slower = EngineSpec::new(SamplingRate(100), ModulationRate(48000), Channels(2), 128);
    assert_eq!(slower.err(), Some(SpecError::NotAMultiple));
}

#[test]
fn a_zero_field_is_reported_before_rates_that_do_not_divide() {
    let made = EngineSpec::new(SamplingRate(48000), ModulationRate(7), Channels(0), 128);
    assert_eq!(made.err(), Some(SpecError::ZeroField));
}

#[test]
fn a_new_engine_keeps_its_configuration() {
    let spec = EngineSpec::new(SamplingRate(48000), ModulationRate(100), Channels(2), 128).unwrap();
    let engine = Engine::new(spec);
    assert_eq!(engine.spec.modulation_period.0, 480);
    assert_eq!(engine.spec.channels.0, 2);
    assert_eq!(engine.spec.max_samples_per_step, 128);
}
