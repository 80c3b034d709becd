use rynth::concepts::{
    AudioSampleDifference, AudioSampleIndex, Channels, ModulationSampleDifference,
    ModulationSampleIndex,
};

#[test]
fn audio_position_plus_distance_is_a_position() {
    assert_eq!(AudioSampleIndex(480) + AudioSampleDifference(128), AudioSampleIndex(608));
    assert_eq!(AudioSampleIndex(0) + AudioSampleDifference(0), AudioSampleIndex(0));
}

#[test]
fn difference_of_audio_positions_is_a_distance() {
    assert_eq!(AudioSampleIndex(608) - AudioSampleIndex(480), AudioSampleDifference(128));
    assert_eq!(AudioSampleIndex(5) - AudioSampleIndex(5), AudioSampleDifference(0));
}

#[test]
fn audio_distances_add_and_subtract() {
    assert_eq!(AudioSampleDifference(3) + AudioSampleDifference(4), AudioSampleDifference(7));
    assert_eq!(AudioSampleDifference(7) - AudioSampleDifference(4), AudioSampleDifference(3));
}

#[test]
fn audio_distances_are_ordered_by_their_count() {
    assert!(AudioSampleDifference(3) < AudioSampleDifference(4));
    assert!(AudioSampleDifference(4) >= AudioSampleDifference(4));
    assert_eq!(AudioSampleDifference(9).min(AudioSampleDifference(2)), AudioSampleDifference(2));
}

#[test]
fn frames_times_channels_is_the_interleaved_length() {
    assert_eq!(AudioSampleDifference(128) * Channels(2), 256);
    assert_eq!(AudioSampleDifference(480) * Channels(1), 480);
    assert_eq!(AudioSampleDifference(0) * Channels(6), 0);
}

#[test]
fn modulation_positions_and_distances_add() {
    assert_eq!(
        ModulationSampleIndex(10) + ModulationSampleDifference(5),
        ModulationSampleIndex(15)
    );
    assert_eq!(ModulationSampleIndex(10) + ModulationSampleIndex(1), ModulationSampleIndex(11));
    assert_eq!(
        ModulationSampleDifference(10) + ModulationSampleDifference(5),
        ModulationSampleDifference(15)
    );
    assert_eq!(
        ModulationSampleDifference(10) - ModulationSampleDifference(5),
        ModulationSampleDifference(5)
    );
}
