use looper_processor::looper_handle::{LooperOutput, LooperState};
use looper_processor::multi_track::{
    record_play_action, slice_marker, MultiTrackParameters, RecordPlayAction,
};
use looper_processor::multi_track_handle::{
    MultiTrackLooperHandle, RecordPlayOutcome, ToggleRecordingOutcome,
};
use looper_processor::parameters::{
    CQuantizeMode, LFOParameter, LooperId, ParameterId, ParameterValue, QuantizeMode,
    SourceParameter, TempoControl,
};
use looper_processor::scene_state::SceneHandle;

fn float(f: f32) -> ParameterValue {
    ParameterValue::Float(f.to_bits())
}

#[test]
fn multi_track_looper_test_starts_empty() {
    let looper: MultiTrackLooperHandle<f32> = MultiTrackLooperHandle::new(8);
    assert_eq!(looper.all_loopers_empty_other_than(LooperId(0)), true);
}

#[test]
fn mod_test_starts_empty() {
    let looper: MultiTrackLooperHandle<f32> = MultiTrackLooperHandle::new(8);
    assert_eq!(looper.num_voices(), 8);
    assert_eq!(looper.all_loopers_empty_other_than(LooperId(0)), true);
}

fn prepared_tracks(n: usize) -> MultiTrackLooperHandle<f32> {
    let mut looper = MultiTrackLooperHandle::new(n);
    looper.prepare(1, 64, 0.0);
    looper
}

fn record_frames(looper: &mut MultiTrackLooperHandle<f32>, id: usize, frames: &[f32]) {
    for &sample in frames {
        looper.voices[id].process_frame(&vec![sample]);
        looper.voices[id].after_process();
    }
}

#[test]
fn test_all_loopers_empty_other_than_ignores_the_given_track() {
    let mut looper = prepared_tracks(4);
    looper.start_recording(LooperId(2), None);
    assert_eq!(looper.get_looper_state(LooperId(2)), LooperState::Recording);
    assert!(looper.all_loopers_empty_other_than(LooperId(2)));
    assert!(!looper.all_loopers_empty_other_than(LooperId(0)));
}

#[test]
fn test_first_loop_sets_the_global_tempo() {
    let mut looper = prepared_tracks(2);
    let outcome = looper.toggle_recording(LooperId(0), None);
    assert_eq!(
        outcome,
        ToggleRecordingOutcome {
            stopped_recording: false,
            sets_global_tempo: false
        }
    );
    record_frames(&mut looper, 0, &[1.0, 2.0, 3.0]);
    let outcome = looper.toggle_recording(LooperId(0), None);
    assert_eq!(
        outcome,
        ToggleRecordingOutcome {
            stopped_recording: true,
            sets_global_tempo: true
        }
    );
    assert_eq!(looper.get_num_samples(LooperId(0)), 3);
    assert_eq!(looper.get_num_samples(LooperId(7)), 0);

    // a second loop does not set the tempo
    looper.toggle_recording(LooperId(1), None);
    record_frames(&mut looper, 1, &[1.0, 2.0]);
    let outcome = looper.toggle_recording(LooperId(1), None);
    assert_eq!(
        outcome,
        ToggleRecordingOutcome {
            stopped_recording: true,
            sets_global_tempo: false
        }
    );
}

#[test]
fn test_tempo_control_none_does_not_set_the_tempo() {
    let mut looper = prepared_tracks(2);
    looper
        .parameters
        .set_tempo_control(LooperId(0), TempoControl::TempoControlNone);
    looper.toggle_recording(LooperId(0), None);
    record_frames(&mut looper, 0, &[1.0]);
    let outcome = looper.toggle_recording(LooperId(0), None);
    assert!(outcome.stopped_recording);
    assert!(!outcome.sets_global_tempo);
}

#[test]
fn test_multi_mode_record_play_button() {
    let mut looper = prepared_tracks(2);
    looper.parameters.set_active_looper(LooperId(1));
    // empty: records
    let outcome = looper.on_multi_mode_record_play_pressed(None);
    assert!(matches!(outcome, RecordPlayOutcome::Recording(_)));
    assert_eq!(looper.get_looper_state(LooperId(1)), LooperState::Recording);
    record_frames(&mut looper, 1, &[0.5, 0.25]);
    // recording: stops and plays the loop
    let outcome = looper.on_multi_mode_record_play_pressed(None);
    assert_eq!(
        outcome,
        RecordPlayOutcome::Recording(ToggleRecordingOutcome {
            stopped_recording: true,
            sets_global_tempo: true
        })
    );
    assert_eq!(looper.get_looper_state(LooperId(1)), LooperState::Playing);
    // playing: keeps playing
    let outcome = looper.on_multi_mode_record_play_pressed(None);
    assert_eq!(outcome, RecordPlayOutcome::Playback);
    assert_eq!(looper.get_looper_state(LooperId(1)), LooperState::Playing);
    assert_eq!(looper.get_num_samples(LooperId(1)), 2);
    // paused: plays
    assert!(!looper.toggle_playback(LooperId(1)));
    assert_eq!(looper.get_looper_state(LooperId(1)), LooperState::Paused);
    let outcome = looper.on_multi_mode_record_play_pressed(None);
    assert_eq!(outcome, RecordPlayOutcome::Playback);
    assert_eq!(looper.get_looper_state(LooperId(1)), LooperState::Playing);
    // overdubbing: the overdub stops and the loop plays
    looper.toggle_recording(LooperId(1), None);
    assert_eq!(looper.get_looper_state(LooperId(1)), LooperState::Overdubbing);
    let outcome = looper.on_multi_mode_record_play_pressed(None);
    assert_eq!(
        outcome,
        RecordPlayOutcome::Recording(ToggleRecordingOutcome {
            stopped_recording: true,
            sets_global_tempo: true
        })
    );
    assert_eq!(looper.get_looper_state(LooperId(1)), LooperState::Playing);
    // the other track was never touched
    assert_eq!(looper.get_looper_state(LooperId(0)), LooperState::Empty);
}

#[test]
fn test_scheduled_recording_starts_playback_on_the_button() {
    let mut looper = prepared_tracks(1);
    looper.start_recording(LooperId(0), Some(10));
    assert_eq!(looper.get_looper_state(LooperId(0)), LooperState::RecordingScheduled);
    assert_eq!(
        looper.on_multi_mode_record_play_pressed(None),
        RecordPlayOutcome::Playback
    );
    assert_eq!(looper.get_looper_state(LooperId(0)), LooperState::Playing);
    // nothing was recorded: the track plays silence and its playhead stays put
    for _ in 0..3 {
        let outputs = looper.voices[0].process_frame(&vec![0.5]);
        assert_eq!(outputs, vec![LooperOutput::Playback(0.0)]);
        looper.voices[0].after_process();
    }
    assert_eq!(looper.voices[0].playhead(), 0);
    assert_eq!(looper.get_num_samples(LooperId(0)), 0);
}

#[test]
fn test_new_tracks_have_default_parameters() {
    let looper: MultiTrackLooperHandle<f32> = MultiTrackLooperHandle::new(3);
    let start: ParameterId = SourceParameter::Start.into();
    let pitch: ParameterId = SourceParameter::Pitch.into();
    for i in 0..3 {
        assert_eq!(looper.get_looper_state(LooperId(i)), LooperState::Empty);
        assert_eq!(looper.parameters.get_parameter(LooperId(i), &start), Some(float(0.0)));
        let voice = looper.parameters.get(LooperId(i)).unwrap();
        assert!(!voice.user_parameters().has_value(start));
        assert_eq!(voice.lfo1().modulation_amount(&pitch), 0);
        assert_eq!(f32::from_bits(voice.lfo2().amount()), 1.0);
    }
    assert_eq!(looper.parameters.active_looper(), 0);
    let scenes = looper.parameters.scene_handle();
    assert_eq!(scenes.get_slider(), 0);
    assert_eq!(scenes.get_left(LooperId(7), start), None);
    assert_eq!(scenes.get_right(LooperId(0), pitch), None);
}

#[test]
fn test_lfo_changes_leave_the_rest_alone() {
    let mut looper = MultiTrackParameters::new(2);
    let pitch: ParameterId = SourceParameter::Pitch.into();
    let speed: ParameterId = SourceParameter::Speed.into();
    looper.add_lfo_mapping(LooperId(0), 0, speed, Some(0.3_f32.to_bits()));
    looper.add_lfo_mapping(LooperId(0), 0, pitch, Some(0.5_f32.to_bits()));
    looper.set_lfo_parameter(LooperId(0), 1, LFOParameter::Amount, 0.25_f32.to_bits());
    looper.remove_lfo_mapping(LooperId(0), 0, pitch);
    looper.remove_lfo_mapping(LooperId(0), 0, pitch);
    let voice = looper.get(LooperId(0)).unwrap();
    assert_eq!(f32::from_bits(voice.lfo1().modulation_amount(&speed)), 0.3);
    assert_eq!(f32::from_bits(voice.lfo1().modulation_amount(&pitch)), 0.0);
    assert_eq!(f32::from_bits(voice.lfo1().amount()), 1.0);
    assert_eq!(f32::from_bits(voice.lfo2().amount()), 0.25);
    assert_eq!(f32::from_bits(voice.lfo2().frequency()), 1.0);
    assert!(!voice.user_parameters().has_value(pitch));
    let other = looper.get(LooperId(1)).unwrap();
    assert_eq!(other.lfo1().modulation_amount(&speed), 0);
    assert_eq!(f32::from_bits(other.lfo2().amount()), 1.0);
}

#[test]
fn test_clear_tracks() {
    let mut looper = prepared_tracks(2);
    looper.toggle_recording(LooperId(0), None);
    record_frames(&mut looper, 0, &[1.0]);
    looper.toggle_recording(LooperId(0), None);
    looper.toggle_recording(LooperId(1), None);
    // another track is not empty: the transport keeps going
    assert!(!looper.clear(LooperId(0), 0.0));
    assert_eq!(looper.get_looper_state(LooperId(0)), LooperState::Empty);
    looper.parameters.set_active_looper(LooperId(1));
    // the last track is cleared: the transport stops
    assert!(looper.clear_active_looper(0.0));
    assert_eq!(looper.get_looper_state(LooperId(1)), LooperState::Empty);
    assert!(!looper.clear(LooperId(5), 0.0));
}

#[test]
fn test_set_scene_parameter_lock() {
    let mut looper = MultiTrackParameters::new(8);

    let start_parameter = ParameterId::ParameterIdSource(SourceParameter::Start);
    looper.set_source_parameter(LooperId(0), SourceParameter::Start, 0.3_f32.to_bits());
    looper.add_scene_parameter_lock(0, LooperId(0), start_parameter, 0.8_f32.to_bits());
    let (left, right) = looper.scene_endpoints(LooperId(0), start_parameter);
    assert_eq!(left, float(0.8));
    assert_eq!(right, float(0.3));
    // other tracks keep their own value at both ends
    let (left, right) = looper.scene_endpoints(LooperId(1), start_parameter);
    assert_eq!(left, float(0.0));
    assert_eq!(right, float(0.0));
}

#[test]
fn test_scene_handle_locks() {
    let mut scenes = SceneHandle::new(8, 2);
    let start: ParameterId = SourceParameter::Start.into();
    assert_eq!(scenes.get_left(LooperId(3), start), None);
    scenes.set(1, LooperId(3), start, float(0.6));
    assert_eq!(scenes.get_left(LooperId(3), start), None);
    assert_eq!(scenes.get_right(LooperId(3), start), Some(&float(0.6)));
    assert_eq!(scenes.get_slider(), 0);
    scenes.set_slider(0.5_f32.to_bits());
    assert_eq!(f32::from_bits(scenes.get_slider()), 0.5);
    assert_eq!(scenes.get_right(LooperId(3), start), Some(&float(0.6)));
}

#[test]
fn test_record_play_action() {
    assert_eq!(
        record_play_action(LooperState::Empty),
        RecordPlayAction::StartRecording
    );
    assert_eq!(
        record_play_action(LooperState::Recording),
        RecordPlayAction::StopRecording
    );
    assert_eq!(
        record_play_action(LooperState::Overdubbing),
        RecordPlayAction::StopRecording
    );
    assert_eq!(record_play_action(LooperState::Paused), RecordPlayAction::Play);
    assert_eq!(record_play_action(LooperState::Playing), RecordPlayAction::Play);
    assert_eq!(
        record_play_action(LooperState::RecordingScheduled),
        RecordPlayAction::Play
    );
}

#[test]
fn test_slice_marker() {
    assert_eq!(slice_marker(false, 3, 4, 100), None);
    assert_eq!(slice_marker(true, 3, 4, 100), Some(3));
    assert_eq!(slice_marker(true, 6, 4, 100), Some(2));
    assert_eq!(slice_marker(true, 1, 0, 100), None);
    assert_eq!(slice_marker(true, 1, 4, 0), None);
}

#[test]
fn test_parameters_of_tracks() {
    let mut looper = MultiTrackParameters::new(2);
    let speed: ParameterId = SourceParameter::Speed.into();
    assert_eq!(looper.get_parameter(LooperId(1), &speed), Some(float(1.0)));
    looper.set_source_parameter(LooperId(1), SourceParameter::Speed, 1.5_f32.to_bits());
    assert_eq!(looper.get_parameter(LooperId(1), &speed), Some(float(1.5)));
    assert_eq!(looper.get_parameter(LooperId(0), &speed), Some(float(1.0)));
    assert_eq!(looper.get_parameter(LooperId(5), &speed), None);
    assert!(looper.get(LooperId(1)).unwrap().user_parameters().has_value(speed));
    assert!(!looper.get(LooperId(0)).unwrap().user_parameters().has_value(speed));
    assert!(looper.get(LooperId(2)).is_none());
    // a track that does not exist is ignored
    looper.set_source_parameter(LooperId(9), SourceParameter::Speed, 2.0_f32.to_bits());
    assert_eq!(looper.num_voices(), 2);

    let loop_enabled: ParameterId = SourceParameter::LoopEnabled.into();
    looper.set_boolean_parameter(LooperId(0), loop_enabled, false);
    assert_eq!(
        looper.get_parameter(LooperId(0), &loop_enabled),
        Some(ParameterValue::Bool(false))
    );
}

#[test]
fn test_quantization_and_tempo_control() {
    let mut looper = MultiTrackParameters::new(2);
    assert_eq!(
        looper.set_quantization_mode(LooperId(0), CQuantizeMode::CQuantizeModeNone),
        Some(QuantizeMode::Off)
    );
    assert_eq!(
        looper.set_quantization_mode(LooperId(4), CQuantizeMode::CQuantizeModeNone),
        None
    );
    // the default tempo control sets the global tempo
    assert!(looper.should_set_global_tempo(LooperId(0), true));
    assert!(!looper.should_set_global_tempo(LooperId(0), false));
    looper.set_tempo_control(LooperId(0), TempoControl::TempoControlNone);
    assert!(!looper.should_set_global_tempo(LooperId(0), true));
    assert!(looper.should_set_global_tempo(LooperId(1), true));
}

#[test]
fn test_lfo_mappings_and_parameters() {
    let mut looper = MultiTrackParameters::new(2);
    let pitch: ParameterId = SourceParameter::Pitch.into();
    looper.add_lfo_mapping(LooperId(1), 0, pitch, Some(0.5_f32.to_bits()));
    let voice = looper.get(LooperId(1)).unwrap();
    assert_eq!(f32::from_bits(voice.lfo1().modulation_amount(&pitch)), 0.5);
    assert_eq!(f32::from_bits(voice.lfo2().modulation_amount(&pitch)), 0.0);
    looper.remove_lfo_mapping(LooperId(1), 0, pitch);
    let voice = looper.get(LooperId(1)).unwrap();
    assert_eq!(f32::from_bits(voice.lfo1().modulation_amount(&pitch)), 0.0);

    looper.set_lfo_parameter(LooperId(0), 1, LFOParameter::Frequency, 3.0_f32.to_bits());
    let voice = looper.get(LooperId(0)).unwrap();
    assert_eq!(f32::from_bits(voice.lfo2().frequency()), 3.0);
    assert_eq!(f32::from_bits(voice.lfo1().frequency()), 1.0);
    assert_eq!(
        looper.get_parameter(LooperId(0), &ParameterId::ParameterIdLFO(1, LFOParameter::Frequency)),
        Some(float(3.0))
    );
}

#[test]
fn test_active_looper_and_scene_value() {
    let mut looper = MultiTrackParameters::new(3);
    assert_eq!(looper.active_looper(), 0);
    looper.set_active_looper(LooperId(2));
    assert_eq!(looper.active_looper(), 2);
    looper.set_scene_value(0.25_f32.to_bits());
    assert_eq!(f32::from_bits(looper.scene_handle().get_slider()), 0.25);
}
