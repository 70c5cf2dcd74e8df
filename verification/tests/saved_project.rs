use looper_processor::midi_map::{Action, MidiMap, MidiSpec};
use looper_processor::multi_track_handle::MultiTrackLooperHandle;
use looper_processor::parameters::{
    build_parameter_ids, LooperId, ParameterId, ParameterValue, SourceParameter, NUM_PARAMETERS,
};
use looper_processor::parameters_map::ParametersMap;
use looper_processor::saved_project::{hydrate_project, project_from_handle};

fn float(f: f32) -> ParameterValue {
    ParameterValue::Float(f.to_bits())
}

#[test]
fn test_saved_values_and_restore() {
    let mut map = ParametersMap::new();
    map.set(SourceParameter::Speed.into(), float(2.0));
    let saved = map.saved_values();
    assert_eq!(saved.len(), NUM_PARAMETERS);
    let ids = build_parameter_ids();
    for (k, id) in ids.iter().enumerate() {
        if *id == ParameterId::from(SourceParameter::Speed) {
            assert_eq!(saved[k], Some(float(2.0)));
        } else {
            assert_eq!(saved[k], None);
        }
    }
    let mut other = ParametersMap::new();
    other.set(SourceParameter::Pitch.into(), float(0.5));
    other.restore_values(&saved);
    assert_eq!(*other.get(SourceParameter::Speed.into()), float(2.0));
    assert!(other.has_value(SourceParameter::Speed.into()));
    // a parameter not saved keeps its value
    assert_eq!(*other.get(SourceParameter::Pitch.into()), float(0.5));
}

#[test]
fn test_midi_map_entries_round_trip() {
    let mut map = MidiMap::new();
    map.add(MidiSpec::new(0xB1, 3), Action::Clear);
    map.add(MidiSpec::new(0xB0, 7), Action::SetPlayback(true));
    let entries = map.entries();
    // by increasing status, then number
    assert_eq!(
        entries,
        vec![
            (MidiSpec::new(0xB0, 7), Action::SetPlayback(true)),
            (MidiSpec::new(0xB1, 3), Action::Clear),
        ]
    );
    let mut restored = MidiMap::new();
    restored.add(MidiSpec::new(0xB0, 7), Action::Clear);
    restored.add_entries(&entries);
    assert_eq!(restored.get(&MidiSpec::new(0xB0, 7)), Some(Action::SetPlayback(true)));
    assert_eq!(restored.get(&MidiSpec::new(0xB1, 3)), Some(Action::Clear));
}

#[test]
fn test_save_then_load_project() {
    let mut handle: MultiTrackLooperHandle<f32> = MultiTrackLooperHandle::new(2);
    let mut midi_map = MidiMap::new();
    midi_map.add(MidiSpec::new(0xB0, 64), Action::SetRecording(true));
    let start: ParameterId = SourceParameter::Start.into();
    let pitch: ParameterId = SourceParameter::Pitch.into();
    handle
        .parameters
        .set_source_parameter(LooperId(1), SourceParameter::Start, 0.25_f32.to_bits());
    handle
        .parameters
        .add_lfo_mapping(LooperId(0), 1, pitch, Some(0.75_f32.to_bits()));
    handle
        .parameters
        .add_scene_parameter_lock(1, LooperId(3), start, 0.9_f32.to_bits());
    handle.parameters.set_scene_value(0.5_f32.to_bits());

    let project = project_from_handle(&handle, &midi_map, vec![None, Some("clip.wav".to_string())]);
    assert_eq!(project.voices.len(), 2);
    assert_eq!(project.voices[1].id, 1);
    assert_eq!(project.looper_clips[1].as_deref(), Some("clip.wav"));

    let mut loaded: MultiTrackLooperHandle<f32> = MultiTrackLooperHandle::new(2);
    let mut loaded_midi = MidiMap::new();
    hydrate_project(&project, &mut loaded, &mut loaded_midi);

    assert_eq!(
        loaded.parameters.get_parameter(LooperId(1), &start),
        Some(float(0.25))
    );
    assert!(loaded
        .parameters
        .get(LooperId(1))
        .unwrap()
        .user_parameters()
        .has_value(start));
    assert!(!loaded
        .parameters
        .get(LooperId(0))
        .unwrap()
        .user_parameters()
        .has_value(start));
    let voice = loaded.parameters.get(LooperId(0)).unwrap();
    assert_eq!(f32::from_bits(voice.lfo2().modulation_amount(&pitch)), 0.75);
    assert_eq!(f32::from_bits(voice.lfo1().modulation_amount(&pitch)), 0.0);
    let scenes = loaded.parameters.scene_handle();
    assert_eq!(f32::from_bits(scenes.get_slider()), 0.5);
    assert_eq!(scenes.get_right(LooperId(3), start), Some(&float(0.9)));
    assert_eq!(scenes.get_left(LooperId(3), start), None);
    assert_eq!(
        loaded_midi.get(&MidiSpec::new(0xB0, 64)),
        Some(Action::SetRecording(true))
    );
}
