use looper_processor::midi_map::{Action, MidiMap, MidiSpec};
use looper_processor::midi_store::{parse_control_change, MidiStoreHandle, MidiStoreValue};

#[test]
fn test_create_midi_spec() {
    let spec = MidiSpec::new(0xB0, 88);
    assert_eq!(spec.status, 0xB0);
    assert_eq!(spec.number, 88);
}

#[test]
fn test_create_midi_map() {
    let midi_map = MidiMap::new();
    assert!(midi_map.is_empty());
}

#[test]
fn test_add_entry() {
    let mut midi_map = MidiMap::new();

    assert!(midi_map.is_empty());
    let spec = MidiSpec::new(0xB0, 88);
    midi_map.add(spec, Action::Clear);
    assert!(!midi_map.is_empty());
    assert!(midi_map.get(&spec).is_some());
    assert_eq!(midi_map.get(&spec).unwrap(), Action::Clear);
}

#[test]
fn test_midi_map_read_after_write() {
    let mut midi_map = MidiMap::new();
    let a = MidiSpec::new(0xB0, 88);
    let b = MidiSpec::new(0xB1, 88);
    let c = MidiSpec::new(0xB0, 89);
    midi_map.add(a, Action::SetRecording(true));
    midi_map.add(b, Action::SetPlayback(false));
    assert_eq!(midi_map.get(&a), Some(Action::SetRecording(true)));
    assert_eq!(midi_map.get(&b), Some(Action::SetPlayback(false)));
    assert_eq!(midi_map.get(&c), None);
    // a second mapping of the same spec replaces the first
    midi_map.add(a, Action::Clear);
    assert_eq!(midi_map.get(&a), Some(Action::Clear));
    assert_eq!(midi_map.get(&b), Some(Action::SetPlayback(false)));
}

#[test]
fn test_create_store() {
    let store = MidiStoreHandle::new();
    assert!(store.values().is_empty());
}

#[test]
fn test_process_event() {
    let mut store = MidiStoreHandle::new();
    let message: [u8; 3] = [0b1011_0000, 55, 12];

    store.process_event(&message);

    let values = store.values();
    assert_eq!(values.len(), 1);
    assert_eq!(
        values[0],
        MidiStoreValue {
            channel: 0,
            controller_number: 55,
            value: 12
        }
    );
}

#[test]
fn test_store_keeps_last_value_in_channel_order() {
    let mut store = MidiStoreHandle::new();
    let messages = vec![
        vec![0b1011_0001, 55, 64],
        vec![0b1011_0000, 56, 1],
        vec![0b1011_0000, 56, 2],
        // a note on is not a control change
        vec![0b1001_0000, 60, 100],
        // too short
        vec![0b1011_0000, 57],
    ];
    store.process_midi_events(&messages);
    assert_eq!(
        store.values(),
        vec![
            MidiStoreValue {
                channel: 0,
                controller_number: 56,
                value: 2
            },
            MidiStoreValue {
                channel: 1,
                controller_number: 55,
                value: 64
            },
        ]
    );
}

#[test]
fn test_parse_control_change() {
    let cc = parse_control_change(&[0xBF, 1, 2]).unwrap();
    assert_eq!(cc.channel, 15);
    assert_eq!(cc.controller_number, 1);
    assert_eq!(cc.value, 2);
    assert!(parse_control_change(&[0xC0, 1, 2]).is_none());
    assert!(parse_control_change(&[0xB0, 1]).is_none());
}
