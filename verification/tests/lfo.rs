use looper_processor::lfo::LFOHandle;
use looper_processor::parameters::{EnvelopeParameter, ParameterId, SourceParameter};

fn f(bits: u32) -> f32 {
    f32::from_bits(bits)
}

#[test]
fn test_create_lfo_handle() {
    let _handle = LFOHandle::new();
}

#[test]
fn test_set_amount() {
    let mut handle = LFOHandle::new();
    handle.set_amount(0.88_f32.to_bits());
    assert!((f(handle.amount()) - 0.88).abs() < f32::EPSILON);
}

#[test]
fn test_set_frequency() {
    let mut handle = LFOHandle::new();
    handle.set_frequency(44.44_f32.to_bits());
    assert!((f(handle.frequency()) - 44.44).abs() < f32::EPSILON);
}

#[test]
fn test_add_modulation() {
    let mut handle = LFOHandle::new();
    let amount = handle.modulation_amount(&SourceParameter::Start.into());
    assert!((f(amount) - 0.0).abs() < f32::EPSILON);

    handle.set_parameter_map(SourceParameter::Start.into(), Some(0.5_f32.to_bits()));

    let amount = handle.modulation_amount(&SourceParameter::Start.into());
    assert!((f(amount) - 0.5).abs() < f32::EPSILON);
}

#[test]
fn test_remove_modulation() {
    let mut handle = LFOHandle::new();
    let amount = handle.modulation_amount(&SourceParameter::Start.into());
    assert!((f(amount) - 0.0).abs() < f32::EPSILON);

    handle.set_parameter_map(SourceParameter::Start.into(), Some(0.5_f32.to_bits()));
    handle.set_parameter_map(SourceParameter::Start.into(), None);

    let amount = handle.modulation_amount(&SourceParameter::Start.into());
    assert!((f(amount) - 0.0).abs() < f32::EPSILON);
}

#[test]
fn test_lfo_defaults_and_independent_mappings() {
    let mut handle = LFOHandle::new();
    assert_eq!(f(handle.amount()), 1.0);
    assert_eq!(f(handle.frequency()), 1.0);
    let pitch: ParameterId = SourceParameter::Pitch.into();
    let attack: ParameterId = EnvelopeParameter::Attack.into();
    handle.set_parameter_map(pitch, Some(0.25_f32.to_bits()));
    handle.set_parameter_map(attack, Some(0.75_f32.to_bits()));
    assert_eq!(f(handle.modulation_amount(&pitch)), 0.25);
    assert_eq!(f(handle.modulation_amount(&attack)), 0.75);
    handle.set_parameter_map(pitch, None);
    assert_eq!(f(handle.modulation_amount(&pitch)), 0.0);
    assert_eq!(f(handle.modulation_amount(&attack)), 0.75);
    // amount and frequency are untouched by mappings
    assert_eq!(f(handle.amount()), 1.0);
}
