use looper_processor::parameters::{
    build_default_parameters, build_parameter_ids, get_default_parameter_value,
    get_parameter_kind, CQuantizeMode, EnvelopeParameter, LFOParameter, ParameterId,
    ParameterKind, ParameterValue, QuantizationParameter, QuantizeMode, SourceParameter,
    TempoControl, NUM_PARAMETERS,
};
use looper_processor::parameters_map::{
    build_parameter_indexes, copy_parameters, parameter_key_of, ParametersMap,
};

fn float(f: f32) -> ParameterValue {
    ParameterValue::Float(f.to_bits())
}

fn float_of(value: &ParameterValue) -> f32 {
    f32::from_bits(value.as_float_bits())
}

#[test]
fn test_create_parameters() {
    let _ps = ParametersMap::new();
}

#[test]
fn test_set_and_get_a_value() {
    let mut ps = ParametersMap::new();
    assert_eq!(float_of(ps.get(SourceParameter::Start.into())), 0.0_f32);
    ps.set(SourceParameter::Start.into(), float(0.5));
    assert_eq!(float_of(ps.get(SourceParameter::Start.into())), 0.5_f32);
}

#[test]
fn test_copy_parameters() {
    let parameter_ids = build_parameter_ids();

    let mut parameters_map1 = ParametersMap::new();
    parameters_map1.set(SourceParameter::Start.into(), float(0.8));

    let mut parameters_map2 = ParametersMap::new();
    parameters_map2.set(SourceParameter::Start.into(), float(0.5));

    copy_parameters(&parameter_ids, &parameters_map1, &mut parameters_map2);
    assert_eq!(float_of(parameters_map2.get(SourceParameter::Start.into())), 0.8);
    assert!(!parameters_map1.has_value(SourceParameter::End.into()));
    assert!(!parameters_map2.has_value(SourceParameter::End.into()));
}

#[test]
fn test_build_parameters_table() {
    let (_, parameters) = build_default_parameters();
    let start_index = parameters
        .iter()
        .position(|id| *id == ParameterId::ParameterIdSource(SourceParameter::Start))
        .unwrap();
    let slice_index = parameters
        .iter()
        .position(|id| *id == ParameterId::ParameterIdSource(SourceParameter::SliceId))
        .unwrap();
    assert!(slice_index > start_index);
}

#[test]
fn test_default_parameter_values() {
    let (values, ids) = build_default_parameters();
    assert_eq!(ids.len(), NUM_PARAMETERS);
    assert_eq!(values.len(), ids.len());
    for (value, id) in values.iter().zip(ids.iter()) {
        assert_eq!(*value, get_default_parameter_value(id));
    }
    assert_eq!(
        get_default_parameter_value(&SourceParameter::End.into()),
        float(1.0)
    );
    assert_eq!(
        get_default_parameter_value(&SourceParameter::Speed.into()),
        float(1.0)
    );
    assert_eq!(
        get_default_parameter_value(&SourceParameter::LoopEnabled.into()),
        ParameterValue::Bool(true)
    );
    assert_eq!(
        get_default_parameter_value(&SourceParameter::SliceId.into()),
        ParameterValue::Empty
    );
    assert_eq!(
        get_default_parameter_value(&EnvelopeParameter::Sustain.into()),
        float(1.0)
    );
    assert_eq!(
        get_default_parameter_value(&EnvelopeParameter::Release.into()),
        float(0.3)
    );
    assert_eq!(
        get_default_parameter_value(&ParameterId::ParameterIdQuantization(
            QuantizationParameter::QuantizationParameterQuantizeMode
        )),
        ParameterValue::Enum(0)
    );
    assert_eq!(
        get_default_parameter_value(&ParameterId::ParameterIdQuantization(
            QuantizationParameter::QuantizationParameterTempoControl
        )),
        ParameterValue::Enum(0)
    );
    assert_eq!(
        get_default_parameter_value(&ParameterId::ParameterIdLFO(1, LFOParameter::Amount)),
        float(1.0)
    );
}

#[test]
fn test_parameter_kinds() {
    assert_eq!(
        get_parameter_kind(&SourceParameter::Start.into()),
        ParameterKind::Float
    );
    assert_eq!(
        get_parameter_kind(&SourceParameter::LoopEnabled.into()),
        ParameterKind::Bool
    );
    assert_eq!(
        get_parameter_kind(&SourceParameter::SliceId.into()),
        ParameterKind::Int
    );
    assert_eq!(
        get_parameter_kind(&ParameterId::ParameterIdQuantization(
            QuantizationParameter::QuantizationParameterTempoControl
        )),
        ParameterKind::Enum
    );
}

#[test]
fn test_set_converts_to_the_kind_of_the_slot() {
    let mut ps = ParametersMap::new();
    // a float written into a boolean parameter reads as false
    ps.set(SourceParameter::LoopEnabled.into(), float(0.7));
    assert_eq!(
        *ps.get(SourceParameter::LoopEnabled.into()),
        ParameterValue::Bool(false)
    );
    assert!(ps.has_value(SourceParameter::LoopEnabled.into()));
    // a boolean written into a float parameter reads as 0.0
    ps.set(SourceParameter::Speed.into(), ParameterValue::Bool(true));
    assert_eq!(float_of(ps.get(SourceParameter::Speed.into())), 0.0);
    // other parameters are untouched
    assert_eq!(float_of(ps.get(SourceParameter::End.into())), 1.0);
    assert!(!ps.has_value(SourceParameter::End.into()));
}

#[test]
fn test_parameter_value_accessors() {
    assert_eq!(ParameterValue::Int(7).as_int(), 7);
    assert_eq!(ParameterValue::Bool(true).as_int(), 0);
    assert!(ParameterValue::Bool(true).as_bool());
    assert!(!ParameterValue::Int(1).as_bool());
    assert_eq!(ParameterValue::Enum(2).as_enum(), 2);
    assert_eq!(ParameterValue::Empty.as_enum(), 0);
    assert_eq!(float_of(&float(0.25)), 0.25);
    assert_eq!(float_of(&ParameterValue::Int(3)), 0.0);
    let mut slot = ParameterValue::Int(1);
    slot.set_from(&ParameterValue::Int(9));
    assert_eq!(slot, ParameterValue::Int(9));
    slot.set_from(&ParameterValue::Bool(true));
    assert_eq!(slot, ParameterValue::Int(0));
}

#[test]
fn test_parameter_indexes_keep_last_position() {
    let ids = vec![
        ParameterId::from(SourceParameter::Start),
        ParameterId::from(SourceParameter::End),
        ParameterId::from(SourceParameter::Start),
    ];
    let indexes = build_parameter_indexes(&ids);
    assert_eq!(indexes.get(&SourceParameter::Start.into()), Some(2));
    assert_eq!(indexes.get(&SourceParameter::End.into()), Some(1));
    assert_eq!(indexes.get(&SourceParameter::Pitch.into()), None);
    assert_ne!(
        parameter_key_of(&ParameterId::ParameterIdLFO(0, LFOParameter::Amount)),
        parameter_key_of(&ParameterId::ParameterIdLFO(1, LFOParameter::Amount))
    );
}

#[test]
fn test_quantize_mode_numbers() {
    assert_eq!(CQuantizeMode::from_usize(0), Some(CQuantizeMode::CQuantizeModeSnapClosest));
    assert_eq!(CQuantizeMode::from_usize(2), Some(CQuantizeMode::CQuantizeModeNone));
    assert_eq!(CQuantizeMode::from_usize(3), None);
    assert_eq!(CQuantizeMode::CQuantizeModeSnapNext.to_usize(), 1);
    assert_eq!(
        QuantizeMode::from(CQuantizeMode::CQuantizeModeNone),
        QuantizeMode::Off
    );
    assert_eq!(
        QuantizeMode::from(CQuantizeMode::CQuantizeModeSnapNext),
        QuantizeMode::SnapNext
    );
    assert_eq!(TempoControl::from_usize(1), Some(TempoControl::TempoControlNone));
    assert_eq!(TempoControl::from_usize(2), None);
    assert_eq!(TempoControl::TempoControlSetGlobalTempo.to_usize(), 0);
}

#[test]
fn test_has_value_after_a_sequence_of_sets() {
    let mut ps = ParametersMap::new();
    let ids = build_parameter_ids();
    assert!(ids.iter().all(|id| !ps.has_value(*id)));
    let set_ids: Vec<ParameterId> = vec![
        SourceParameter::Speed.into(),
        EnvelopeParameter::Attack.into(),
        SourceParameter::Speed.into(),
    ];
    for id in &set_ids {
        ps.set(*id, float(0.5));
    }
    for id in &ids {
        assert_eq!(ps.has_value(*id), set_ids.contains(id));
    }
}

#[test]
fn test_float_values_are_equal_within_epsilon() {
    assert_eq!(float(0.0), float(-0.0));
    assert_eq!(float(0.1), float(0.1 + 5e-8));
    assert_ne!(float(0.1), float(0.1 + 2e-7));
    assert_eq!(float(1.0), float(1.0 + f32::EPSILON / 2.0));
    assert_ne!(float(1.0), float(1.0 + f32::EPSILON));
    assert_eq!(float(3.0e38), float(3.0e38));
    assert_ne!(float(f32::NAN), float(f32::NAN));
    assert_ne!(float(f32::INFINITY), float(f32::INFINITY));
    assert_ne!(float(f32::INFINITY), float(f32::MAX));
    assert_ne!(float(1.0), ParameterValue::Int(1));
    assert_ne!(ParameterValue::Int(1), ParameterValue::Int(2));
    assert_eq!(ParameterValue::Enum(3), ParameterValue::Enum(3));
    assert_ne!(ParameterValue::Bool(true), ParameterValue::Bool(false));
    assert_eq!(ParameterValue::Empty, ParameterValue::Empty);
    assert_ne!(ParameterValue::Empty, ParameterValue::Bool(false));
}

#[test]
fn test_float_equality_at_the_rounding_tie() {
    // the exact difference is f32::EPSILON - 2^-48, which rounds up to f32::EPSILON
    let a = f32::from_bits(0x33ff_ffff);
    let b = -f32::from_bits(0x2780_0000);
    assert!(!((a - b).abs() < f32::EPSILON));
    assert_ne!(float(a), float(b));
    // one unit lower it rounds down
    let c = f32::from_bits(0x33ff_fffe);
    assert!((c - b).abs() < f32::EPSILON);
    assert_eq!(float(c), float(b));
}

#[test]
fn test_float_equality_agrees_with_f32_subtraction() {
    let mut specials: Vec<f32> = vec![
        0.0,
        -0.0,
        1.0,
        -1.0,
        f32::EPSILON,
        -f32::EPSILON,
        f32::EPSILON / 2.0,
        f32::MIN_POSITIVE,
        f32::from_bits(1),
        f32::MAX,
        f32::MIN,
        f32::INFINITY,
        f32::NEG_INFINITY,
        f32::NAN,
        1.0e-7,
        6.0e-8,
        2.0e-38,
    ];
    let mut state: u64 = 0x2545_f491_4f6c_dd1d;
    let mut next = move || {
        state ^= state << 13;
        state ^= state >> 7;
        state ^= state << 17;
        state
    };
    for _ in 0..200 {
        let bits = next() as u32;
        specials.push(f32::from_bits(bits));
        // values of small magnitude, where the threshold matters
        specials.push(f32::from_bits((bits % 0x3500_0000) | (bits & 0x8000_0000)));
    }
    let values = specials.clone();
    for &x in values.iter() {
        for delta in [0i64, 1, -1, 7, -300, 0x10_0000, -0x40_0000] {
            let y_bits = (x.to_bits() as i64 + delta).clamp(0, u32::MAX as i64) as u32;
            specials.push(f32::from_bits(y_bits));
        }
    }
    for &a in specials.iter() {
        for &b in values.iter() {
            let expected = (a - b).abs() < f32::EPSILON;
            assert_eq!(float(a) == float(b), expected, "{:?} {:?}", a, b);
        }
    }
}
