use crate::float_bits::{f32_bits_within_epsilon, within_epsilon};
use vstd::prelude::*;
use vstd::std_specs::cmp::PartialEqSpecImpl;

verus! {

/// Identifies one looper track.
#[derive(Debug, Clone, Copy, Hash, PartialEq, Eq, Structural, PartialOrd, Ord)]
pub struct LooperId(pub usize);

/// Parameters of the clip source of a track.
#[derive(Debug, Clone, Copy, Hash, PartialEq, Eq, Structural, PartialOrd, Ord)]
pub enum SourceParameter {
    Start,
    End,
    FadeStart,
    FadeEnd,
    Pitch,
    Speed,
    LoopEnabled,
    SliceId,
    SliceEnabled,
}

/// Parameters of the quantization of a track.
#[derive(Debug, Clone, Copy, Hash, PartialEq, Eq, Structural, PartialOrd, Ord)]
pub enum QuantizationParameter {
    QuantizationParameterQuantizeMode,
    QuantizationParameterTempoControl,
}

/// Parameters of the envelope of a track.
#[derive(Debug, Clone, Copy, Hash, PartialEq, Eq, Structural, PartialOrd, Ord)]
pub enum EnvelopeParameter {
    Attack,
    Decay,
    Release,
    Sustain,
    EnvelopeEnabled,
}

/// Parameters of one LFO of a track.
#[derive(Debug, Clone, Copy, Hash, PartialEq, Eq, Structural, PartialOrd, Ord)]
pub enum LFOParameter {
    Frequency,
    Amount,
}

/// Any parameter of a track.
#[derive(Debug, Clone, Copy, Hash, PartialEq, Eq, Structural, PartialOrd, Ord)]
pub enum ParameterId {
    ParameterIdSource(SourceParameter),
    ParameterIdEnvelope(EnvelopeParameter),
    ParameterIdLFO(usize, LFOParameter),
    ParameterIdQuantization(QuantizationParameter),
}

/// Any entity that a controller can be mapped onto.
#[derive(Debug, Clone, Copy, Hash, PartialEq, Eq, Structural, PartialOrd, Ord)]
pub enum EntityId {
    EntityIdLooperParameter(LooperId, ParameterId),
}

/// Identifies a scene.
pub type SceneId = usize;

/// Quantization mode as the UI sends it.
#[derive(Debug, Clone, Copy, Hash, PartialEq, Eq, Structural)]
pub enum CQuantizeMode {
    CQuantizeModeSnapClosest,
    CQuantizeModeSnapNext,
    CQuantizeModeNone,
}

/// Quantization mode of a looper.
#[derive(Debug, Clone, Copy, Hash, PartialEq, Eq, Structural)]
pub enum QuantizeMode {
    SnapClosest,
    SnapNext,
    Off,
}

/// Whether a track sets the global tempo when its first loop is recorded.
#[derive(Debug, Clone, Copy, Hash, PartialEq, Eq, Structural, PartialOrd, Ord)]
pub enum TempoControl {
    TempoControlSetGlobalTempo,
    TempoControlNone,
}

/// The quantize mode that a UI quantize mode selects.
pub open spec fn quantize_mode_of(mode: CQuantizeMode) -> QuantizeMode {
    match mode {
        CQuantizeMode::CQuantizeModeSnapClosest => QuantizeMode::SnapClosest,
        CQuantizeMode::CQuantizeModeSnapNext => QuantizeMode::SnapNext,
        CQuantizeMode::CQuantizeModeNone => QuantizeMode::Off,
    }
}

impl QuantizeMode {
    /// The number of a looper quantize mode, in the order the modes are
    /// declared, which is the order of the UI's modes.
    pub open spec fn mode_number(self) -> usize {
        match self {
            QuantizeMode::SnapClosest => 0,
            QuantizeMode::SnapNext => 1,
            QuantizeMode::Off => 2,
        }
    }
}

/// The UI's quantize modes and the looper's correspond one to one by name:
/// snapping to the closest bar stays snapping to the closest bar, snapping
/// to the next bar stays so, and no quantization switches it off. Distinct
/// UI modes select distinct looper modes, every looper mode is selected by
/// one, and the mode numbers are kept.
pub proof fn lemma_quantize_modes_correspond(a: CQuantizeMode, b: CQuantizeMode, m: QuantizeMode)
    ensures
        quantize_mode_of(a).mode_number() == a.spec_to_usize(),
        quantize_mode_of(a) == quantize_mode_of(b) ==> a == b,
        exists|c: CQuantizeMode| quantize_mode_of(c) == m,
        quantize_mode_of(CQuantizeMode::CQuantizeModeSnapClosest) == QuantizeMode::SnapClosest,
        quantize_mode_of(CQuantizeMode::CQuantizeModeSnapNext) == QuantizeMode::SnapNext,
        quantize_mode_of(CQuantizeMode::CQuantizeModeNone) == QuantizeMode::Off,
{
    let c = match m {
        QuantizeMode::SnapClosest => CQuantizeMode::CQuantizeModeSnapClosest,
        QuantizeMode::SnapNext => CQuantizeMode::CQuantizeModeSnapNext,
        QuantizeMode::Off => CQuantizeMode::CQuantizeModeNone,
    };
    assert(quantize_mode_of(c) == m);
}

impl From<CQuantizeMode> for QuantizeMode {
    fn from(mode: CQuantizeMode) -> (r: QuantizeMode) {
        match mode {
            CQuantizeMode::CQuantizeModeSnapClosest => QuantizeMode::SnapClosest,
            CQuantizeMode::CQuantizeModeSnapNext => QuantizeMode::SnapNext,
            CQuantizeMode::CQuantizeModeNone => QuantizeMode::Off,
        }
    }
}

impl vstd::std_specs::convert::FromSpecImpl<CQuantizeMode> for QuantizeMode {
    open spec fn obeys_from_spec() -> bool {
        true
    }

    open spec fn from_spec(mode: CQuantizeMode) -> QuantizeMode {
        quantize_mode_of(mode)
    }
}

impl From<EnvelopeParameter> for ParameterId {
    fn from(inner: EnvelopeParameter) -> (r: ParameterId) {
        ParameterId::ParameterIdEnvelope(inner)
    }
}

impl vstd::std_specs::convert::FromSpecImpl<EnvelopeParameter> for ParameterId {
    open spec fn obeys_from_spec() -> bool {
        true
    }

    open spec fn from_spec(inner: EnvelopeParameter) -> ParameterId {
        ParameterId::ParameterIdEnvelope(inner)
    }
}

impl From<SourceParameter> for ParameterId {
    fn from(inner: SourceParameter) -> (r: ParameterId) {
        ParameterId::ParameterIdSource(inner)
    }
}

impl vstd::std_specs::convert::FromSpecImpl<SourceParameter> for ParameterId {
    open spec fn obeys_from_spec() -> bool {
        true
    }

    open spec fn from_spec(inner: SourceParameter) -> ParameterId {
        ParameterId::ParameterIdSource(inner)
    }
}

impl CQuantizeMode {
    /// The number that stands for this mode.
    pub open spec fn spec_to_usize(self) -> usize {
        match self {
            CQuantizeMode::CQuantizeModeSnapClosest => 0,
            CQuantizeMode::CQuantizeModeSnapNext => 1,
            CQuantizeMode::CQuantizeModeNone => 2,
        }
    }

    pub fn to_usize(&self) -> (r: usize)
        ensures
            r == self.spec_to_usize(),
    {
        match self {
            CQuantizeMode::CQuantizeModeSnapClosest => 0,
            CQuantizeMode::CQuantizeModeSnapNext => 1,
            CQuantizeMode::CQuantizeModeNone => 2,
        }
    }

    /// The mode whose number is `value`, if there is one.
    pub fn from_usize(value: usize) -> (r: Option<CQuantizeMode>)
        ensures
            value <= 2 <==> r is Some,
            r matches Some(m) ==> m.spec_to_usize() == value,
    {
        if value == 0 {
            Some(CQuantizeMode::CQuantizeModeSnapClosest)
        } else if value == 1 {
            Some(CQuantizeMode::CQuantizeModeSnapNext)
        } else if value == 2 {
            Some(CQuantizeMode::CQuantizeModeNone)
        } else {
            None
        }
    }
}

impl TempoControl {
    /// The number that stands for this setting.
    pub open spec fn spec_to_usize(self) -> usize {
        match self {
            TempoControl::TempoControlSetGlobalTempo => 0,
            TempoControl::TempoControlNone => 1,
        }
    }

    pub fn to_usize(&self) -> (r: usize)
        ensures
            r == self.spec_to_usize(),
    {
        match self {
            TempoControl::TempoControlSetGlobalTempo => 0,
            TempoControl::TempoControlNone => 1,
        }
    }

    /// The setting whose number is `value`, if there is one.
    pub fn from_usize(value: usize) -> (r: Option<TempoControl>)
        ensures
            value <= 1 <==> r is Some,
            r matches Some(m) ==> m.spec_to_usize() == value,
    {
        if value == 0 {
            Some(TempoControl::TempoControlSetGlobalTempo)
        } else if value == 1 {
            Some(TempoControl::TempoControlNone)
        } else {
            None
        }
    }
}

/// IEEE-754 single precision bit pattern of `0.0`.
pub const F32_BITS_ZERO: u32 = 0x0000_0000u32;

/// IEEE-754 single precision bit pattern of `1.0`.
pub const F32_BITS_ONE: u32 = 0x3f80_0000u32;

/// IEEE-754 single precision bit pattern of `0.3`.
pub const F32_BITS_POINT_THREE: u32 = 0x3e99_999au32;

/// The value of a parameter. A float value is held by its IEEE-754 single
/// precision bit pattern (`f32::to_bits`), so that it is stored and copied
/// exactly; arithmetic on it happens outside this crate.
///
/// Two values are equal (`==`) when they are of the same kind and hold the
/// same value, floats within `f32::EPSILON` of each other.
#[derive(Debug, Clone, Copy)]
pub enum ParameterValue {
    Float(u32),
    Bool(bool),
    Enum(usize),
    Int(i32),
    Empty,
}

impl ParameterValue {
    /// Whether `self == other`: floats are compared within `f32::EPSILON`,
    /// the other kinds exactly, and values of different kinds differ.
    pub open spec fn matches_value(self, other: ParameterValue) -> bool {
        match (self, other) {
            (ParameterValue::Float(a), ParameterValue::Float(b)) => within_epsilon(a, b),
            (ParameterValue::Bool(a), ParameterValue::Bool(b)) => a == b,
            (ParameterValue::Enum(a), ParameterValue::Enum(b)) => a == b,
            (ParameterValue::Int(a), ParameterValue::Int(b)) => a == b,
            (ParameterValue::Empty, ParameterValue::Empty) => true,
            _ => false,
        }
    }
}

impl PartialEq for ParameterValue {
    fn eq(&self, other: &Self) -> (r: bool) {
        match (self, other) {
            (ParameterValue::Float(a), ParameterValue::Float(b)) => f32_bits_within_epsilon(*a, *b),
            (ParameterValue::Bool(a), ParameterValue::Bool(b)) => *a == *b,
            (ParameterValue::Enum(a), ParameterValue::Enum(b)) => *a == *b,
            (ParameterValue::Int(a), ParameterValue::Int(b)) => *a == *b,
            (ParameterValue::Empty, ParameterValue::Empty) => true,
            _ => false,
        }
    }
}

impl PartialEqSpecImpl for ParameterValue {
    open spec fn obeys_eq_spec() -> bool {
        true
    }

    open spec fn eq_spec(&self, other: &ParameterValue) -> bool {
        self.matches_value(*other)
    }
}

impl ParameterValue {
    /// The value of `self` converted to the kind of `slot`: a value of
    /// another kind reads as zero / false.
    pub open spec fn converted_to_kind_of(self, slot: ParameterValue) -> ParameterValue {
        match slot {
            ParameterValue::Float(_) => ParameterValue::Float(self.spec_as_float_bits()),
            ParameterValue::Bool(_) => ParameterValue::Bool(self.spec_as_bool()),
            ParameterValue::Enum(_) => ParameterValue::Enum(self.spec_as_enum()),
            ParameterValue::Int(_) => ParameterValue::Int(self.spec_as_int()),
            ParameterValue::Empty => ParameterValue::Empty,
        }
    }

    /// Whether two values are of the same kind.
    pub open spec fn same_kind(self, other: ParameterValue) -> bool {
        match (self, other) {
            (ParameterValue::Float(_), ParameterValue::Float(_)) => true,
            (ParameterValue::Bool(_), ParameterValue::Bool(_)) => true,
            (ParameterValue::Enum(_), ParameterValue::Enum(_)) => true,
            (ParameterValue::Int(_), ParameterValue::Int(_)) => true,
            (ParameterValue::Empty, ParameterValue::Empty) => true,
            _ => false,
        }
    }

    pub open spec fn spec_as_int(self) -> i32 {
        match self {
            ParameterValue::Int(i) => i,
            _ => 0,
        }
    }

    pub open spec fn spec_as_bool(self) -> bool {
        match self {
            ParameterValue::Bool(b) => b,
            _ => false,
        }
    }

    pub open spec fn spec_as_float_bits(self) -> u32 {
        match self {
            ParameterValue::Float(f) => f,
            _ => F32_BITS_ZERO,
        }
    }

    pub open spec fn spec_as_enum(self) -> usize {
        match self {
            ParameterValue::Enum(e) => e,
            _ => 0,
        }
    }

    /// The integer held, or `0` for a value of another kind.
    pub fn as_int(&self) -> (r: i32)
        ensures
            r == self.spec_as_int(),
    {
        match self {
            ParameterValue::Int(i) => *i,
            _ => 0,
        }
    }

    /// The boolean held, or `false` for a value of another kind.
    pub fn as_bool(&self) -> (r: bool)
        ensures
            r == self.spec_as_bool(),
    {
        match self {
            ParameterValue::Bool(b) => *b,
            _ => false,
        }
    }

    /// The bit pattern of the float held, or that of `0.0` for a value of
    /// another kind.
    pub fn as_float_bits(&self) -> (r: u32)
        ensures
            r == self.spec_as_float_bits(),
    {
        match self {
            ParameterValue::Float(f) => *f,
            _ => F32_BITS_ZERO,
        }
    }

    /// The enum index held, or `0` for a value of another kind.
    pub fn as_enum(&self) -> (r: usize)
        ensures
            r == self.spec_as_enum(),
    {
        match self {
            ParameterValue::Enum(e) => *e,
            _ => 0,
        }
    }

    /// Overwrites `self` with `other`, keeping the kind of `self`.
    pub fn set_from(&mut self, other: &ParameterValue)
        ensures
            *final(self) == other.converted_to_kind_of(*old(self)),
    {
        match self {
            ParameterValue::Float(_) => {
                *self = ParameterValue::Float(other.as_float_bits());
            },
            ParameterValue::Bool(_) => {
                *self = ParameterValue::Bool(other.as_bool());
            },
            ParameterValue::Enum(_) => {
                *self = ParameterValue::Enum(other.as_enum());
            },
            ParameterValue::Int(_) => {
                *self = ParameterValue::Int(other.as_int());
            },
            ParameterValue::Empty => {},
        }
    }
}

/// A converted value has the kind of its slot, and converting into slots of
/// the same kind gives the same value.
pub proof fn lemma_conversion_depends_on_kind(v: ParameterValue, a: ParameterValue, b: ParameterValue)
    ensures
        v.converted_to_kind_of(a).same_kind(a),
        a.same_kind(b) ==> v.converted_to_kind_of(a) == v.converted_to_kind_of(b),
        v.converted_to_kind_of(a).same_kind(b) ==> v.converted_to_kind_of(
            v.converted_to_kind_of(a),
        ) == v.converted_to_kind_of(b),
        v.same_kind(a) ==> v.converted_to_kind_of(a) == v,
{
}

/// The kind of value that a parameter holds.
#[derive(Debug, Clone, Copy, PartialEq, Eq, Structural)]
pub enum ParameterKind {
    Float,
    Bool,
    Enum,
    Int,
}

/// The kind of value that each parameter holds.
pub open spec fn kind_of(id: ParameterId) -> ParameterKind {
    match id {
        ParameterId::ParameterIdSource(p) => match p {
            SourceParameter::LoopEnabled => ParameterKind::Bool,
            SourceParameter::SliceEnabled => ParameterKind::Bool,
            SourceParameter::SliceId => ParameterKind::Int,
            _ => ParameterKind::Float,
        },
        ParameterId::ParameterIdEnvelope(p) => match p {
            EnvelopeParameter::EnvelopeEnabled => ParameterKind::Bool,
            _ => ParameterKind::Float,
        },
        ParameterId::ParameterIdLFO(_, _) => ParameterKind::Float,
        ParameterId::ParameterIdQuantization(_) => ParameterKind::Enum,
    }
}

/// The default value of each parameter. `SliceId` is an integer parameter
/// without a default.
pub open spec fn default_value(id: ParameterId) -> ParameterValue {
    match id {
        ParameterId::ParameterIdSource(p) => match p {
            SourceParameter::Start => ParameterValue::Float(F32_BITS_ZERO),
            SourceParameter::End => ParameterValue::Float(F32_BITS_ONE),
            SourceParameter::FadeStart => ParameterValue::Float(F32_BITS_ZERO),
            SourceParameter::FadeEnd => ParameterValue::Float(F32_BITS_ZERO),
            SourceParameter::Pitch => ParameterValue::Float(F32_BITS_ONE),
            SourceParameter::Speed => ParameterValue::Float(F32_BITS_ONE),
            SourceParameter::LoopEnabled => ParameterValue::Bool(true),
            SourceParameter::SliceId => ParameterValue::Empty,
            SourceParameter::SliceEnabled => ParameterValue::Bool(false),
        },
        ParameterId::ParameterIdEnvelope(p) => match p {
            EnvelopeParameter::Attack => ParameterValue::Float(F32_BITS_ZERO),
            EnvelopeParameter::Decay => ParameterValue::Float(F32_BITS_ZERO),
            EnvelopeParameter::Release => ParameterValue::Float(F32_BITS_POINT_THREE),
            EnvelopeParameter::Sustain => ParameterValue::Float(F32_BITS_ONE),
            EnvelopeParameter::EnvelopeEnabled => ParameterValue::Bool(false),
        },
        ParameterId::ParameterIdLFO(_, p) => match p {
            LFOParameter::Frequency => ParameterValue::Float(F32_BITS_ONE),
            LFOParameter::Amount => ParameterValue::Float(F32_BITS_ONE),
        },
        ParameterId::ParameterIdQuantization(_) => ParameterValue::Enum(0),
    }
}

/// The kind of value that a parameter holds.
pub fn get_parameter_kind(id: &ParameterId) -> (r: ParameterKind)
    ensures
        r == kind_of(*id),
{
    match id {
        ParameterId::ParameterIdSource(p) => match p {
            SourceParameter::LoopEnabled => ParameterKind::Bool,
            SourceParameter::SliceEnabled => ParameterKind::Bool,
            SourceParameter::SliceId => ParameterKind::Int,
            _ => ParameterKind::Float,
        },
        ParameterId::ParameterIdEnvelope(p) => match p {
            EnvelopeParameter::EnvelopeEnabled => ParameterKind::Bool,
            _ => ParameterKind::Float,
        },
        ParameterId::ParameterIdLFO(_, _) => ParameterKind::Float,
        ParameterId::ParameterIdQuantization(_) => ParameterKind::Enum,
    }
}

/// The default value of a parameter.
pub fn get_default_parameter_value(id: &ParameterId) -> (r: ParameterValue)
    ensures
        r == default_value(*id),
        match kind_of(*id) {
            ParameterKind::Float => r is Float,
            ParameterKind::Bool => r is Bool,
            ParameterKind::Enum => r is Enum,
            ParameterKind::Int => r is Int || r is Empty,
        },
{
    match id {
        ParameterId::ParameterIdSource(p) => match p {
            SourceParameter::Start => ParameterValue::Float(F32_BITS_ZERO),
            SourceParameter::End => ParameterValue::Float(F32_BITS_ONE),
            SourceParameter::FadeStart => ParameterValue::Float(F32_BITS_ZERO),
            SourceParameter::FadeEnd => ParameterValue::Float(F32_BITS_ZERO),
            SourceParameter::Pitch => ParameterValue::Float(F32_BITS_ONE),
            SourceParameter::Speed => ParameterValue::Float(F32_BITS_ONE),
            SourceParameter::LoopEnabled => ParameterValue::Bool(true),
            SourceParameter::SliceId => ParameterValue::Empty,
            SourceParameter::SliceEnabled => ParameterValue::Bool(false),
        },
        ParameterId::ParameterIdEnvelope(p) => match p {
            EnvelopeParameter::Attack => ParameterValue::Float(F32_BITS_ZERO),
            EnvelopeParameter::Decay => ParameterValue::Float(F32_BITS_ZERO),
            EnvelopeParameter::Release => ParameterValue::Float(F32_BITS_POINT_THREE),
            EnvelopeParameter::Sustain => ParameterValue::Float(F32_BITS_ONE),
            EnvelopeParameter::EnvelopeEnabled => ParameterValue::Bool(false),
        },
        ParameterId::ParameterIdLFO(_, p) => match p {
            LFOParameter::Frequency => ParameterValue::Float(F32_BITS_ONE),
            LFOParameter::Amount => ParameterValue::Float(F32_BITS_ONE),
        },
        ParameterId::ParameterIdQuantization(_) => ParameterValue::Enum(0),
    }
}

/// The parameters of a track, in the order in which tables hold them:
/// source parameters, envelope parameters, the parameters of both LFOs,
/// quantization parameters.
pub open spec fn parameter_ids() -> Seq<ParameterId> {
    seq![
        ParameterId::ParameterIdSource(SourceParameter::Start),
        ParameterId::ParameterIdSource(SourceParameter::End),
        ParameterId::ParameterIdSource(SourceParameter::FadeStart),
        ParameterId::ParameterIdSource(SourceParameter::FadeEnd),
        ParameterId::ParameterIdSource(SourceParameter::Pitch),
        ParameterId::ParameterIdSource(SourceParameter::Speed),
        ParameterId::ParameterIdSource(SourceParameter::LoopEnabled),
        ParameterId::ParameterIdSource(SourceParameter::SliceId),
        ParameterId::ParameterIdSource(SourceParameter::SliceEnabled),
        ParameterId::ParameterIdEnvelope(EnvelopeParameter::Attack),
        ParameterId::ParameterIdEnvelope(EnvelopeParameter::Decay),
        ParameterId::ParameterIdEnvelope(EnvelopeParameter::Release),
        ParameterId::ParameterIdEnvelope(EnvelopeParameter::Sustain),
        ParameterId::ParameterIdEnvelope(EnvelopeParameter::EnvelopeEnabled),
        ParameterId::ParameterIdLFO(0, LFOParameter::Frequency),
        ParameterId::ParameterIdLFO(1, LFOParameter::Frequency),
        ParameterId::ParameterIdLFO(0, LFOParameter::Amount),
        ParameterId::ParameterIdLFO(1, LFOParameter::Amount),
        ParameterId::ParameterIdQuantization(
            QuantizationParameter::QuantizationParameterQuantizeMode,
        ),
        ParameterId::ParameterIdQuantization(
            QuantizationParameter::QuantizationParameterTempoControl,
        ),
    ]
}

/// Whether `id` is one of the parameters of a track.
pub open spec fn is_track_parameter(id: ParameterId) -> bool {
    match id {
        ParameterId::ParameterIdLFO(lfo, _) => lfo < 2,
        _ => true,
    }
}

/// The number of parameters of a track.
pub const NUM_PARAMETERS: usize = 20usize;

/// Each track parameter occurs in the table exactly once, and nothing else does.
pub proof fn lemma_parameter_ids_complete()
    ensures
        parameter_ids().len() == NUM_PARAMETERS,
        parameter_ids().no_duplicates(),
        forall|id: ParameterId| #[trigger] is_track_parameter(id) <==> parameter_ids().contains(id),
{
    let s = parameter_ids();
    assert(s.len() == 20);
    assert forall|id: ParameterId| #[trigger] is_track_parameter(id) implies s.contains(id) by {
        let i: int = match id {
            ParameterId::ParameterIdSource(p) => match p {
                SourceParameter::Start => 0,
                SourceParameter::End => 1,
                SourceParameter::FadeStart => 2,
                SourceParameter::FadeEnd => 3,
                SourceParameter::Pitch => 4,
                SourceParameter::Speed => 5,
                SourceParameter::LoopEnabled => 6,
                SourceParameter::SliceId => 7,
                SourceParameter::SliceEnabled => 8,
            },
            ParameterId::ParameterIdEnvelope(p) => match p {
                EnvelopeParameter::Attack => 9,
                EnvelopeParameter::Decay => 10,
                EnvelopeParameter::Release => 11,
                EnvelopeParameter::Sustain => 12,
                EnvelopeParameter::EnvelopeEnabled => 13,
            },
            ParameterId::ParameterIdLFO(lfo, p) => match p {
                LFOParameter::Frequency => 14 + lfo,
                LFOParameter::Amount => 16 + lfo,
            },
            ParameterId::ParameterIdQuantization(p) => match p {
                QuantizationParameter::QuantizationParameterQuantizeMode => 18,
                QuantizationParameter::QuantizationParameterTempoControl => 19,
            },
        };
        assert(s[i] == id);
    }
    assert forall|id: ParameterId| s.contains(id) implies #[trigger] is_track_parameter(id) by {
        let i = choose|i: int| 0 <= i < s.len() && s[i] == id;
        assert(0 <= i < 20);
    }
    assert forall|i: int, j: int| 0 <= i < s.len() && 0 <= j < s.len() && i != j implies s[i]
        != s[j] by {
        assert(0 <= i < 20 && 0 <= j < 20);
    }
}

/// Builds the list of the parameters of a track (see `parameter_ids`).
pub fn build_parameter_ids() -> (r: Vec<ParameterId>)
    ensures
        r@ == parameter_ids(),
{
    let mut ids: Vec<ParameterId> = Vec::new();
    ids.push(ParameterId::ParameterIdSource(SourceParameter::Start));
    ids.push(ParameterId::ParameterIdSource(SourceParameter::End));
    ids.push(ParameterId::ParameterIdSource(SourceParameter::FadeStart));
    ids.push(ParameterId::ParameterIdSource(SourceParameter::FadeEnd));
    ids.push(ParameterId::ParameterIdSource(SourceParameter::Pitch));
    ids.push(ParameterId::ParameterIdSource(SourceParameter::Speed));
    ids.push(ParameterId::ParameterIdSource(SourceParameter::LoopEnabled));
    ids.push(ParameterId::ParameterIdSource(SourceParameter::SliceId));
    ids.push(ParameterId::ParameterIdSource(SourceParameter::SliceEnabled));
    ids.push(ParameterId::ParameterIdEnvelope(EnvelopeParameter::Attack));
    ids.push(ParameterId::ParameterIdEnvelope(EnvelopeParameter::Decay));
    ids.push(ParameterId::ParameterIdEnvelope(EnvelopeParameter::Release));
    ids.push(ParameterId::ParameterIdEnvelope(EnvelopeParameter::Sustain));
    ids.push(ParameterId::ParameterIdEnvelope(EnvelopeParameter::EnvelopeEnabled));
    ids.push(ParameterId::ParameterIdLFO(0, LFOParameter::Frequency));
    ids.push(ParameterId::ParameterIdLFO(1, LFOParameter::Frequency));
    ids.push(ParameterId::ParameterIdLFO(0, LFOParameter::Amount));
    ids.push(ParameterId::ParameterIdLFO(1, LFOParameter::Amount));
    ids.push(
        ParameterId::ParameterIdQuantization(
            QuantizationParameter::QuantizationParameterQuantizeMode,
        ),
    );
    ids.push(
        ParameterId::ParameterIdQuantization(
            QuantizationParameter::QuantizationParameterTempoControl,
        ),
    );
    assert(ids@ =~= parameter_ids());
    ids
}

/// Builds the default values of the track parameters together with the list
/// of their ids: `values[i]` is the default value of `ids[i]`.
pub fn build_default_parameters() -> (r: (Vec<ParameterValue>, Vec<ParameterId>))
    ensures
        r.1@ == parameter_ids(),
        r.0@.len() == r.1@.len(),
        forall|i: int| 0 <= i < r.0@.len() ==> r.0@[i] == default_value(#[trigger] r.1@[i]),
{
    let ids = build_parameter_ids();
    let mut values: Vec<ParameterValue> = Vec::new();
    let mut i: usize = 0;
    while i < ids.len()
        invariant
            i <= ids@.len(),
            values@.len() == i,
            forall|j: int| 0 <= j < i ==> values@[j] == default_value(#[trigger] ids@[j]),
        decreases ids@.len() - i,
    {
        values.push(get_default_parameter_value(&ids[i]));
        i = i + 1;
    }
    (values, ids)
}

} // verus!
