use vstd::prelude::*;

use crate::lfo::LFOHandle;
use crate::looper_handle::LooperState;
use crate::parameters::{
    is_track_parameter, quantize_mode_of, CQuantizeMode, EnvelopeParameter, LFOParameter,
    LooperId, ParameterId, ParameterValue, QuantizationParameter, QuantizeMode, SceneId,
    SourceParameter, TempoControl, NUM_PARAMETERS,
};
use crate::parameters_map::{saved_values, ParametersMap};
use crate::scene_state::SceneHandle;

verus! {

/// The number of tracks that scenes hold locks for.
pub const SCENE_LOOPERS: usize = 8usize;

/// The number of scenes.
pub const NUM_SCENES: usize = 2usize;

/// What the record/play button does to the active track.
#[derive(Debug, Clone, Copy, PartialEq, Eq, Structural)]
pub enum RecordPlayAction {
    /// An empty track starts recording.
    StartRecording,
    /// A recording or overdub is stopped, and the track plays its loop.
    StopRecording,
    /// Any other track starts playback.
    Play,
}

/// The record/play button: if the track is empty it starts recording,
/// otherwise it starts playback (a recording or overdub is stopped first).
pub open spec fn spec_record_play_action(state: LooperState) -> RecordPlayAction {
    match state {
        LooperState::Empty => RecordPlayAction::StartRecording,
        LooperState::Recording => RecordPlayAction::StopRecording,
        LooperState::Overdubbing => RecordPlayAction::StopRecording,
        _ => RecordPlayAction::Play,
    }
}

/// What the record/play button does to a track in `state`.
pub fn record_play_action(state: LooperState) -> (r: RecordPlayAction)
    ensures
        r == spec_record_play_action(state),
{
    if state == LooperState::Empty {
        RecordPlayAction::StartRecording
    } else if state == LooperState::Recording || state == LooperState::Overdubbing {
        RecordPlayAction::StopRecording
    } else {
        RecordPlayAction::Play
    }
}

/// The marker a slice parameter selects: the value read as a `usize`,
/// modulo the number of markers. Slicing applies only when it is enabled
/// and there are markers and a loop.
pub open spec fn spec_slice_marker(
    slice_enabled: bool,
    value: i32,
    num_markers: usize,
    num_samples: usize,
) -> Option<usize> {
    if !slice_enabled || num_markers == 0 || num_samples == 0 {
        None
    } else {
        Some(((value as usize) % num_markers) as usize)
    }
}

/// The marker a slice parameter selects (see `spec_slice_marker`).
pub fn slice_marker(slice_enabled: bool, value: i32, num_markers: usize, num_samples: usize) -> (r:
    Option<usize>)
    ensures
        r == spec_slice_marker(slice_enabled, value, num_markers, num_samples),
        r matches Some(i) ==> i < num_markers,
{
    if !slice_enabled {
        return None;
    }
    if num_markers == 0 || num_samples == 0 {
        return None;
    }
    Some((value as usize) % num_markers)
}

/// The stored parameters of one track and its two LFOs.
pub struct VoiceParameters {
    user_parameters: ParametersMap,
    lfo1: LFOHandle,
    lfo2: LFOHandle,
}

impl VoiceParameters {
    pub closed spec fn wf(self) -> bool {
        &&& self.user_parameters.wf()
        &&& self.lfo1.wf()
        &&& self.lfo2.wf()
    }

    /// The parameter table of the track.
    pub closed spec fn table(self) -> ParametersMap {
        self.user_parameters
    }

    /// The first or second LFO of the track.
    pub closed spec fn lfo(self, lfo_id: usize) -> LFOHandle {
        if lfo_id == 0 {
            self.lfo1
        } else {
            self.lfo2
        }
    }

    /// The parameter table of the track.
    pub fn user_parameters(&self) -> (r: &ParametersMap)
        ensures
            *r == self.table(),
    {
        &self.user_parameters
    }

    /// The first LFO.
    pub fn lfo1(&self) -> (r: &LFOHandle)
        ensures
            *r == self.lfo(0),
    {
        &self.lfo1
    }

    /// The second LFO.
    pub fn lfo2(&self) -> (r: &LFOHandle)
        ensures
            *r == self.lfo(1),
    {
        &self.lfo2
    }
}

/// A saved track: its id, the values set in its parameter table (see
/// `saved_values`) and how strongly each of its two LFOs modulates each
/// parameter.
pub struct LooperVoicePersist {
    pub id: usize,
    pub parameter_values: Vec<Option<ParameterValue>>,
    pub lfo1: Vec<u32>,
    pub lfo2: Vec<u32>,
}

/// The parameter side of the multi-track looper: each track's parameters
/// and LFOs, the scenes, and the track the MIDI button acts on.
pub struct MultiTrackParameters {
    voices: Vec<VoiceParameters>,
    scene_parameters: SceneHandle,
    active_looper: usize,
}

impl MultiTrackParameters {
    pub closed spec fn wf(self) -> bool {
        &&& forall|i: int| #![trigger self.voices@[i]] 0 <= i < self.voices@.len() ==> self.voices@[i].wf()
        &&& self.scene_parameters.wf()
        &&& self.scene_parameters.num_scenes() == NUM_SCENES
        &&& self.scene_parameters.spec_num_loopers() == SCENE_LOOPERS
    }

    /// The number of tracks.
    pub closed spec fn spec_num_voices(self) -> nat {
        self.voices@.len()
    }

    /// The parameters of track `i`.
    pub closed spec fn voice(self, i: int) -> VoiceParameters {
        self.voices@[i]
    }

    /// The parameters of all tracks.
    pub closed spec fn voices_view(self) -> Seq<VoiceParameters> {
        self.voices@
    }

    /// The scenes.
    pub closed spec fn scenes(self) -> SceneHandle {
        self.scene_parameters
    }

    /// The track the MIDI button acts on.
    pub closed spec fn spec_active_looper(self) -> usize {
        self.active_looper
    }

    /// The value stored for `id` on track `looper`.
    pub open spec fn value(self, looper: int, id: ParameterId) -> ParameterValue {
        self.voice(looper).table().value(id)
    }

    /// Only track `looper`'s parameter `id` may differ between `self` and
    /// `other`; LFOs, scenes and the active track are the same.
    pub open spec fn same_but(self, other: Self, looper: int, id: ParameterId) -> bool {
        &&& self.spec_num_voices() == other.spec_num_voices()
        &&& self.scenes() == other.scenes()
        &&& self.spec_active_looper() == other.spec_active_looper()
        &&& forall|i: int|
            0 <= i < self.spec_num_voices() ==> #[trigger] self.voice(i).lfo(0) == other.voice(i).lfo(0)
                && self.voice(i).lfo(1) == other.voice(i).lfo(1)
        &&& forall|i: int, other_id: ParameterId|
            #![trigger self.value(i, other_id)]
            0 <= i < self.spec_num_voices() && is_track_parameter(other_id) && (i != looper
                || other_id != id) ==> self.value(i, other_id) == other.value(i, other_id)
                && self.voice(i).table().is_set(other_id) == other.voice(i).table().is_set(
                other_id,
            )
    }

    /// The parameter tables, LFOs and scene tables of well-formed track
    /// parameters are well formed.
    pub proof fn lemma_parts_wf(self)
        requires
            self.wf(),
        ensures
            forall|i: int|
                0 <= i < self.spec_num_voices() ==> (#[trigger] self.voice(i)).table().wf() && self.voice(
                    i,
                ).lfo(0).wf() && self.voice(i).lfo(1).wf(),
            forall|s: int, l: int|
                0 <= s < NUM_SCENES && 0 <= l < SCENE_LOOPERS ==> (#[trigger] self.scenes().table(s, l)).wf(),
    {
        assert forall|i: int| 0 <= i < self.spec_num_voices() implies (#[trigger] self.voice(i)).table().wf()
            && self.voice(i).lfo(0).wf() && self.voice(i).lfo(1).wf() by {
            assert(self.voices@[i].wf());
        }
        self.scene_parameters.lemma_tables_wf();
    }

    /// `num_voices` tracks with default parameters and LFOs, scenes for
    /// eight tracks without locks, the first track active.
    pub fn new(num_voices: usize) -> (r: Self)
        ensures
            r.wf(),
            r.spec_num_voices() == num_voices,
            r.spec_active_looper() == 0,
            forall|i: int, id: ParameterId|
                0 <= i < num_voices && is_track_parameter(id) ==> #[trigger] r.value(i, id)
                    == crate::parameters::default_value(id) && !r.voice(i).table().is_set(id),
            forall|i: int, k: usize, id: ParameterId|
                0 <= i < num_voices && is_track_parameter(id) ==> #[trigger] r.voice(i).lfo(k).spec_modulation(id)
                    == crate::parameters::F32_BITS_ZERO,
            forall|i: int, k: usize|
                0 <= i < num_voices ==> #[trigger] r.voice(i).lfo(k).spec_amount()
                    == crate::parameters::F32_BITS_ONE && r.voice(i).lfo(k).spec_frequency()
                    == crate::parameters::F32_BITS_ONE,
            r.scenes().slider() == 0,
            forall|s: int, l: int, id: ParameterId|
                0 <= s < NUM_SCENES && 0 <= l < SCENE_LOOPERS && is_track_parameter(id)
                    ==> #[trigger] r.scenes().locked_value(s, l, id) is None,
    {
        let mut voices: Vec<VoiceParameters> = Vec::new();
        let mut i: usize = 0;
        while i < num_voices
            invariant
                i <= num_voices,
                voices@.len() == i,
                forall|j: int| 0 <= j < i ==> #[trigger] voices@[j].wf(),
                forall|j: int, id: ParameterId|
                    0 <= j < i && is_track_parameter(id) ==> #[trigger] voices@[j].table().value(id)
                        == crate::parameters::default_value(id) && !voices@[j].table().is_set(id),
                forall|j: int, k: usize, id: ParameterId|
                    0 <= j < i && is_track_parameter(id) ==> #[trigger] voices@[j].lfo(k).spec_modulation(id)
                        == crate::parameters::F32_BITS_ZERO,
                forall|j: int, k: usize|
                    0 <= j < i ==> #[trigger] voices@[j].lfo(k).spec_amount()
                        == crate::parameters::F32_BITS_ONE && voices@[j].lfo(k).spec_frequency()
                        == crate::parameters::F32_BITS_ONE,
            decreases num_voices - i,
        {
            voices.push(
                VoiceParameters {
                    user_parameters: ParametersMap::new(),
                    lfo1: LFOHandle::new(),
                    lfo2: LFOHandle::new(),
                },
            );
            i = i + 1;
        }
        MultiTrackParameters {
            voices,
            scene_parameters: SceneHandle::new(SCENE_LOOPERS, NUM_SCENES),
            active_looper: 0,
        }
    }

    /// The number of tracks.
    pub fn num_voices(&self) -> (r: usize)
        ensures
            r == self.spec_num_voices(),
    {
        self.voices.len()
    }

    /// The parameters of a track, if it exists.
    pub fn get(&self, looper_id: LooperId) -> (r: Option<&VoiceParameters>)
        ensures
            r matches Some(v) ==> looper_id.0 < self.spec_num_voices() && *v == self.voice(
                looper_id.0 as int,
            ),
            r is None ==> looper_id.0 >= self.spec_num_voices(),
    {
        if looper_id.0 < self.voices.len() {
            Some(&self.voices[looper_id.0])
        } else {
            None
        }
    }

    /// The scenes.
    pub fn scene_handle(&self) -> (r: &SceneHandle)
        ensures
            *r == self.scenes(),
    {
        &self.scene_parameters
    }

    /// The value stored for a parameter of a track, if the track exists.
    pub fn get_parameter(&self, looper_id: LooperId, id: &ParameterId) -> (r: Option<ParameterValue>)
        requires
            self.wf(),
            is_track_parameter(*id),
        ensures
            r == (if looper_id.0 < self.spec_num_voices() {
                Some(self.value(looper_id.0 as int, *id))
            } else {
                None
            }),
    {
        if looper_id.0 < self.voices.len() {
            Some(*self.voices[looper_id.0].user_parameters.get(*id))
        } else {
            None
        }
    }

    /// Stores a parameter of a track (converted to the parameter's kind); a
    /// track that does not exist is ignored.
    pub fn set_parameter(&mut self, looper_id: LooperId, id: ParameterId, value: ParameterValue)
        requires
            old(self).wf(),
            is_track_parameter(id),
        ensures
            final(self).wf(),
            final(self).same_but(*old(self), looper_id.0 as int, id),
            looper_id.0 < old(self).spec_num_voices() ==> {
                &&& final(self).value(looper_id.0 as int, id) == value.converted_to_kind_of(
                    old(self).value(looper_id.0 as int, id),
                )
                &&& final(self).voice(looper_id.0 as int).table().is_set(id)
            },
            looper_id.0 >= old(self).spec_num_voices() ==> *final(self) == *old(self),
    {
        if looper_id.0 < self.voices.len() {
            let ghost before = self.voices@;
            self.voices[looper_id.0].user_parameters.set(id, value);
            proof {
                assert forall|i: int| #![trigger self.voices@[i]] 0 <= i < self.voices@.len() implies self.voices@[i].wf() by {
                    if i != looper_id.0 {
                        assert(self.voices@[i] == before[i]);
                    }
                }
                assert forall|i: int, other_id: ParameterId|
                    #![trigger self.value(i, other_id)]
                    0 <= i < self.spec_num_voices() && is_track_parameter(other_id) && (i
                        != looper_id.0 || other_id != id) implies self.value(i, other_id) == old(self).value(i, other_id) && self.voice(i).table().is_set(other_id) == old(self).voice(i).table().is_set(other_id) by {
                    if i != looper_id.0 {
                        assert(self.voices@[i] == before[i]);
                    }
                }
                assert forall|i: int| 0 <= i < self.spec_num_voices() implies #[trigger] self.voice(
                    i,
                ).lfo(0) == old(self).voice(i).lfo(0) && self.voice(i).lfo(1) == old(self).voice(
                    i,
                ).lfo(1) by {
                    if i != looper_id.0 {
                        assert(self.voices@[i] == before[i]);
                    }
                }
            }
        }
    }

    /// Stores a float source parameter (by its bit pattern).
    pub fn set_source_parameter(&mut self, looper_id: LooperId, parameter: SourceParameter, value: u32)
        requires
            old(self).wf(),
        ensures
            final(self).wf(),
            final(self).same_but(*old(self), looper_id.0 as int, ParameterId::ParameterIdSource(parameter)),
            looper_id.0 < old(self).spec_num_voices() ==> final(self).value(
                looper_id.0 as int,
                ParameterId::ParameterIdSource(parameter),
            ) == ParameterValue::Float(value).converted_to_kind_of(
                old(self).value(looper_id.0 as int, ParameterId::ParameterIdSource(parameter)),
            ),
    {
        self.set_parameter(looper_id, ParameterId::ParameterIdSource(parameter), ParameterValue::Float(value));
    }

    /// Stores a float envelope parameter (by its bit pattern).
    pub fn set_envelope_parameter(
        &mut self,
        looper_id: LooperId,
        parameter: EnvelopeParameter,
        value: u32,
    )
        requires
            old(self).wf(),
        ensures
            final(self).wf(),
            final(self).same_but(*old(self), looper_id.0 as int, ParameterId::ParameterIdEnvelope(parameter)),
            looper_id.0 < old(self).spec_num_voices() ==> final(self).value(
                looper_id.0 as int,
                ParameterId::ParameterIdEnvelope(parameter),
            ) == ParameterValue::Float(value).converted_to_kind_of(
                old(self).value(looper_id.0 as int, ParameterId::ParameterIdEnvelope(parameter)),
            ),
    {
        self.set_parameter(
            looper_id,
            ParameterId::ParameterIdEnvelope(parameter),
            ParameterValue::Float(value),
        );
    }

    /// Stores the quantization mode of a track and returns the mode its
    /// looper is to use, or `None` if the track does not exist.
    pub fn set_quantization_mode(&mut self, looper_id: LooperId, mode: CQuantizeMode) -> (r: Option<QuantizeMode>)
        requires
            old(self).wf(),
        ensures
            final(self).wf(),
            final(self).same_but(
                *old(self),
                looper_id.0 as int,
                ParameterId::ParameterIdQuantization(QuantizationParameter::QuantizationParameterQuantizeMode),
            ),
            looper_id.0 < old(self).spec_num_voices() ==> {
                &&& r == Some(quantize_mode_of(mode))
                &&& final(self).value(
                    looper_id.0 as int,
                    ParameterId::ParameterIdQuantization(QuantizationParameter::QuantizationParameterQuantizeMode),
                ) == ParameterValue::Enum(mode.spec_to_usize()).converted_to_kind_of(
                    old(self).value(
                        looper_id.0 as int,
                        ParameterId::ParameterIdQuantization(QuantizationParameter::QuantizationParameterQuantizeMode),
                    ),
                )
            },
            looper_id.0 >= old(self).spec_num_voices() ==> r is None,
    {
        if looper_id.0 < self.voices.len() {
            let quantize_mode = QuantizeMode::from(mode);
            self.set_parameter(
                looper_id,
                ParameterId::ParameterIdQuantization(QuantizationParameter::QuantizationParameterQuantizeMode),
                ParameterValue::Enum(mode.to_usize()),
            );
            Some(quantize_mode)
        } else {
            None
        }
    }

    /// Stores the tempo control of a track.
    pub fn set_tempo_control(&mut self, looper_id: LooperId, mode: TempoControl)
        requires
            old(self).wf(),
        ensures
            final(self).wf(),
            final(self).same_but(
                *old(self),
                looper_id.0 as int,
                ParameterId::ParameterIdQuantization(QuantizationParameter::QuantizationParameterTempoControl),
            ),
            looper_id.0 < old(self).spec_num_voices() ==> final(self).value(
                looper_id.0 as int,
                ParameterId::ParameterIdQuantization(QuantizationParameter::QuantizationParameterTempoControl),
            ) == ParameterValue::Enum(mode.spec_to_usize()).converted_to_kind_of(
                old(self).value(
                    looper_id.0 as int,
                    ParameterId::ParameterIdQuantization(QuantizationParameter::QuantizationParameterTempoControl),
                ),
            ),
    {
        self.set_parameter(
            looper_id,
            ParameterId::ParameterIdQuantization(QuantizationParameter::QuantizationParameterTempoControl),
            ParameterValue::Enum(mode.to_usize()),
        );
    }

    /// Whether a track that just stopped its first recording sets the
    /// global tempo: all other tracks were empty and the track's tempo
    /// control says so.
    pub fn should_set_global_tempo(&self, looper_id: LooperId, was_empty: bool) -> (r: bool)
        requires
            self.wf(),
            looper_id.0 < self.spec_num_voices(),
        ensures
            r == (was_empty && self.value(
                looper_id.0 as int,
                ParameterId::ParameterIdQuantization(QuantizationParameter::QuantizationParameterTempoControl),
            ).spec_as_enum() == TempoControl::TempoControlSetGlobalTempo.spec_to_usize()),
    {
        let tempo_control = self.voices[looper_id.0].user_parameters.get(
            ParameterId::ParameterIdQuantization(QuantizationParameter::QuantizationParameterTempoControl),
        );
        was_empty && tempo_control.as_enum() == TempoControl::TempoControlSetGlobalTempo.to_usize()
    }

    /// Stores an LFO parameter of a track (by its bit pattern) and sets the
    /// frequency or amount of that LFO.
    pub fn set_lfo_parameter(&mut self, looper_id: LooperId, lfo: usize, parameter_id: LFOParameter, value: u32)
        requires
            old(self).wf(),
            looper_id.0 < old(self).spec_num_voices() ==> lfo < 2,
        ensures
            final(self).wf(),
            final(self).spec_num_voices() == old(self).spec_num_voices(),
            final(self).scenes() == old(self).scenes(),
            looper_id.0 < old(self).spec_num_voices() ==> {
                let v = final(self).voice(looper_id.0 as int).lfo(lfo);
                &&& final(self).value(looper_id.0 as int, ParameterId::ParameterIdLFO(lfo, parameter_id))
                    == ParameterValue::Float(value).converted_to_kind_of(
                    old(self).value(looper_id.0 as int, ParameterId::ParameterIdLFO(lfo, parameter_id)),
                )
                &&& match parameter_id {
                    LFOParameter::Frequency => v.spec_frequency() == value && v.spec_amount() == old(
                        self,
                    ).voice(looper_id.0 as int).lfo(lfo).spec_amount(),
                    LFOParameter::Amount => v.spec_amount() == value && v.spec_frequency() == old(
                        self,
                    ).voice(looper_id.0 as int).lfo(lfo).spec_frequency(),
                }
                &&& forall|id: ParameterId| #[trigger] v.spec_modulation(id) == old(self).voice(
                    looper_id.0 as int,
                ).lfo(lfo).spec_modulation(id)
                &&& final(self).voice(looper_id.0 as int).lfo(if lfo == 0 {
                    1usize
                } else {
                    0usize
                }) == old(self).voice(looper_id.0 as int).lfo(if lfo == 0 {
                    1usize
                } else {
                    0usize
                })
            },
            final(self).spec_active_looper() == old(self).spec_active_looper(),
            forall|j: int|
                0 <= j < old(self).spec_num_voices() && j != looper_id.0 ==> #[trigger] final(self).voice(j).lfo(0)
                    == old(self).voice(j).lfo(0) && final(self).voice(j).lfo(1) == old(self).voice(j).lfo(1),
            forall|j: int, id: ParameterId|
                #![trigger final(self).value(j, id)]
                0 <= j < old(self).spec_num_voices() && is_track_parameter(id) && (j != looper_id.0
                    || id != ParameterId::ParameterIdLFO(lfo, parameter_id)) ==> final(self).value(j, id)
                    == old(self).value(j, id) && final(self).voice(j).table().is_set(id) == old(
                    self,
                ).voice(j).table().is_set(id),
            looper_id.0 >= old(self).spec_num_voices() ==> *final(self) == *old(self),
    {
        if looper_id.0 < self.voices.len() {
            let ghost before = self.voices@;
            let ghost old_self = *self;
            match parameter_id {
                LFOParameter::Frequency => {
                    if lfo == 0 {
                        self.voices[looper_id.0].lfo1.set_frequency(value);
                    } else {
                        self.voices[looper_id.0].lfo2.set_frequency(value);
                    }
                },
                LFOParameter::Amount => {
                    if lfo == 0 {
                        self.voices[looper_id.0].lfo1.set_amount(value);
                    } else {
                        self.voices[looper_id.0].lfo2.set_amount(value);
                    }
                },
            }
            proof {
                assert forall|i: int| #![trigger self.voices@[i]] 0 <= i < self.voices@.len() implies self.voices@[i].wf() by {
                    if i != looper_id.0 {
                        assert(self.voices@[i] == before[i]);
                    }
                }
            }
            let ghost mid = self.voices@[looper_id.0 as int];
            let ghost mid_self = *self;
            self.set_parameter(
                looper_id,
                ParameterId::ParameterIdLFO(lfo, parameter_id),
                ParameterValue::Float(value),
            );
            proof {
                assert(self.voice(looper_id.0 as int).lfo(0) == mid.lfo(0));
                assert(self.voice(looper_id.0 as int).lfo(1) == mid.lfo(1));
                assert(mid.table() == old_self.voice(looper_id.0 as int).table());
                assert forall|j: int|
                    0 <= j < old_self.spec_num_voices() && j != looper_id.0 implies #[trigger] self.voice(j).lfo(0)
                    == old_self.voice(j).lfo(0) && self.voice(j).lfo(1) == old_self.voice(j).lfo(1) by {
                    assert(self.voice(j).lfo(0) == mid_self.voice(j).lfo(0));
                    assert(self.voice(j).lfo(1) == mid_self.voice(j).lfo(1));
                    assert(mid_self.voices@[j] == before[j]);
                }
            }
        }
    }

    /// Stores a boolean parameter of a track.
    pub fn set_boolean_parameter(&mut self, looper_id: LooperId, parameter_id: ParameterId, value: bool)
        requires
            old(self).wf(),
            is_track_parameter(parameter_id),
        ensures
            final(self).wf(),
            final(self).same_but(*old(self), looper_id.0 as int, parameter_id),
            looper_id.0 < old(self).spec_num_voices() ==> final(self).value(looper_id.0 as int, parameter_id)
                == ParameterValue::Bool(value).converted_to_kind_of(
                old(self).value(looper_id.0 as int, parameter_id),
            ),
    {
        self.set_parameter(looper_id, parameter_id, ParameterValue::Bool(value));
    }

    /// Stores an integer parameter of a track.
    pub fn set_int_parameter(&mut self, looper_id: LooperId, parameter_id: ParameterId, value: i32)
        requires
            old(self).wf(),
            is_track_parameter(parameter_id),
        ensures
            final(self).wf(),
            final(self).same_but(*old(self), looper_id.0 as int, parameter_id),
            looper_id.0 < old(self).spec_num_voices() ==> final(self).value(looper_id.0 as int, parameter_id)
                == ParameterValue::Int(value).converted_to_kind_of(
                old(self).value(looper_id.0 as int, parameter_id),
            ),
    {
        self.set_parameter(looper_id, parameter_id, ParameterValue::Int(value));
    }

    /// Locks a parameter of a track in a scene to a float value (by its bit
    /// pattern).
    pub fn add_scene_parameter_lock(
        &mut self,
        scene_id: SceneId,
        looper_id: LooperId,
        parameter_id: ParameterId,
        value: u32,
    )
        requires
            old(self).wf(),
            scene_id < NUM_SCENES,
            looper_id.0 < SCENE_LOOPERS,
            is_track_parameter(parameter_id),
        ensures
            final(self).wf(),
            final(self).scenes().locked_value(scene_id as int, looper_id.0 as int, parameter_id) == Some(
                ParameterValue::Float(value).converted_to_kind_of(
                    old(self).scenes().table(scene_id as int, looper_id.0 as int).value(parameter_id),
                ),
            ),
            forall|s: int, l: int, other: ParameterId|
                0 <= s < NUM_SCENES && 0 <= l < SCENE_LOOPERS && is_track_parameter(other) && (s
                    != scene_id || l != looper_id.0 || other != parameter_id) ==> #[trigger] final(self).scenes().locked_value(s, l, other) == old(self).scenes().locked_value(s, l, other),
            final(self).voices_view() == old(self).voices_view(),
            final(self).spec_active_looper() == old(self).spec_active_looper(),
    {
        self.scene_parameters.set(scene_id, looper_id, parameter_id, ParameterValue::Float(value));
    }

    /// The values a parameter of a track crossfades between: its lock in the
    /// first and in the second scene, each falling back to the track's own
    /// value.
    pub fn scene_endpoints(&self, looper_id: LooperId, parameter_id: ParameterId) -> (r: (ParameterValue, ParameterValue))
        requires
            self.wf(),
            looper_id.0 < self.spec_num_voices(),
            looper_id.0 < SCENE_LOOPERS,
            is_track_parameter(parameter_id),
        ensures
            r.0 == match self.scenes().locked_value(0, looper_id.0 as int, parameter_id) {
                Some(v) => v,
                None => self.value(looper_id.0 as int, parameter_id),
            },
            r.1 == match self.scenes().locked_value(1, looper_id.0 as int, parameter_id) {
                Some(v) => v,
                None => self.value(looper_id.0 as int, parameter_id),
            },
    {
        let own = *self.voices[looper_id.0].user_parameters.get(parameter_id);
        let left = match self.scene_parameters.get_left(looper_id, parameter_id) {
            Some(v) => *v,
            None => own,
        };
        let right = match self.scene_parameters.get_right(looper_id, parameter_id) {
            Some(v) => *v,
            None => own,
        };
        (left, right)
    }

    /// Maps LFO `lfo_id` (the first for `0`, the second otherwise) of a track
    /// onto a parameter with the given amount, or unmaps it on `None`.
    pub fn add_lfo_mapping(
        &mut self,
        looper_id: LooperId,
        lfo_id: usize,
        parameter_id: ParameterId,
        amount: Option<u32>,
    )
        requires
            old(self).wf(),
            is_track_parameter(parameter_id),
        ensures
            final(self).wf(),
            final(self).spec_num_voices() == old(self).spec_num_voices(),
            final(self).scenes() == old(self).scenes(),
            looper_id.0 < old(self).spec_num_voices() ==> final(self).voice(looper_id.0 as int).lfo(
                lfo_id,
            ).spec_modulation(parameter_id) == match amount {
                Some(a) => a,
                None => crate::parameters::F32_BITS_ZERO,
            },
            final(self).spec_active_looper() == old(self).spec_active_looper(),
            forall|j: int|
                0 <= j < old(self).spec_num_voices() && j != looper_id.0 ==> #[trigger] final(self).voice(j)
                    == old(self).voice(j),
            looper_id.0 < old(self).spec_num_voices() ==> {
                let a = final(self).voice(looper_id.0 as int);
                let b = old(self).voice(looper_id.0 as int);
                &&& a.table() == b.table()
                &&& a.lfo(lfo_id).spec_amount() == b.lfo(lfo_id).spec_amount()
                &&& a.lfo(lfo_id).spec_frequency() == b.lfo(lfo_id).spec_frequency()
                &&& forall|other: ParameterId|
                    is_track_parameter(other) && other != parameter_id ==> #[trigger] a.lfo(lfo_id).spec_modulation(other)
                        == b.lfo(lfo_id).spec_modulation(other)
                &&& a.lfo(if lfo_id == 0 {
                    1usize
                } else {
                    0usize
                }) == b.lfo(if lfo_id == 0 {
                    1usize
                } else {
                    0usize
                })
            },
            looper_id.0 >= old(self).spec_num_voices() ==> *final(self) == *old(self),
    {
        if looper_id.0 < self.voices.len() {
            let ghost before = self.voices@;
            if lfo_id == 0 {
                self.voices[looper_id.0].lfo1.set_parameter_map(parameter_id, amount);
            } else {
                self.voices[looper_id.0].lfo2.set_parameter_map(parameter_id, amount);
            }
            proof {
                assert forall|i: int| #![trigger self.voices@[i]] 0 <= i < self.voices@.len() implies self.voices@[i].wf() by {
                    if i != looper_id.0 {
                        assert(self.voices@[i] == before[i]);
                    }
                }
            }
        }
    }

    /// Unmaps LFO `lfo_id` of a track from a parameter.
    pub fn remove_lfo_mapping(&mut self, looper_id: LooperId, lfo_id: usize, parameter_id: ParameterId)
        requires
            old(self).wf(),
            is_track_parameter(parameter_id),
        ensures
            final(self).wf(),
            final(self).spec_num_voices() == old(self).spec_num_voices(),
            final(self).scenes() == old(self).scenes(),
            looper_id.0 < old(self).spec_num_voices() ==> final(self).voice(looper_id.0 as int).lfo(
                lfo_id,
            ).spec_modulation(parameter_id) == crate::parameters::F32_BITS_ZERO,
            final(self).spec_active_looper() == old(self).spec_active_looper(),
            forall|j: int|
                0 <= j < old(self).spec_num_voices() && j != looper_id.0 ==> #[trigger] final(self).voice(j)
                    == old(self).voice(j),
            looper_id.0 < old(self).spec_num_voices() ==> {
                let a = final(self).voice(looper_id.0 as int);
                let b = old(self).voice(looper_id.0 as int);
                &&& a.table() == b.table()
                &&& a.lfo(lfo_id).spec_amount() == b.lfo(lfo_id).spec_amount()
                &&& a.lfo(lfo_id).spec_frequency() == b.lfo(lfo_id).spec_frequency()
                &&& forall|other: ParameterId|
                    is_track_parameter(other) && other != parameter_id ==> #[trigger] a.lfo(lfo_id).spec_modulation(other)
                        == b.lfo(lfo_id).spec_modulation(other)
                &&& a.lfo(if lfo_id == 0 {
                    1usize
                } else {
                    0usize
                }) == b.lfo(if lfo_id == 0 {
                    1usize
                } else {
                    0usize
                })
            },
            looper_id.0 >= old(self).spec_num_voices() ==> *final(self) == *old(self),
    {
        self.add_lfo_mapping(looper_id, lfo_id, parameter_id, None);
    }

    /// Makes `looper_id` the track the MIDI button acts on.
    pub fn set_active_looper(&mut self, looper_id: LooperId)
        ensures
            final(self).spec_active_looper() == looper_id.0,
            final(self).voices_view() == old(self).voices_view(),
            final(self).scenes() == old(self).scenes(),
            old(self).wf() ==> final(self).wf(),
    {
        self.active_looper = looper_id.0;
    }

    /// The track the MIDI button acts on.
    pub fn active_looper(&self) -> (r: usize)
        ensures
            r == self.spec_active_looper(),
    {
        self.active_looper
    }

    /// Moves the scene slider (by the bit pattern of its position).
    pub fn set_scene_value(&mut self, value: u32)
        requires
            old(self).wf(),
        ensures
            final(self).wf(),
            final(self).scenes().slider() == value,
            forall|s: int, l: int| #[trigger] final(self).scenes().table(s, l) == old(self).scenes().table(s, l),
            final(self).voices_view() == old(self).voices_view(),
            final(self).spec_active_looper() == old(self).spec_active_looper(),
    {
        self.scene_parameters.set_slider(value);
    }

    /// A track, for saving.
    pub fn save_voice(&self, looper_id: LooperId) -> (r: LooperVoicePersist)
        requires
            self.wf(),
            looper_id.0 < self.spec_num_voices(),
        ensures
            r.id == looper_id.0,
            r.parameter_values@ == saved_values(self.voice(looper_id.0 as int).table()),
            r.lfo1@ == self.voice(looper_id.0 as int).lfo(0).saved_modulations(),
            r.lfo2@ == self.voice(looper_id.0 as int).lfo(1).saved_modulations(),
    {
        let voice = &self.voices[looper_id.0];
        LooperVoicePersist {
            id: looper_id.0,
            parameter_values: voice.user_parameters.saved_values(),
            lfo1: voice.lfo1.modulations(),
            lfo2: voice.lfo2.modulations(),
        }
    }

    /// `after` is `before` with a saved track restored onto track `i`: the
    /// saved parameter values are stored and the LFOs mapped as saved; a
    /// part of the saved track of the wrong size is left out.
    pub open spec fn voice_restored_from(after: Self, before: Self, i: int, saved: LooperVoicePersist) -> bool {
        let a = after.voice(i);
        let b = before.voice(i);
        &&& if saved.parameter_values@.len() == NUM_PARAMETERS {
            ParametersMap::restored_from(a.table(), b.table(), saved.parameter_values@)
        } else {
            a.table() == b.table()
        }
        &&& if saved.lfo1@.len() == NUM_PARAMETERS {
            &&& a.lfo(0).saved_modulations() == saved.lfo1@
            &&& a.lfo(0).spec_amount() == b.lfo(0).spec_amount()
            &&& a.lfo(0).spec_frequency() == b.lfo(0).spec_frequency()
        } else {
            a.lfo(0) == b.lfo(0)
        }
        &&& if saved.lfo2@.len() == NUM_PARAMETERS {
            &&& a.lfo(1).saved_modulations() == saved.lfo2@
            &&& a.lfo(1).spec_amount() == b.lfo(1).spec_amount()
            &&& a.lfo(1).spec_frequency() == b.lfo(1).spec_frequency()
        } else {
            a.lfo(1) == b.lfo(1)
        }
    }

    /// Restores a saved track onto a track; a track that does not exist is
    /// ignored. Every other track, the scenes and the active track are
    /// unchanged.
    pub fn restore_voice(&mut self, looper_id: LooperId, saved: &LooperVoicePersist)
        requires
            old(self).wf(),
        ensures
            final(self).wf(),
            final(self).spec_num_voices() == old(self).spec_num_voices(),
            final(self).scenes() == old(self).scenes(),
            final(self).spec_active_looper() == old(self).spec_active_looper(),
            forall|j: int|
                0 <= j < old(self).spec_num_voices() && j != looper_id.0 ==> #[trigger] final(self).voice(j)
                    == old(self).voice(j),
            looper_id.0 < old(self).spec_num_voices() ==> Self::voice_restored_from(
                *final(self),
                *old(self),
                looper_id.0 as int,
                *saved,
            ),
    {
        if looper_id.0 < self.voices.len() {
            let ghost before = self.voices@;
            let i = looper_id.0;
            if saved.parameter_values.len() == NUM_PARAMETERS {
                self.voices[i].user_parameters.restore_values(&saved.parameter_values);
            }
            if saved.lfo1.len() == NUM_PARAMETERS {
                self.voices[i].lfo1.restore_modulations(&saved.lfo1);
            }
            if saved.lfo2.len() == NUM_PARAMETERS {
                self.voices[i].lfo2.restore_modulations(&saved.lfo2);
            }
            proof {
                assert forall|j: int| #![trigger self.voices@[j]] 0 <= j < self.voices@.len() implies self.voices@[j].wf() by {
                    if j != i {
                        assert(self.voices@[j] == before[j]);
                    }
                }
                assert forall|j: int|
                    0 <= j < old(self).spec_num_voices() && j != looper_id.0 implies #[trigger] self.voice(j)
                    == old(self).voice(j) by {
                    assert(self.voices@[j] == before[j]);
                }
            }
        }
    }

    /// The scene locks, for saving (see `SceneHandle::saved_locks`).
    pub fn saved_scene_locks(&self) -> (r: Vec<Vec<Vec<Option<ParameterValue>>>>)
        requires
            self.wf(),
        ensures
            r@.len() == NUM_SCENES,
            forall|s: int| 0 <= s < NUM_SCENES ==> (#[trigger] r@[s])@.len() == SCENE_LOOPERS,
            forall|s: int, l: int|
                0 <= s < NUM_SCENES && 0 <= l < SCENE_LOOPERS ==> (#[trigger] r@[s]@[l])@ == saved_values(
                    self.scenes().table(s, l),
                ),
    {
        self.scene_parameters.saved_locks()
    }

    /// Restores saved scene locks and the slider position; the tracks and
    /// the active track are unchanged.
    pub fn restore_scenes(&mut self, slider: u32, saved: &Vec<Vec<Vec<Option<ParameterValue>>>>)
        requires
            old(self).wf(),
        ensures
            final(self).wf(),
            final(self).voices_view() == old(self).voices_view(),
            final(self).spec_num_voices() == old(self).spec_num_voices(),
            forall|i: int| #[trigger] final(self).voice(i) == old(self).voice(i),
            final(self).spec_active_looper() == old(self).spec_active_looper(),
            final(self).scenes().slider() == slider,
            forall|s: int, l: int|
                0 <= s < NUM_SCENES && 0 <= l < SCENE_LOOPERS ==> if SceneHandle::restorable(
                    saved@,
                    s,
                    l,
                ) {
                    ParametersMap::restored_from(
                        #[trigger] final(self).scenes().table(s, l),
                        old(self).scenes().table(s, l),
                        saved@[s]@[l]@,
                    )
                } else {
                    final(self).scenes().table(s, l) == old(self).scenes().table(s, l)
                },
    {
        self.scene_parameters.set_slider(slider);
        self.scene_parameters.restore_locks(saved);
    }
}

} // verus!
