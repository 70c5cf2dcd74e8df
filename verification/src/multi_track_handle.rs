use vstd::prelude::*;

use crate::looper_handle::{
    is_playing_back_state, is_recording_state, LooperHandle, LooperState,
};
use crate::multi_track::{
    spec_record_play_action, MultiTrackParameters, RecordPlayAction, NUM_SCENES, SCENE_LOOPERS,
};
use crate::parameters::{
    default_value, is_track_parameter, LooperId, ParameterId, QuantizationParameter, TempoControl,
    F32_BITS_ONE, F32_BITS_ZERO,
};

verus! {

/// What pressing record on a track did: whether it stopped a recording,
/// and whether the new loop is to set the global tempo (it is the only
/// loop and its track's tempo control says so).
#[derive(Debug, Clone, Copy, PartialEq, Eq, Structural)]
pub struct ToggleRecordingOutcome {
    pub stopped_recording: bool,
    pub sets_global_tempo: bool,
}

/// What the record/play button of the active track did.
#[derive(Debug, Clone, Copy, PartialEq, Eq, Structural)]
pub enum RecordPlayOutcome {
    /// The record button was pressed on the track: it started or stopped a
    /// recording.
    Recording(ToggleRecordingOutcome),
    /// The track was set playing; the transport is to play.
    Playback,
}

/// The tracks of a multi-track looper: a looper and a parameter set for
/// each.
pub struct MultiTrackLooperHandle<T> {
    pub voices: Vec<LooperHandle<T>>,
    pub parameters: MultiTrackParameters,
}

/// The parameter that holds a track's tempo control.
pub open spec fn tempo_control_id() -> ParameterId {
    ParameterId::ParameterIdQuantization(QuantizationParameter::QuantizationParameterTempoControl)
}

impl<T: Copy> MultiTrackLooperHandle<T> {
    /// One looper for each parameter set, every looper well formed.
    pub open spec fn wf(self) -> bool {
        &&& self.parameters.wf()
        &&& self.voices@.len() == self.parameters.spec_num_voices()
        &&& forall|i: int| 0 <= i < self.voices@.len() ==> (#[trigger] self.voices@[i]).wf()
    }

    /// The state of the looper of track `i`.
    pub open spec fn state_of(self, i: int) -> LooperState {
        self.voices@[i].spec_state()
    }

    /// Every track but `looper_id` is empty.
    pub open spec fn others_empty(self, looper_id: int) -> bool {
        forall|i: int|
            0 <= i < self.voices@.len() && i != looper_id ==> #[trigger] self.state_of(i) == LooperState::Empty
    }

    /// Track `looper_id`'s tempo control says that its first loop sets the
    /// global tempo.
    pub open spec fn tempo_control_sets_global(self, looper_id: int) -> bool {
        self.parameters.value(looper_id, tempo_control_id()).spec_as_enum()
            == TempoControl::TempoControlSetGlobalTempo.spec_to_usize()
    }

    /// Only the looper of track `looper_id` may differ between `self` and
    /// `other`.
    pub open spec fn same_but_looper(self, other: Self, looper_id: int) -> bool {
        &&& self.parameters == other.parameters
        &&& self.voices@.len() == other.voices@.len()
        &&& forall|i: int|
            0 <= i < self.voices@.len() && i != looper_id ==> #[trigger] self.voices@[i] == other.voices@[i]
    }

    /// `num_voices` empty tracks with default parameters, the first one
    /// active.
    pub fn new(num_voices: usize) -> (r: Self)
        ensures
            r.wf(),
            r.voices@.len() == num_voices,
            r.parameters.spec_active_looper() == 0,
            forall|i: int| 0 <= i < num_voices ==> #[trigger] r.state_of(i) == LooperState::Empty,
            forall|i: int, id: ParameterId|
                0 <= i < num_voices && is_track_parameter(id) ==> #[trigger] r.parameters.value(i, id)
                    == default_value(id) && !r.parameters.voice(i).table().is_set(id),
            forall|i: int, k: usize, id: ParameterId|
                0 <= i < num_voices && is_track_parameter(id)
                    ==> #[trigger] r.parameters.voice(i).lfo(k).spec_modulation(id) == F32_BITS_ZERO,
            forall|i: int, k: usize|
                0 <= i < num_voices ==> #[trigger] r.parameters.voice(i).lfo(k).spec_amount()
                    == F32_BITS_ONE && r.parameters.voice(i).lfo(k).spec_frequency() == F32_BITS_ONE,
            r.parameters.scenes().slider() == 0,
            forall|s: int, l: int, id: ParameterId|
                0 <= s < NUM_SCENES && 0 <= l < SCENE_LOOPERS && is_track_parameter(id)
                    ==> #[trigger] r.parameters.scenes().locked_value(s, l, id) is None,
    {
        let parameters = MultiTrackParameters::new(num_voices);
        let mut voices: Vec<LooperHandle<T>> = Vec::new();
        let mut i: usize = 0;
        while i < num_voices
            invariant
                i <= num_voices,
                voices@.len() == i,
                forall|j: int| 0 <= j < i ==> (#[trigger] voices@[j]).wf() && voices@[j].spec_state()
                    == LooperState::Empty,
            decreases num_voices - i,
        {
            voices.push(LooperHandle::new());
            i = i + 1;
        }
        proof {
            assert forall|i: int, k: usize| 0 <= i < num_voices implies #[trigger] parameters.voice(
                i,
            ).lfo(k).spec_amount() == F32_BITS_ONE && parameters.voice(i).lfo(k).spec_frequency()
                == F32_BITS_ONE by {
                assert(parameters.voice(i).lfo(k).spec_amount() == F32_BITS_ONE);
            }
        }
        MultiTrackLooperHandle { voices, parameters }
    }

    /// Allocates the buffers of every track's looper: `num_channels`
    /// channels of `max_loop_length_samples` copies of `silence`. The states,
    /// loops and parameters are kept.
    pub fn prepare(&mut self, num_channels: usize, max_loop_length_samples: usize, silence: T)
        requires
            old(self).wf(),
            max_loop_length_samples < usize::MAX,
        ensures
            final(self).wf(),
            final(self).parameters == old(self).parameters,
            final(self).voices@.len() == old(self).voices@.len(),
            forall|i: int|
                0 <= i < old(self).voices@.len() ==> LooperHandle::is_prepared_from(
                    #[trigger] final(self).voices@[i],
                    old(self).voices@[i],
                    num_channels,
                    max_loop_length_samples,
                    silence,
                ),
    {
        let mut i: usize = 0;
        while i < self.voices.len()
            invariant
                self.wf(),
                max_loop_length_samples < usize::MAX,
                i <= self.voices@.len(),
                self.parameters == old(self).parameters,
                self.voices@.len() == old(self).voices@.len(),
                forall|j: int|
                    0 <= j < self.voices@.len() ==> if j < i {
                        LooperHandle::is_prepared_from(
                            #[trigger] self.voices@[j],
                            old(self).voices@[j],
                            num_channels,
                            max_loop_length_samples,
                            silence,
                        )
                    } else {
                        self.voices@[j] == old(self).voices@[j]
                    },
            decreases self.voices@.len() - i,
        {
            let ghost before = self.voices@;
            self.voices[i].prepare(num_channels, max_loop_length_samples, silence);
            proof {
                assert forall|j: int| 0 <= j < self.voices@.len() && j != i implies self.voices@[j] == before[j] by {}
            }
            i = i + 1;
        }
    }

    /// The number of tracks.
    pub fn num_voices(&self) -> (r: usize)
        ensures
            r == self.voices@.len(),
    {
        self.voices.len()
    }

    /// Whether every track but `looper_id` is empty.
    pub fn all_loopers_empty_other_than(&self, looper_id: LooperId) -> (r: bool)
        ensures
            r == self.others_empty(looper_id.0 as int),
    {
        let mut i: usize = 0;
        while i < self.voices.len()
            invariant
                i <= self.voices@.len(),
                forall|j: int|
                    0 <= j < i && j != looper_id.0 ==> #[trigger] self.state_of(j) == LooperState::Empty,
            decreases self.voices@.len() - i,
        {
            if i != looper_id.0 && self.voices[i].state() != LooperState::Empty {
                assert(self.state_of(i as int) != LooperState::Empty);
                return false;
            }
            i = i + 1;
        }
        true
    }

    /// The state of a track's looper.
    pub fn get_looper_state(&self, looper_id: LooperId) -> (r: LooperState)
        requires
            looper_id.0 < self.voices@.len(),
        ensures
            r == self.state_of(looper_id.0 as int),
    {
        self.voices[looper_id.0].state()
    }

    /// The loop length of a track, or `0` if the track does not exist.
    pub fn get_num_samples(&self, looper_id: LooperId) -> (r: usize)
        ensures
            r == (if looper_id.0 < self.voices@.len() {
                self.voices@[looper_id.0 as int].spec_length() as int
            } else {
                0
            }),
    {
        if looper_id.0 < self.voices.len() {
            self.voices[looper_id.0].num_samples()
        } else {
            0
        }
    }

    /// Presses record on a track (a track that does not exist is ignored).
    /// When this stops the recording of the only loop, the outcome says
    /// whether the track's tempo control wants the global tempo set from it.
    pub fn toggle_recording(&mut self, looper_id: LooperId, quantized_offset: Option<i32>) -> (r:
        ToggleRecordingOutcome)
        requires
            old(self).wf(),
            looper_id.0 < old(self).voices@.len() ==> old(self).voices@[looper_id.0 as int].can_toggle_recording(
                quantized_offset,
            ),
        ensures
            final(self).wf(),
            final(self).same_but_looper(*old(self), looper_id.0 as int),
            looper_id.0 < old(self).voices@.len() ==> LooperHandle::is_toggled_from(
                final(self).voices@[looper_id.0 as int],
                old(self).voices@[looper_id.0 as int],
                quantized_offset,
            ),
            looper_id.0 >= old(self).voices@.len() ==> final(self).voices@ == old(self).voices@,
            r.stopped_recording == (looper_id.0 < old(self).voices@.len() && is_recording_state(
                old(self).state_of(looper_id.0 as int),
            )),
            r.sets_global_tempo == (r.stopped_recording && old(self).others_empty(looper_id.0 as int)
                && old(self).tempo_control_sets_global(looper_id.0 as int)),
    {
        if looper_id.0 >= self.voices.len() {
            return ToggleRecordingOutcome { stopped_recording: false, sets_global_tempo: false };
        }
        let was_empty = self.all_loopers_empty_other_than(looper_id);
        let stopped_recording = self.voices[looper_id.0].is_recording();
        self.voices[looper_id.0].toggle_recording(quantized_offset);
        let sets_global_tempo = stopped_recording && self.parameters.should_set_global_tempo(
            looper_id,
            was_empty,
        );
        ToggleRecordingOutcome { stopped_recording, sets_global_tempo }
    }

    /// Starts a recording (or overdub) on a track; a track that does not
    /// exist is ignored.
    pub fn start_recording(&mut self, looper_id: LooperId, quantized_offset: Option<i32>)
        requires
            old(self).wf(),
            looper_id.0 < old(self).voices@.len() && old(self).state_of(looper_id.0 as int)
                == LooperState::Empty ==> crate::looper_handle::offset_fits(
                old(self).voices@[looper_id.0 as int].spec_scratch().spec_cursor(),
                quantized_offset,
            ),
        ensures
            final(self).wf(),
            final(self).same_but_looper(*old(self), looper_id.0 as int),
            looper_id.0 < old(self).voices@.len() ==> LooperHandle::is_started_from(
                final(self).voices@[looper_id.0 as int],
                old(self).voices@[looper_id.0 as int],
                quantized_offset,
            ),
            looper_id.0 >= old(self).voices@.len() ==> final(self).voices@ == old(self).voices@,
    {
        if looper_id.0 < self.voices.len() {
            self.voices[looper_id.0].start_recording(quantized_offset);
        }
    }

    /// Presses play on a track (a track that does not exist is ignored) and
    /// returns whether the track now plays, in which case the transport is
    /// to play.
    pub fn toggle_playback(&mut self, looper_id: LooperId) -> (r: bool)
        requires
            old(self).wf(),
            looper_id.0 < old(self).voices@.len() && old(self).state_of(looper_id.0 as int)
                == LooperState::Recording ==> old(self).voices@[looper_id.0 as int].can_cut_loop(),
        ensures
            final(self).wf(),
            final(self).same_but_looper(*old(self), looper_id.0 as int),
            looper_id.0 < old(self).voices@.len() ==> LooperHandle::is_playback_toggled_from(
                final(self).voices@[looper_id.0 as int],
                old(self).voices@[looper_id.0 as int],
            ),
            looper_id.0 >= old(self).voices@.len() ==> final(self).voices@ == old(self).voices@,
            r == (looper_id.0 < old(self).voices@.len() && !is_playing_back_state(
                old(self).state_of(looper_id.0 as int),
            )),
    {
        if looper_id.0 < self.voices.len() {
            self.voices[looper_id.0].toggle_playback();
            self.voices[looper_id.0].state() == LooperState::Playing
        } else {
            false
        }
    }

    /// Empties a track (a track that does not exist is ignored) and returns
    /// whether every track is now empty, in which case the transport is to
    /// stop.
    pub fn clear(&mut self, looper_id: LooperId, silence: T) -> (r: bool)
        requires
            old(self).wf(),
        ensures
            final(self).wf(),
            final(self).same_but_looper(*old(self), looper_id.0 as int),
            looper_id.0 < old(self).voices@.len() ==> LooperHandle::is_cleared_from(
                final(self).voices@[looper_id.0 as int],
                old(self).voices@[looper_id.0 as int],
                silence,
            ),
            looper_id.0 >= old(self).voices@.len() ==> final(self).voices@ == old(self).voices@,
            r == (looper_id.0 < old(self).voices@.len() && old(self).others_empty(looper_id.0 as int)),
    {
        if looper_id.0 < self.voices.len() {
            let ghost before = *self;
            self.voices[looper_id.0].clear(silence);
            proof {
                assert forall|i: int|
                    0 <= i < self.voices@.len() && i != looper_id.0 implies #[trigger] self.state_of(i)
                    == before.state_of(i) by {
                    assert(self.voices@[i] == before.voices@[i]);
                }
                assert(self.voices@.len() == before.voices@.len());
                if before.others_empty(looper_id.0 as int) {
                    assert forall|i: int|
                        0 <= i < self.voices@.len() && i != looper_id.0 implies #[trigger] self.state_of(i)
                        == LooperState::Empty by {
                        assert(before.state_of(i) == LooperState::Empty);
                    }
                }
                if self.others_empty(looper_id.0 as int) {
                    assert forall|i: int|
                        0 <= i < before.voices@.len() && i != looper_id.0 implies #[trigger] before.state_of(i)
                        == LooperState::Empty by {
                        assert(self.state_of(i) == LooperState::Empty);
                    }
                }
            }
            self.all_loopers_empty_other_than(looper_id)
        } else {
            false
        }
    }

    /// Empties the active track; returns whether every track is now empty.
    pub fn clear_active_looper(&mut self, silence: T) -> (r: bool)
        requires
            old(self).wf(),
        ensures
            final(self).wf(),
            final(self).same_but_looper(*old(self), old(self).parameters.spec_active_looper() as int),
            old(self).parameters.spec_active_looper() < old(self).voices@.len()
                ==> LooperHandle::is_cleared_from(
                final(self).voices@[old(self).parameters.spec_active_looper() as int],
                old(self).voices@[old(self).parameters.spec_active_looper() as int],
                silence,
            ),
            r == (old(self).parameters.spec_active_looper() < old(self).voices@.len()
                && old(self).others_empty(old(self).parameters.spec_active_looper() as int)),
    {
        let looper_id = LooperId(self.parameters.active_looper());
        self.clear(looper_id, silence)
    }

    /// Sets a track playing (a track that does not exist is ignored).
    pub fn play(&mut self, looper_id: LooperId)
        requires
            old(self).wf(),
        ensures
            final(self).wf(),
            final(self).same_but_looper(*old(self), looper_id.0 as int),
            looper_id.0 < old(self).voices@.len() ==> {
                &&& final(self).state_of(looper_id.0 as int) == LooperState::Playing
                &&& final(self).voices@[looper_id.0 as int].same_but_state(
                    old(self).voices@[looper_id.0 as int],
                )
            },
            looper_id.0 >= old(self).voices@.len() ==> final(self).voices@ == old(self).voices@,
    {
        if looper_id.0 < self.voices.len() {
            self.voices[looper_id.0].play();
        }
    }

    /// The record/play button of the active track: if the track is empty,
    /// it starts recording; otherwise it starts playback, stopping a
    /// recording or overdub first.
    pub fn on_multi_mode_record_play_pressed(&mut self, quantized_offset: Option<i32>) -> (r:
        RecordPlayOutcome)
        requires
            old(self).wf(),
            old(self).parameters.spec_active_looper() < old(self).voices@.len(),
            old(self).voices@[old(self).parameters.spec_active_looper() as int].can_toggle_recording(
                quantized_offset,
            ),
        ensures
            final(self).wf(),
            ({
                let id = old(self).parameters.spec_active_looper() as int;
                let before = old(self).voices@[id];
                let after = final(self).voices@[id];
                &&& final(self).same_but_looper(*old(self), id)
                &&& match spec_record_play_action(before.spec_state()) {
                    RecordPlayAction::StartRecording | RecordPlayAction::StopRecording => {
                        &&& LooperHandle::is_toggled_from(after, before, quantized_offset)
                        &&& r == RecordPlayOutcome::Recording(
                            ToggleRecordingOutcome {
                                stopped_recording: is_recording_state(before.spec_state()),
                                sets_global_tempo: is_recording_state(before.spec_state())
                                    && old(self).others_empty(id) && old(
                                    self,
                                ).tempo_control_sets_global(id),
                            },
                        )
                    },
                    RecordPlayAction::Play => {
                        &&& after.spec_state() == LooperState::Playing
                        &&& after.same_but_state(before)
                        &&& r == RecordPlayOutcome::Playback
                    },
                }
                &&& before.spec_state() != LooperState::Empty ==> after.spec_state()
                    == LooperState::Playing
            }),
    {
        let looper_id = LooperId(self.parameters.active_looper());
        let state = self.voices[looper_id.0].state();
        match crate::multi_track::record_play_action(state) {
            RecordPlayAction::StartRecording | RecordPlayAction::StopRecording => {
                RecordPlayOutcome::Recording(self.toggle_recording(looper_id, quantized_offset))
            },
            RecordPlayAction::Play => {
                self.play(looper_id);
                RecordPlayOutcome::Playback
            },
        }
    }
}

} // verus!
