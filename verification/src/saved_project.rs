use vstd::prelude::*;

use crate::midi_map::{entries_map, lemma_entries_map_distinct, midi_spec_key, Action, MidiMap, MidiSpec};
use crate::multi_track::{LooperVoicePersist, MultiTrackParameters, NUM_SCENES, SCENE_LOOPERS};
use crate::multi_track_handle::MultiTrackLooperHandle;
use crate::parameters::{
    is_track_parameter, lemma_parameter_ids_complete, LooperId, ParameterId, ParameterValue,
};
use crate::parameters_map::{saved_values, ParametersMap};
use crate::lfo::LFOHandle;
use crate::scene_state::SceneHandle;

verus! {

/// A saved project: the tracks, the paths of their clips, the MIDI
/// mappings, and the scenes (slider position and locks).
pub struct Project {
    pub voices: Vec<LooperVoicePersist>,
    pub looper_clips: Vec<Option<String>>,
    pub midi_map: Vec<(MidiSpec, Action)>,
    pub scene_slider: u32,
    pub scene_locks: Vec<Vec<Vec<Option<ParameterValue>>>>,
}

impl Project {
    /// `self` is the saved form of the given track parameters and MIDI
    /// mappings (its clip paths aside).
    pub open spec fn saved_from(self, parameters: MultiTrackParameters, midi: Map<MidiSpec, Action>) -> bool {
        &&& self.voices@.len() == parameters.spec_num_voices()
        &&& forall|i: int|
            0 <= i < self.voices@.len() ==> {
                let v = #[trigger] self.voices@[i];
                &&& v.id == i
                &&& v.parameter_values@ == saved_values(parameters.voice(i).table())
                &&& v.lfo1@ == parameters.voice(i).lfo(0).saved_modulations()
                &&& v.lfo2@ == parameters.voice(i).lfo(1).saved_modulations()
            }
        &&& forall|i: int|
            0 <= i < self.midi_map@.len() ==> midi.contains_key((#[trigger] self.midi_map@[i]).0)
                && midi[self.midi_map@[i].0] == self.midi_map@[i].1
        &&& forall|spec: MidiSpec|
            #[trigger] midi.contains_key(spec) ==> exists|i: int|
                0 <= i < self.midi_map@.len() && (#[trigger] self.midi_map@[i]).0 == spec
        &&& forall|i: int, j: int|
            0 <= i < j < self.midi_map@.len() ==> midi_spec_key((#[trigger] self.midi_map@[i]).0)
                < midi_spec_key((#[trigger] self.midi_map@[j]).0)
        &&& self.scene_slider == parameters.scenes().slider()
        &&& self.scene_locks@.len() == NUM_SCENES
        &&& forall|s: int| 0 <= s < NUM_SCENES ==> (#[trigger] self.scene_locks@[s])@.len() == SCENE_LOOPERS
        &&& forall|s: int, l: int|
            0 <= s < NUM_SCENES && 0 <= l < SCENE_LOOPERS ==> (#[trigger] self.scene_locks@[s]@[l])@
                == saved_values(parameters.scenes().table(s, l))
    }

    /// `after` (with MIDI mappings `after_midi`) is `before` (with
    /// `before_midi`) with `self` loaded: the MIDI mappings added, the
    /// scenes restored, and each saved track restored onto the track at the
    /// same position; the loopers and the active track are unchanged.
    pub open spec fn loaded_into<T: Copy>(
        self,
        after: MultiTrackLooperHandle<T>,
        after_midi: Map<MidiSpec, Action>,
        before: MultiTrackLooperHandle<T>,
        before_midi: Map<MidiSpec, Action>,
    ) -> bool {
        let a = after.parameters;
        let b = before.parameters;
        &&& after.wf()
        &&& after.voices == before.voices
        &&& a.spec_num_voices() == b.spec_num_voices()
        &&& a.spec_active_looper() == b.spec_active_looper()
        &&& after_midi == before_midi.union_prefer_right(entries_map(self.midi_map@))
        &&& a.scenes().slider() == self.scene_slider
        &&& forall|s: int, l: int|
            0 <= s < NUM_SCENES && 0 <= l < SCENE_LOOPERS ==> if SceneHandle::restorable(
                self.scene_locks@,
                s,
                l,
            ) {
                ParametersMap::restored_from(
                    #[trigger] a.scenes().table(s, l),
                    b.scenes().table(s, l),
                    self.scene_locks@[s]@[l]@,
                )
            } else {
                a.scenes().table(s, l) == b.scenes().table(s, l)
            }
        &&& forall|i: int|
            #![trigger a.voice(i)]
            0 <= i < a.spec_num_voices() ==> if i < self.voices@.len() {
                MultiTrackParameters::voice_restored_from(a, b, i, self.voices@[i])
            } else {
                a.voice(i) == b.voice(i)
            }
    }
}

/// Saves the tracks' parameters, LFO mappings and scenes, the MIDI mappings
/// and the given clip paths.
pub fn project_from_handle<T: Copy>(
    handle: &MultiTrackLooperHandle<T>,
    midi_map: &MidiMap,
    looper_clips: Vec<Option<String>>,
) -> (r: Project)
    requires
        handle.wf(),
    ensures
        r.saved_from(handle.parameters, midi_map@),
        r.looper_clips == looper_clips,
{
    let parameters = &handle.parameters;
    let mut voices: Vec<LooperVoicePersist> = Vec::new();
    let mut i: usize = 0;
    while i < parameters.num_voices()
        invariant
            parameters.wf(),
            i <= parameters.spec_num_voices(),
            voices@.len() == i,
            forall|j: int|
                0 <= j < i ==> {
                    let v = #[trigger] voices@[j];
                    &&& v.id == j
                    &&& v.parameter_values@ == saved_values(parameters.voice(j).table())
                    &&& v.lfo1@ == parameters.voice(j).lfo(0).saved_modulations()
                    &&& v.lfo2@ == parameters.voice(j).lfo(1).saved_modulations()
                },
        decreases parameters.spec_num_voices() - i,
    {
        voices.push(parameters.save_voice(LooperId(i)));
        i = i + 1;
    }
    let entries = midi_map.entries();
    let scene_slider = parameters.scene_handle().get_slider();
    let scene_locks = parameters.saved_scene_locks();
    let r = Project { voices, looper_clips, midi_map: entries, scene_slider, scene_locks };
    proof {
        assert(r.voices@.len() == parameters.spec_num_voices());
        assert(r.midi_map@ == entries@);
        assert(r.scene_locks@ == scene_locks@);
    }
    r
}

/// Loads a saved project into the tracks: adds its MIDI mappings, restores
/// the scenes, and restores each saved track onto the track at the same
/// position (the clips are loaded by the caller).
pub fn hydrate_project<T: Copy>(project: &Project, handle: &mut MultiTrackLooperHandle<T>, midi_map: &mut MidiMap)
    requires
        old(handle).wf(),
    ensures
        project.loaded_into(*final(handle), final(midi_map)@, *old(handle), old(midi_map)@),
{
    midi_map.add_entries(&project.midi_map);
    handle.parameters.restore_scenes(project.scene_slider, &project.scene_locks);
    let ghost scenes_done = handle.parameters;
    let n = handle.parameters.num_voices();
    let mut i: usize = 0;
    while i < n
        invariant
            handle.wf(),
            n == handle.parameters.spec_num_voices(),
            n == old(handle).parameters.spec_num_voices(),
            handle.voices == old(handle).voices,
            i <= n,
            handle.parameters.scenes() == scenes_done.scenes(),
            handle.parameters.spec_active_looper() == old(handle).parameters.spec_active_looper(),
            scenes_done.voices_view() == old(handle).parameters.voices_view(),
            forall|j: int|
                #![trigger handle.parameters.voice(j)]
                0 <= j < n ==> if j < i && j < project.voices@.len() {
                    MultiTrackParameters::voice_restored_from(
                        handle.parameters,
                        old(handle).parameters,
                        j,
                        project.voices@[j],
                    )
                } else {
                    handle.parameters.voice(j) == old(handle).parameters.voice(j)
                },
        decreases n - i,
    {
        if i < project.voices.len() {
            let ghost before = handle.parameters;
            handle.parameters.restore_voice(LooperId(i), &project.voices[i]);
            proof {
                assert forall|j: int| 0 <= j < n && j != i implies #[trigger] handle.parameters.voice(j)
                    == before.voice(j) by {
                }
                assert(before.voice(i as int) == old(handle).parameters.voice(i as int));
                assert(MultiTrackParameters::voice_restored_from(
                    handle.parameters,
                    before,
                    i as int,
                    project.voices@[i as int],
                ));
                assert(MultiTrackParameters::voice_restored_from(
                    handle.parameters,
                    old(handle).parameters,
                    i as int,
                    project.voices@[i as int],
                ));
                assert forall|j: int|
                    #![trigger handle.parameters.voice(j)]
                    0 <= j < n && j < i && j < project.voices@.len() implies MultiTrackParameters::voice_restored_from(
                    handle.parameters,
                    old(handle).parameters,
                    j,
                    project.voices@[j],
                ) by {
                    assert(handle.parameters.voice(j) == before.voice(j));
                    assert(before.voice(j) == before.voice(j));
                }
            }
        }
        i = i + 1;
    }
}

/// Saving tracks and loading the saved project into tracks gives back what
/// was saved: for each track present in both, every parameter value that
/// was set (the others keep their value) and the LFO mappings; the scene
/// slider and every scene lock that was set; and the MIDI mappings (added
/// to those already there).
pub proof fn lemma_save_then_load<T: Copy>(
    saved: MultiTrackLooperHandle<T>,
    saved_midi: Map<MidiSpec, Action>,
    project: Project,
    before: MultiTrackLooperHandle<T>,
    before_midi: Map<MidiSpec, Action>,
    after: MultiTrackLooperHandle<T>,
    after_midi: Map<MidiSpec, Action>,
)
    requires
        saved.wf(),
        before.wf(),
        project.saved_from(saved.parameters, saved_midi),
        project.loaded_into(after, after_midi, before, before_midi),
    ensures
        after_midi == before_midi.union_prefer_right(saved_midi),
        after.parameters.scenes().slider() == saved.parameters.scenes().slider(),
        forall|i: int, id: ParameterId|
            #![trigger after.parameters.value(i, id)]
            0 <= i < saved.parameters.spec_num_voices() && 0 <= i < before.parameters.spec_num_voices()
                && is_track_parameter(id) ==> {
                let was_set = saved.parameters.voice(i).table().is_set(id);
                &&& after.parameters.value(i, id) == (if was_set {
                    saved.parameters.value(i, id)
                } else {
                    before.parameters.value(i, id)
                })
                &&& after.parameters.voice(i).table().is_set(id) == (was_set
                    || before.parameters.voice(i).table().is_set(id))
                &&& after.parameters.voice(i).lfo(0).spec_modulation(id)
                    == saved.parameters.voice(i).lfo(0).spec_modulation(id)
                &&& after.parameters.voice(i).lfo(1).spec_modulation(id)
                    == saved.parameters.voice(i).lfo(1).spec_modulation(id)
            },
        forall|s: int, l: int, id: ParameterId|
            0 <= s < NUM_SCENES && 0 <= l < SCENE_LOOPERS && is_track_parameter(id)
                ==> #[trigger] after.parameters.scenes().locked_value(s, l, id)
                == match saved.parameters.scenes().locked_value(s, l, id) {
                Some(v) => Some(v),
                None => before.parameters.scenes().locked_value(s, l, id),
            },
{
    lemma_parameter_ids_complete();
    let sp = saved.parameters;
    let bp = before.parameters;
    let ap = after.parameters;
    sp.lemma_parts_wf();
    bp.lemma_parts_wf();
    // the MIDI mappings
    let entries = project.midi_map@;
    assert forall|i: int, j: int| 0 <= i < j < entries.len() implies (#[trigger] entries[i]).0
        != (#[trigger] entries[j]).0 by {
        assert(midi_spec_key(entries[i].0) < midi_spec_key(entries[j].0));
    }
    lemma_entries_map_distinct(entries);
    assert(entries_map(entries) =~= saved_midi) by {
        assert forall|spec: MidiSpec| #[trigger] entries_map(entries).contains_key(spec) implies saved_midi.contains_key(spec) && entries_map(entries)[spec] == saved_midi[spec] by {
            let i = choose|i: int| 0 <= i < entries.len() && (#[trigger] entries[i]).0 == spec;
        }
        assert forall|spec: MidiSpec| #[trigger] saved_midi.contains_key(spec) implies entries_map(entries).contains_key(spec) by {
            let i = choose|i: int| 0 <= i < entries.len() && (#[trigger] entries[i]).0 == spec;
        }
    }
    // the tracks
    assert forall|i: int, id: ParameterId|
        #![trigger ap.value(i, id)]
        0 <= i < sp.spec_num_voices() && 0 <= i < bp.spec_num_voices() && is_track_parameter(id) implies {
        let was_set = sp.voice(i).table().is_set(id);
        &&& ap.value(i, id) == (if was_set {
            sp.value(i, id)
        } else {
            bp.value(i, id)
        })
        &&& ap.voice(i).table().is_set(id) == (was_set || bp.voice(i).table().is_set(id))
        &&& ap.voice(i).lfo(0).spec_modulation(id) == sp.voice(i).lfo(0).spec_modulation(id)
        &&& ap.voice(i).lfo(1).spec_modulation(id) == sp.voice(i).lfo(1).spec_modulation(id)
    } by {
        let v = project.voices@[i];
        assert(ap.voice(i) == ap.voice(i));
        assert(MultiTrackParameters::voice_restored_from(ap, bp, i, v));
        assert(v.parameter_values@.len() == crate::parameters::NUM_PARAMETERS);
        ParametersMap::lemma_restore_gives_back_saved(
            sp.voice(i).table(),
            bp.voice(i).table(),
            ap.voice(i).table(),
        );
        LFOHandle::lemma_same_modulations(ap.voice(i).lfo(0), sp.voice(i).lfo(0));
        LFOHandle::lemma_same_modulations(ap.voice(i).lfo(1), sp.voice(i).lfo(1));
    }
    // the scenes
    assert forall|s: int, l: int, id: ParameterId|
        0 <= s < NUM_SCENES && 0 <= l < SCENE_LOOPERS && is_track_parameter(id) implies #[trigger] ap.scenes().locked_value(s, l, id)
        == match sp.scenes().locked_value(s, l, id) {
        Some(v) => Some(v),
        None => bp.scenes().locked_value(s, l, id),
    } by {
        assert(SceneHandle::restorable(project.scene_locks@, s, l));
        assert(ParametersMap::restored_from(
            ap.scenes().table(s, l),
            bp.scenes().table(s, l),
            project.scene_locks@[s]@[l]@,
        ));
        ParametersMap::lemma_restore_gives_back_saved(
            sp.scenes().table(s, l),
            bp.scenes().table(s, l),
            ap.scenes().table(s, l),
        );
    }
}

} // verus!
