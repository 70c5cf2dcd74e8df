use vstd::prelude::*;

use crate::parameters::{is_track_parameter, LooperId, ParameterId, ParameterValue, NUM_PARAMETERS};
use crate::parameters_map::{saved_values, ParametersMap};

verus! {

/// The parameter locks of one scene: a parameter table per track.
pub struct SceneState {
    scene_parameters: Vec<ParametersMap>,
}

/// Scenes with their parameter locks, and the position of the slider that
/// crossfades between the first two of them.
pub struct SceneHandle {
    /// Bit pattern of the `f32` slider position.
    scene_value: u32,
    scenes: Vec<SceneState>,
    num_loopers: usize,
}

impl SceneState {
    /// The table of a track in this scene.
    pub closed spec fn table(self, looper: int) -> ParametersMap {
        self.scene_parameters@[looper]
    }

    /// The number of tracks of this scene.
    pub closed spec fn num_tables(self) -> nat {
        self.scene_parameters@.len()
    }

    fn new(num_loopers: usize) -> (r: Self)
        ensures
            r.num_tables() == num_loopers,
            forall|l: int| 0 <= l < num_loopers ==> #[trigger] r.table(l).wf(),
            forall|l: int, id: ParameterId|
                0 <= l < num_loopers && is_track_parameter(id) ==> !#[trigger] r.table(l).is_set(id),
    {
        let mut scene_parameters: Vec<ParametersMap> = Vec::new();
        let mut i: usize = 0;
        while i < num_loopers
            invariant
                i <= num_loopers,
                scene_parameters@.len() == i,
                forall|l: int| 0 <= l < i ==> #[trigger] scene_parameters@[l].wf(),
                forall|l: int, id: ParameterId|
                    0 <= l < i && is_track_parameter(id) ==> !#[trigger] scene_parameters@[l].is_set(
                        id,
                    ),
            decreases num_loopers - i,
        {
            scene_parameters.push(ParametersMap::new());
            i = i + 1;
        }
        SceneState { scene_parameters }
    }
}

impl SceneHandle {
    /// Every scene holds a well-formed table for each track.
    pub closed spec fn wf(self) -> bool {
        forall|s: int|
            #![trigger self.scenes@[s]]
            0 <= s < self.scenes@.len() ==> {
                &&& self.scenes@[s].scene_parameters@.len() == self.num_loopers
                &&& forall|l: int|
                    0 <= l < self.num_loopers ==> #[trigger] self.scenes@[s].scene_parameters@[l].wf()
            }
    }

    /// The number of scenes.
    pub closed spec fn num_scenes(self) -> nat {
        self.scenes@.len()
    }

    /// The number of tracks.
    pub closed spec fn spec_num_loopers(self) -> nat {
        self.num_loopers as nat
    }

    /// The table of a track in a scene.
    pub closed spec fn table(self, scene: int, looper: int) -> ParametersMap {
        self.scenes@[scene].table(looper)
    }

    /// The bit pattern of the slider position.
    pub closed spec fn slider(self) -> u32 {
        self.scene_value
    }

    /// The value locked for `id` on a track in a scene, if one is locked.
    pub open spec fn locked_value(self, scene: int, looper: int, id: ParameterId) -> Option<
        ParameterValue,
    > {
        if self.table(scene, looper).is_set(id) {
            Some(self.table(scene, looper).value(id))
        } else {
            None
        }
    }

    /// `num_scenes` scenes of `num_loopers` tracks, with no locks and the
    /// slider at `0.0`.
    pub fn new(num_loopers: usize, num_scenes: usize) -> (r: Self)
        ensures
            r.wf(),
            r.num_scenes() == num_scenes,
            r.spec_num_loopers() == num_loopers,
            r.slider() == 0,
            forall|s: int, l: int, id: ParameterId|
                0 <= s < num_scenes && 0 <= l < num_loopers && is_track_parameter(id)
                    ==> #[trigger] r.locked_value(s, l, id) is None,
    {

        let mut scenes: Vec<SceneState> = Vec::new();
        let mut i: usize = 0;
        while i < num_scenes
            invariant
                i <= num_scenes,
                scenes@.len() == i,
                forall|s: int|
                    #![trigger scenes@[s]]
                    0 <= s < i ==> {
                        &&& scenes@[s].scene_parameters@.len() == num_loopers
                        &&& forall|l: int|
                            0 <= l < num_loopers ==> #[trigger] scenes@[s].scene_parameters@[l].wf()
                        &&& forall|l: int, id: ParameterId|
                            0 <= l < num_loopers && is_track_parameter(id)
                                ==> !#[trigger] scenes@[s].scene_parameters@[l].is_set(id)
                    },
            decreases num_scenes - i,
        {
            let scene = SceneState::new(num_loopers);
            assert(forall|l: int| 0 <= l < num_loopers ==> #[trigger] scene.scene_parameters@[l] == scene.table(l));
            scenes.push(scene);
            i = i + 1;
        }
        let r = SceneHandle { scene_value: 0, scenes, num_loopers };
        proof {
            assert forall|s: int, l: int, id: ParameterId|
                0 <= s < num_scenes && 0 <= l < num_loopers && is_track_parameter(id)
                    implies #[trigger] r.locked_value(s, l, id) is None by {
                assert(!r.scenes@[s].table(l).is_set(id));
            }
        }
        r
    }

    /// The tables of a well-formed scene handle are well formed.
    pub proof fn lemma_tables_wf(self)
        requires
            self.wf(),
        ensures
            forall|s: int, l: int|
                0 <= s < self.num_scenes() && 0 <= l < self.spec_num_loopers() ==> (#[trigger] self.table(s, l)).wf(),
    {
        assert forall|s: int, l: int|
            0 <= s < self.num_scenes() && 0 <= l < self.spec_num_loopers() implies (#[trigger] self.table(s, l)).wf() by {
            assert(self.scenes@[s].scene_parameters@[l].wf());
        }
    }

    /// The bit pattern of the slider position.
    pub fn get_slider(&self) -> (r: u32)
        ensures
            r == self.slider(),
    {
        self.scene_value
    }

    /// Moves the slider; the locks are unchanged.
    pub fn set_slider(&mut self, value: u32)
        ensures
            final(self).slider() == value,
            old(self).wf() ==> final(self).wf(),
            final(self).num_scenes() == old(self).num_scenes(),
            final(self).spec_num_loopers() == old(self).spec_num_loopers(),
            forall|s: int, l: int| #[trigger] final(self).table(s, l) == old(self).table(s, l),
    {
        self.scene_value = value;
    }

    /// Locks `id` on a track in a scene to `value` (converted to the kind of
    /// the parameter). Every other lock is unchanged.
    pub fn set(&mut self, scene_id: usize, looper_id: LooperId, id: ParameterId, value: ParameterValue)
        requires
            old(self).wf(),
            scene_id < old(self).num_scenes(),
            looper_id.0 < old(self).spec_num_loopers(),
            is_track_parameter(id),
        ensures
            final(self).wf(),
            final(self).num_scenes() == old(self).num_scenes(),
            final(self).spec_num_loopers() == old(self).spec_num_loopers(),
            final(self).slider() == old(self).slider(),
            final(self).locked_value(scene_id as int, looper_id.0 as int, id) == Some(
                value.converted_to_kind_of(old(self).table(scene_id as int, looper_id.0 as int).value(id)),
            ),
            forall|s: int, l: int, other: ParameterId|
                0 <= s < old(self).num_scenes() && 0 <= l < old(self).spec_num_loopers()
                    && is_track_parameter(other) && (s != scene_id || l != looper_id.0 || other
                    != id) ==> #[trigger] final(self).locked_value(s, l, other) == old(self).locked_value(
                    s,
                    l,
                    other,
                ),
    {
        let ghost old_scenes = self.scenes@;
        self.scenes[scene_id].scene_parameters[looper_id.0].set(id, value);
        proof {
            assert forall|s: int, l: int, other: ParameterId|
                0 <= s < old_scenes.len() && 0 <= l < self.num_loopers && is_track_parameter(other)
                    && (s != scene_id || l != looper_id.0 || other != id) implies #[trigger] self.locked_value(
                s,
                l,
                other,
            ) == old(self).locked_value(s, l, other) by {
                if s == scene_id && l == looper_id.0 {
                } else if s == scene_id {
                    assert(self.scenes@[s].scene_parameters@[l] == old_scenes[s].scene_parameters@[l]);
                } else {
                    assert(self.scenes@[s] == old_scenes[s]);
                }
            }
        }
    }

    /// The value locked for `id` on a track in the first scene.
    pub fn get_left(&self, looper_id: LooperId, id: ParameterId) -> (r: Option<&ParameterValue>)
        requires
            self.wf(),
            self.num_scenes() >= 1,
            looper_id.0 < self.spec_num_loopers(),
            is_track_parameter(id),
        ensures
            r matches Some(v) ==> self.locked_value(0, looper_id.0 as int, id) == Some(*v),
            r is None ==> self.locked_value(0, looper_id.0 as int, id) is None,
    {
        let map = &self.scenes[0].scene_parameters[looper_id.0];
        if map.has_value(id) {
            Some(map.get(id))
        } else {
            None
        }
    }

    /// The value locked for `id` on a track in the second scene.
    pub fn get_right(&self, looper_id: LooperId, id: ParameterId) -> (r: Option<&ParameterValue>)
        requires
            self.wf(),
            self.num_scenes() >= 2,
            looper_id.0 < self.spec_num_loopers(),
            is_track_parameter(id),
        ensures
            r matches Some(v) ==> self.locked_value(1, looper_id.0 as int, id) == Some(*v),
            r is None ==> self.locked_value(1, looper_id.0 as int, id) is None,
    {
        let map = &self.scenes[1].scene_parameters[looper_id.0];
        if map.has_value(id) {
            Some(map.get(id))
        } else {
            None
        }
    }

    /// The locks of every track in every scene, for saving: `r[s][l]` is
    /// the saved form of the table of track `l` in scene `s`.
    pub fn saved_locks(&self) -> (r: Vec<Vec<Vec<Option<ParameterValue>>>>)
        requires
            self.wf(),
        ensures
            r@.len() == self.num_scenes(),
            forall|s: int| 0 <= s < self.num_scenes() ==> (#[trigger] r@[s])@.len() == self.spec_num_loopers(),
            forall|s: int, l: int|
                0 <= s < self.num_scenes() && 0 <= l < self.spec_num_loopers() ==> (#[trigger] r@[s]@[l])@
                    == saved_values(self.table(s, l)),
    {
        let mut r: Vec<Vec<Vec<Option<ParameterValue>>>> = Vec::new();
        let mut s: usize = 0;
        while s < self.scenes.len()
            invariant
                self.wf(),
                s <= self.scenes@.len(),
                r@.len() == s,
                forall|i: int| 0 <= i < s ==> (#[trigger] r@[i])@.len() == self.num_loopers,
                forall|i: int, l: int|
                    0 <= i < s && 0 <= l < self.num_loopers ==> (#[trigger] r@[i]@[l])@ == saved_values(
                        self.table(i, l),
                    ),
            decreases self.scenes@.len() - s,
        {
            let mut scene: Vec<Vec<Option<ParameterValue>>> = Vec::new();
            let mut l: usize = 0;
            while l < self.num_loopers
                invariant
                    self.wf(),
                    s < self.scenes@.len(),
                    l <= self.num_loopers,
                    scene@.len() == l,
                    forall|j: int| 0 <= j < l ==> (#[trigger] scene@[j])@ == saved_values(self.table(s as int, j)),
                decreases self.num_loopers - l,
            {
                assert(self.scenes@[s as int].scene_parameters@.len() == self.num_loopers);
                scene.push(self.scenes[s].scene_parameters[l].saved_values());
                l = l + 1;
            }
            r.push(scene);
            s = s + 1;
        }
        r
    }

    /// The saved locks hold a table for track `l` of scene `s`.
    pub open spec fn restorable(saved: Seq<Vec<Vec<Option<ParameterValue>>>>, s: int, l: int) -> bool {
        &&& 0 <= s < saved.len()
        &&& 0 <= l < saved[s]@.len()
        &&& saved[s]@[l]@.len() == NUM_PARAMETERS
    }

    /// Restores the saved locks of each track in each scene (see
    /// `saved_locks`); a table missing from `saved`, or of another size, is
    /// left as it is. The slider is unchanged.
    pub fn restore_locks(&mut self, saved: &Vec<Vec<Vec<Option<ParameterValue>>>>)
        requires
            old(self).wf(),
        ensures
            final(self).wf(),
            final(self).num_scenes() == old(self).num_scenes(),
            final(self).spec_num_loopers() == old(self).spec_num_loopers(),
            final(self).slider() == old(self).slider(),
            forall|s: int, l: int|
                0 <= s < old(self).num_scenes() && 0 <= l < old(self).spec_num_loopers() ==> if Self::restorable(
                    saved@,
                    s,
                    l,
                ) {
                    ParametersMap::restored_from(
                        #[trigger] final(self).table(s, l),
                        old(self).table(s, l),
                        saved@[s]@[l]@,
                    )
                } else {
                    final(self).table(s, l) == old(self).table(s, l)
                },
    {
        let mut s: usize = 0;
        while s < self.scenes.len()
            invariant
                self.wf(),
                s <= self.scenes@.len(),
                self.scenes@.len() == old(self).scenes@.len(),
                self.num_loopers == old(self).num_loopers,
                self.scene_value == old(self).scene_value,
                forall|i: int, l: int|
                    0 <= i < self.scenes@.len() && 0 <= l < self.num_loopers ==> if i < s
                        && Self::restorable(saved@, i, l) {
                        ParametersMap::restored_from(
                            #[trigger] self.table(i, l),
                            old(self).table(i, l),
                            saved@[i]@[l]@,
                        )
                    } else {
                        self.table(i, l) == old(self).table(i, l)
                    },
            decreases self.scenes@.len() - s,
        {
            if s < saved.len() {
                let mut l: usize = 0;
                while l < self.num_loopers
                    invariant
                        self.wf(),
                        s < self.scenes@.len(),
                        s < saved@.len(),
                        l <= self.num_loopers,
                        self.scenes@.len() == old(self).scenes@.len(),
                        self.num_loopers == old(self).num_loopers,
                        self.scene_value == old(self).scene_value,
                        forall|i: int, j: int|
                            0 <= i < self.scenes@.len() && 0 <= j < self.num_loopers ==> if (i < s || (i
                                == s && j < l)) && Self::restorable(saved@, i, j) {
                                ParametersMap::restored_from(
                                    #[trigger] self.table(i, j),
                                    old(self).table(i, j),
                                    saved@[i]@[j]@,
                                )
                            } else {
                                self.table(i, j) == old(self).table(i, j)
                            },
                    decreases self.num_loopers - l,
                {
                    if l < saved[s].len() && saved[s][l].len() == NUM_PARAMETERS {
                        let ghost before = self.scenes@;
                        let ghost before_self = *self;
                        assert(self.scenes@[s as int].scene_parameters@.len() == self.num_loopers);
                        assert(self.scenes@[s as int].scene_parameters@[l as int].wf());
                        self.scenes[s].scene_parameters[l].restore_values(&saved[s][l]);
                        proof {
                            assert forall|i: int, j: int|
                                0 <= i < self.scenes@.len() && 0 <= j < self.num_loopers && (i != s || j
                                    != l) implies #[trigger] self.table(i, j) == before_self.table(i, j) by {
                                if i != s {
                                    assert(self.scenes@[i] == before[i]);
                                } else {
                                    assert(self.scenes@[i].scene_parameters@[j] == before[i].scene_parameters@[j]);
                                }
                            }
                            assert forall|i: int|
                                #![trigger self.scenes@[i]]
                                0 <= i < self.scenes@.len() implies {
                                &&& self.scenes@[i].scene_parameters@.len() == self.num_loopers
                                &&& forall|j: int|
                                    0 <= j < self.num_loopers ==> #[trigger] self.scenes@[i].scene_parameters@[j].wf()
                            } by {
                                if i != s {
                                    assert(self.scenes@[i] == before[i]);
                                } else {
                                    assert forall|j: int|
                                        0 <= j < self.num_loopers implies #[trigger] self.scenes@[i].scene_parameters@[j].wf() by {
                                        if j != l {
                                            assert(self.table(i, j) == before_self.table(i, j));
                                        }
                                    }
                                }
                            }
                            assert(before_self.table(s as int, l as int) == old(self).table(s as int, l as int));
                        }
                    }
                    l = l + 1;
                }
            }
            s = s + 1;
        }
    }
}

} // verus!
