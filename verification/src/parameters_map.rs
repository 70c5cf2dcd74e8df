use std::collections::HashMap;
use vstd::prelude::*;

use crate::parameters::{
    build_default_parameters, build_parameter_ids, default_value, is_track_parameter, lemma_conversion_depends_on_kind,
    lemma_parameter_ids_complete, parameter_ids, EnvelopeParameter, LFOParameter, ParameterId,
    ParameterValue, QuantizationParameter, SourceParameter, NUM_PARAMETERS,
};

verus! {

broadcast use vstd::std_specs::hash::group_hash_axioms;

/// Position of a source parameter within its enum.
pub open spec fn source_index(p: SourceParameter) -> int {
    match p {
        SourceParameter::Start => 0,
        SourceParameter::End => 1,
        SourceParameter::FadeStart => 2,
        SourceParameter::FadeEnd => 3,
        SourceParameter::Pitch => 4,
        SourceParameter::Speed => 5,
        SourceParameter::LoopEnabled => 6,
        SourceParameter::SliceId => 7,
        SourceParameter::SliceEnabled => 8,
    }
}

/// Position of an envelope parameter within its enum.
pub open spec fn envelope_index(p: EnvelopeParameter) -> int {
    match p {
        EnvelopeParameter::Attack => 0,
        EnvelopeParameter::Decay => 1,
        EnvelopeParameter::Release => 2,
        EnvelopeParameter::Sustain => 3,
        EnvelopeParameter::EnvelopeEnabled => 4,
    }
}

/// Position of an LFO parameter within its enum.
pub open spec fn lfo_index(p: LFOParameter) -> int {
    match p {
        LFOParameter::Frequency => 0,
        LFOParameter::Amount => 1,
    }
}

/// Position of a quantization parameter within its enum.
pub open spec fn quantization_index(p: QuantizationParameter) -> int {
    match p {
        QuantizationParameter::QuantizationParameterQuantizeMode => 0,
        QuantizationParameter::QuantizationParameterTempoControl => 1,
    }
}

/// The integer under which a parameter id is stored in a hash table:
/// the variant in the lowest two bits, the inner parameter in the next four,
/// the LFO number above them.
pub open spec fn parameter_key(id: ParameterId) -> u128 {
    match id {
        ParameterId::ParameterIdSource(p) => (4 * source_index(p)) as u128,
        ParameterId::ParameterIdEnvelope(p) => (1 + 4 * envelope_index(p)) as u128,
        ParameterId::ParameterIdLFO(lfo, p) => (2 + 4 * lfo_index(p) + 64 * lfo) as u128,
        ParameterId::ParameterIdQuantization(p) => (3 + 4 * quantization_index(p)) as u128,
    }
}

/// Different parameters are stored under different keys.
pub proof fn lemma_parameter_key_injective(a: ParameterId, b: ParameterId)
    ensures
        parameter_key(a) == parameter_key(b) <==> a == b,
{
}

/// Computes `parameter_key`.
pub fn parameter_key_of(id: &ParameterId) -> (r: u128)
    ensures
        r == parameter_key(*id),
{
    match id {
        ParameterId::ParameterIdSource(p) => {
            let i: u128 = match p {
                SourceParameter::Start => 0,
                SourceParameter::End => 1,
                SourceParameter::FadeStart => 2,
                SourceParameter::FadeEnd => 3,
                SourceParameter::Pitch => 4,
                SourceParameter::Speed => 5,
                SourceParameter::LoopEnabled => 6,
                SourceParameter::SliceId => 7,
                SourceParameter::SliceEnabled => 8,
            };
            4 * i
        },
        ParameterId::ParameterIdEnvelope(p) => {
            let i: u128 = match p {
                EnvelopeParameter::Attack => 0,
                EnvelopeParameter::Decay => 1,
                EnvelopeParameter::Release => 2,
                EnvelopeParameter::Sustain => 3,
                EnvelopeParameter::EnvelopeEnabled => 4,
            };
            1 + 4 * i
        },
        ParameterId::ParameterIdLFO(lfo, p) => {
            let i: u128 = match p {
                LFOParameter::Frequency => 0,
                LFOParameter::Amount => 1,
            };
            let l: u128 = *lfo as u128;
            2 + 4 * i + 64 * l
        },
        ParameterId::ParameterIdQuantization(p) => {
            let i: u128 = match p {
                QuantizationParameter::QuantizationParameterQuantizeMode => 0,
                QuantizationParameter::QuantizationParameterTempoControl => 1,
            };
            3 + 4 * i
        },
    }
}

/// Table from parameter ids to their positions in a parameter list.
pub struct ParameterIndexes {
    map: HashMap<u128, usize>,
}

impl View for ParameterIndexes {
    type V = Map<ParameterId, usize>;

    closed spec fn view(&self) -> Map<ParameterId, usize> {
        Map::new(
            |id: ParameterId| self.map@.contains_key(parameter_key(id)),
            |id: ParameterId| self.map@[parameter_key(id)],
        )
    }
}

/// `m` maps each id of `ids` to the position of its last occurrence, and
/// holds nothing else.
pub open spec fn indexes_last_positions(m: Map<ParameterId, usize>, ids: Seq<ParameterId>) -> bool {
    &&& forall|id: ParameterId| m.contains_key(id) <==> ids.contains(id)
    &&& forall|id: ParameterId|
        #![trigger m[id]]
        m.contains_key(id) ==> {
            &&& m[id] < ids.len()
            &&& ids[m[id] as int] == id
            &&& forall|j: int| m[id] < j < ids.len() ==> ids[j] != id
        }
}

impl ParameterIndexes {
    /// The position stored for `id`, if any.
    pub fn get(&self, id: &ParameterId) -> (r: Option<usize>)
        ensures
            r == (if self@.contains_key(*id) {
                Some(self@[*id])
            } else {
                None
            }),
    {
        let key = parameter_key_of(id);
        match self.map.get(&key) {
            Some(v) => Some(*v),
            None => None,
        }
    }
}

/// Builds the table from each id to its position in `parameter_ids`; where
/// an id occurs more than once, the last position wins.
pub fn build_parameter_indexes(parameter_ids: &Vec<ParameterId>) -> (r: ParameterIndexes)
    ensures
        indexes_last_positions(r@, parameter_ids@),
{
    let ghost ids = parameter_ids@;
    let mut map: HashMap<u128, usize> = HashMap::new();
    let mut i: usize = 0;
    while i < parameter_ids.len()
        invariant
            i <= ids.len(),
            ids == parameter_ids@,
            forall|k: u128|
                map@.contains_key(k) <==> exists|j: int|
                    0 <= j < i && #[trigger] parameter_key(ids[j]) == k,
            forall|j: int|
                #![trigger ids[j]]
                0 <= j < i ==> {
                    let v = map@[parameter_key(ids[j])];
                    &&& map@.contains_key(parameter_key(ids[j]))
                    &&& j <= v < i
                    &&& parameter_key(ids[v as int]) == parameter_key(ids[j])
                },
            forall|k: u128|
                #![trigger map@[k]]
                map@.contains_key(k) ==> map@[k] < i && parameter_key(ids[map@[k] as int]) == k,
        decreases ids.len() - i,
    {
        let key = parameter_key_of(&parameter_ids[i]);
        map.insert(key, i);
        proof {
            assert forall|k: u128|
                map@.contains_key(k) implies exists|j: int|
                    0 <= j < i + 1 && #[trigger] parameter_key(ids[j]) == k by {
                if k == key {
                    assert(parameter_key(ids[i as int]) == k);
                }
            }
        }
        i = i + 1;
    }
    let r = ParameterIndexes { map };
    proof {
        assert forall|id: ParameterId| r@.contains_key(id) <==> ids.contains(id) by {
            if ids.contains(id) {
                let j = choose|j: int| 0 <= j < ids.len() && ids[j] == id;
                assert(parameter_key(ids[j]) == parameter_key(id));
            }
            if r@.contains_key(id) {
                let v = map@[parameter_key(id)];
                lemma_parameter_key_injective(ids[v as int], id);
            }
        }
        assert forall|id: ParameterId|
            #![trigger r@[id]]
            r@.contains_key(id) implies {
            &&& r@[id] < ids.len()
            &&& ids[r@[id] as int] == id
            &&& forall|j: int| r@[id] < j < ids.len() ==> ids[j] != id
        } by {
            let v = map@[parameter_key(id)];
            lemma_parameter_key_injective(ids[v as int], id);
            assert forall|j: int| r@[id] < j < ids.len() implies ids[j] != id by {
                if ids[j] == id {
                    assert(ids[j] == ids[j]);
                }
            }
        }
    }
    r
}

/// The stored values of the parameters of a track, and which of them were
/// set since the table was built.
pub struct ParametersMap {
    values: Vec<ParameterValue>,
    has_value: Vec<bool>,
    indexes: ParameterIndexes,
}

impl ParametersMap {
    /// The table holds one value of the right kind for each track parameter.
    pub closed spec fn wf(self) -> bool {
        &&& self.values@.len() == parameter_ids().len()
        &&& self.has_value@.len() == parameter_ids().len()
        &&& indexes_last_positions(self.indexes@, parameter_ids())
        &&& forall|i: int|
            0 <= i < self.values@.len() ==> #[trigger] self.values@[i].same_kind(
                default_value(parameter_ids()[i]),
            )
    }

    /// The position of a track parameter in the table.
    closed spec fn position(self, id: ParameterId) -> int {
        self.indexes@[id] as int
    }

    /// The value stored for `id`.
    pub closed spec fn value(self, id: ParameterId) -> ParameterValue {
        self.values@[self.position(id)]
    }

    /// Whether `id` was set since the table was built.
    pub closed spec fn is_set(self, id: ParameterId) -> bool {
        self.has_value@[self.position(id)]
    }

    /// A table holding the default value of every track parameter, none of
    /// them marked as set.
    pub fn new() -> (r: Self)
        ensures
            r.wf(),
            forall|id: ParameterId| #[trigger]
                is_track_parameter(id) ==> r.value(id) == default_value(id) && !r.is_set(id),
    {
        proof {
            lemma_parameter_ids_complete();
        }
        let (defaults, ids) = build_default_parameters();
        let indexes = build_parameter_indexes(&ids);
        let mut values: Vec<ParameterValue> = Vec::new();
        let mut has_value: Vec<bool> = Vec::new();
        let mut i: usize = 0;
        while i < ids.len()
            invariant
                ids@ == parameter_ids(),
                defaults@.len() == ids@.len(),
                forall|j: int| 0 <= j < defaults@.len() ==> defaults@[j] == default_value(#[trigger] ids@[j]),
                i <= ids@.len(),
                values@.len() == i,
                has_value@.len() == i,
                forall|j: int| 0 <= j < i ==> values@[j] == defaults@[j] && !has_value@[j],
            decreases ids@.len() - i,
        {
            values.push(defaults[i]);
            has_value.push(false);
            i = i + 1;
        }
        let r = ParametersMap { values, has_value, indexes };
        proof {
            assert forall|i: int|
                0 <= i < r.values@.len() implies #[trigger] r.values@[i].same_kind(
                default_value(parameter_ids()[i]),
            ) by {
                assert(ids@[i] == parameter_ids()[i]);
            }
            assert forall|id: ParameterId| #[trigger]
                is_track_parameter(id) implies r.value(id) == default_value(id) && !r.is_set(id) by {
                assert(parameter_ids().contains(id));
            }
        }
        r
    }

    /// The value stored for a track parameter.
    pub fn get(&self, id: ParameterId) -> (r: &ParameterValue)
        requires
            self.wf(),
            is_track_parameter(id),
        ensures
            *r == self.value(id),
    {
        proof {
            lemma_parameter_ids_complete();
        }
        let index = self.indexes.get(&id).unwrap();
        &self.values[index]
    }

    /// Whether a track parameter was set since the table was built.
    pub fn has_value(&self, id: ParameterId) -> (r: bool)
        requires
            self.wf(),
            is_track_parameter(id),
        ensures
            r == self.is_set(id),
    {
        proof {
            lemma_parameter_ids_complete();
        }
        let index = self.indexes.get(&id).unwrap();
        self.has_value[index]
    }

    /// `after` is `before` with `value` stored for `id`, converted to the
    /// parameter's kind, and `id` marked as set; nothing else changes.
    pub open spec fn is_set_from(after: Self, before: Self, id: ParameterId, value: ParameterValue) -> bool {
        &&& after.wf()
        &&& after.value(id) == value.converted_to_kind_of(before.value(id))
        &&& after.is_set(id)
        &&& forall|other: ParameterId|
            #![trigger after.value(other)]
            #![trigger after.is_set(other)]
            is_track_parameter(other) && other != id ==> after.value(other) == before.value(other)
                && after.is_set(other) == before.is_set(other)
    }

    /// Stores `value` for a track parameter, converted to the parameter's
    /// kind, and marks it as set. Nothing else changes.
    pub fn set(&mut self, id: ParameterId, value: ParameterValue)
        requires
            old(self).wf(),
            is_track_parameter(id),
        ensures
            Self::is_set_from(*final(self), *old(self), id, value),
    {
        proof {
            lemma_parameter_ids_complete();
        }
        let index = self.indexes.get(&id).unwrap();
        let mut slot = self.values[index];
        slot.set_from(&value);
        self.values.set(index, slot);
        self.has_value.set(index, true);
        proof {
            assert forall|other: ParameterId|
                is_track_parameter(other) && other != id implies #[trigger] self.indexes@[other]
                != index by {
                assert(parameter_ids().contains(other));
            }
            assert forall|other: ParameterId|
                #![trigger self.value(other)]
                #![trigger self.is_set(other)]
                is_track_parameter(other) && other != id implies self.value(other) == old(self).value(
                    other,
                ) && self.is_set(other) == old(self).is_set(other) by {
                assert(self.indexes@[other] != index);
            }
            assert forall|i: int|
                0 <= i < self.values@.len() implies #[trigger] self.values@[i].same_kind(
                default_value(parameter_ids()[i]),
            ) by {
                if i == index {
                    lemma_conversion_depends_on_kind(value, old(self).values@[i], old(self).values@[i]);
                    assert(old(self).values@[i].same_kind(default_value(parameter_ids()[i])));
                }
            }
            assert(self.wf());
            assert(self.value(id) == value.converted_to_kind_of(old(self).value(id)));
            assert(self.is_set(id));
        }
    }
}

/// The saved form of a table: for each parameter of `parameter_ids()`, in
/// that order, its value if it was set.
pub open spec fn saved_values(map: ParametersMap) -> Seq<Option<ParameterValue>> {
    Seq::new(
        parameter_ids().len(),
        |k: int|
            if map.is_set(parameter_ids()[k]) {
                Some(map.value(parameter_ids()[k]))
            } else {
                None
            },
    )
}

impl ParametersMap {
    /// Every stored value has the kind of the parameter's default value.
    pub proof fn lemma_values_keep_kind(self, id: ParameterId)
        requires
            self.wf(),
            is_track_parameter(id),
        ensures
            self.value(id).same_kind(default_value(id)),
    {
        lemma_parameter_ids_complete();
    }

    /// `after` is `before` with the value saved for each parameter stored
    /// (see `saved_values`); parameters saved without a value keep theirs.
    pub open spec fn restored_from(after: Self, before: Self, saved: Seq<Option<ParameterValue>>) -> bool {
        &&& after.wf()
        &&& forall|k: int|
            #![trigger parameter_ids()[k]]
            0 <= k < parameter_ids().len() ==> {
                let id = parameter_ids()[k];
                match saved[k] {
                    Some(v) => {
                        &&& after.value(id) == v.converted_to_kind_of(before.value(id))
                        &&& after.is_set(id)
                    },
                    None => {
                        &&& after.value(id) == before.value(id)
                        &&& after.is_set(id) == before.is_set(id)
                    },
                }
            }
    }

    /// The values set in the table, for saving (see `saved_values`).
    pub fn saved_values(&self) -> (r: Vec<Option<ParameterValue>>)
        requires
            self.wf(),
        ensures
            r@ == saved_values(*self),
    {
        proof {
            lemma_parameter_ids_complete();
        }
        let ids = build_parameter_ids();
        let mut r: Vec<Option<ParameterValue>> = Vec::new();
        let mut k: usize = 0;
        while k < ids.len()
            invariant
                self.wf(),
                ids@ == parameter_ids(),
                k <= ids@.len(),
                r@.len() == k,
                forall|j: int| 0 <= j < k ==> #[trigger] r@[j] == saved_values(*self)[j],
            decreases ids@.len() - k,
        {
            let id = ids[k];
            if self.has_value(id) {
                r.push(Some(*self.get(id)));
            } else {
                r.push(None);
            }
            k = k + 1;
        }
        proof {
            assert(r@ =~= saved_values(*self));
        }
        r
    }

    /// Stores each saved value (see `restored_from`).
    pub fn restore_values(&mut self, saved: &Vec<Option<ParameterValue>>)
        requires
            old(self).wf(),
            saved@.len() == NUM_PARAMETERS,
        ensures
            Self::restored_from(*final(self), *old(self), saved@),
    {
        proof {
            lemma_parameter_ids_complete();
        }
        let ids = build_parameter_ids();
        let mut k: usize = 0;
        while k < ids.len()
            invariant
                self.wf(),
                ids@ == parameter_ids(),
                parameter_ids().no_duplicates(),
                saved@.len() == ids@.len(),
                k <= ids@.len(),
                forall|j: int|
                    #![trigger parameter_ids()[j]]
                    0 <= j < parameter_ids().len() ==> {
                        let id = parameter_ids()[j];
                        if j < k && saved@[j] is Some {
                            &&& self.value(id) == saved@[j]->Some_0.converted_to_kind_of(old(self).value(id))
                            &&& self.is_set(id)
                        } else {
                            &&& self.value(id) == old(self).value(id)
                            &&& self.is_set(id) == old(self).is_set(id)
                        }
                    },
            decreases ids@.len() - k,
        {
            let id = ids[k];
            match saved[k] {
                Some(v) => {
                    let ghost before = *self;
                    self.set(id, v);
                    proof {
                        assert forall|j: int|
                            #![trigger parameter_ids()[j]]
                            0 <= j < parameter_ids().len() && j != k implies parameter_ids()[j] != id by {
                        }
                        assert(parameter_ids()[k as int] == id);
                        assert(is_track_parameter(id));
                        assert(before.value(id) == old(self).value(id));
                    }
                },
                None => {},
            }
            k = k + 1;
        }
    }

    /// Restoring a saved table gives back every value that was set in it,
    /// and marks it as set; every other parameter keeps its value.
    pub proof fn lemma_restore_gives_back_saved(saved: Self, before: Self, after: Self)
        requires
            saved.wf(),
            before.wf(),
            Self::restored_from(after, before, saved_values(saved)),
        ensures
            forall|id: ParameterId|
                #![trigger after.value(id)]
                #![trigger after.is_set(id)]
                is_track_parameter(id) ==> {
                    &&& after.value(id) == (if saved.is_set(id) {
                        saved.value(id)
                    } else {
                        before.value(id)
                    })
                    &&& after.is_set(id) == (saved.is_set(id) || before.is_set(id))
                },
    {
        lemma_parameter_ids_complete();
        assert forall|id: ParameterId|
            #![trigger after.value(id)]
            #![trigger after.is_set(id)]
            is_track_parameter(id) implies {
            &&& after.value(id) == (if saved.is_set(id) {
                saved.value(id)
            } else {
                before.value(id)
            })
            &&& after.is_set(id) == (saved.is_set(id) || before.is_set(id))
        } by {
            let k = choose|k: int| 0 <= k < parameter_ids().len() && parameter_ids()[k] == id;
            assert(parameter_ids()[k] == id);
            if saved.is_set(id) {
                saved.lemma_values_keep_kind(id);
                before.lemma_values_keep_kind(id);
                lemma_conversion_depends_on_kind(saved.value(id), before.value(id), default_value(id));
                let v = saved.value(id);
                assert(v.same_kind(before.value(id))) by {
                    lemma_conversion_depends_on_kind(v, default_value(id), before.value(id));
                }
            }
        }
    }
}

impl ParametersMap {
    proof fn lemma_set_prefix(maps: Seq<Self>, ids: Seq<ParameterId>, values: Seq<ParameterValue>, n: int)
        requires
            maps.len() == ids.len() + 1,
            values.len() == ids.len(),
            forall|k: int|
                0 <= k < ids.len() ==> Self::is_set_from(maps[k + 1], maps[k], #[trigger] ids[k], values[k]),
            forall|id: ParameterId| is_track_parameter(id) ==> !(#[trigger] maps[0].is_set(id)),
            0 <= n <= ids.len(),
        ensures
            forall|id: ParameterId|
                is_track_parameter(id) ==> (#[trigger] maps[n].is_set(id) <==> ids.take(n).contains(id)),
        decreases n,
    {
        if n > 0 {
            Self::lemma_set_prefix(maps, ids, values, n - 1);
            let p = n - 1;
            assert(Self::is_set_from(maps[n], maps[p], ids[p], values[p]));
            assert forall|id: ParameterId| is_track_parameter(id) implies (#[trigger] maps[n].is_set(id)
                <==> ids.take(n).contains(id)) by {
                assert(ids.take(n) =~= ids.take(p).push(ids[p]));
                if id != ids[p] {
                    assert(maps[n].is_set(id) == maps[p].is_set(id));
                    if ids.take(n).contains(id) {
                        let i = choose|i: int| 0 <= i < n && ids.take(n)[i] == id;
                        assert(ids.take(p)[i] == id);
                    }
                } else {
                    assert(ids.take(n)[p] == id);
                }
            }
        }
    }

    /// A parameter of a new table counts as set after a sequence of `set`
    /// calls exactly when one of them set it: `maps[k + 1]` is `maps[k]`
    /// after `set(ids[k], values[k])`.
    pub proof fn lemma_has_value_after_sets(maps: Seq<Self>, ids: Seq<ParameterId>, values: Seq<ParameterValue>)
        requires
            maps.len() == ids.len() + 1,
            values.len() == ids.len(),
            forall|k: int|
                0 <= k < ids.len() ==> Self::is_set_from(maps[k + 1], maps[k], #[trigger] ids[k], values[k]),
            forall|id: ParameterId| is_track_parameter(id) ==> !(#[trigger] maps[0].is_set(id)),
        ensures
            forall|id: ParameterId|
                is_track_parameter(id) ==> (#[trigger] maps[ids.len() as int].is_set(id) <==> ids.contains(id)),
    {
        Self::lemma_set_prefix(maps, ids, values, ids.len() as int);
        assert(ids.take(ids.len() as int) =~= ids);
    }
}

/// Copies into `destination` every parameter of `parameter_ids` that was set
/// in `source`; parameters not set in `source` keep their value in
/// `destination`.
pub fn copy_parameters(
    parameter_ids: &Vec<ParameterId>,
    source: &ParametersMap,
    destination: &mut ParametersMap,
)
    requires
        source.wf(),
        old(destination).wf(),
        forall|i: int| 0 <= i < parameter_ids@.len() ==> is_track_parameter(#[trigger] parameter_ids@[i]),
    ensures
        final(destination).wf(),
        forall|id: ParameterId|
            #![trigger final(destination).value(id)]
            #![trigger final(destination).is_set(id)]
            is_track_parameter(id) ==> if parameter_ids@.contains(id) && source.is_set(id) {
                &&& final(destination).value(id) == source.value(id).converted_to_kind_of(
                    old(destination).value(id),
                )
                &&& final(destination).is_set(id)
            } else {
                &&& final(destination).value(id) == old(destination).value(id)
                &&& final(destination).is_set(id) == old(destination).is_set(id)
            },
{
    let ghost ids = parameter_ids@;
    let mut i: usize = 0;
    while i < parameter_ids.len()
        invariant
            ids == parameter_ids@,
            i <= ids.len(),
            source.wf(),
            destination.wf(),
            forall|j: int| 0 <= j < ids.len() ==> is_track_parameter(#[trigger] ids[j]),
            forall|id: ParameterId|
                #![trigger destination.value(id)]
                #![trigger destination.is_set(id)]
                is_track_parameter(id) ==> if ids.take(i as int).contains(id) && source.is_set(id) {
                    &&& destination.value(id) == source.value(id).converted_to_kind_of(
                        old(destination).value(id),
                    )
                    &&& destination.is_set(id)
                } else {
                    &&& destination.value(id) == old(destination).value(id)
                    &&& destination.is_set(id) == old(destination).is_set(id)
                },
        decreases ids.len() - i,
    {
        let id = parameter_ids[i];
        let ghost before = *destination;
        if source.has_value(id) {
            let value = *source.get(id);
            destination.set(id, value);
            proof {
                lemma_conversion_depends_on_kind(value, before.value(id), old(destination).value(id));
            }
        }
        proof {
            assert forall|x: ParameterId|
                #[trigger] ids.take(i + 1).contains(x) <==> ids.take(i as int).contains(x) || x
                    == id by {
                if ids.take(i + 1).contains(x) {
                    let k = choose|k: int| 0 <= k < i + 1 && #[trigger] ids.take(i + 1)[k] == x;
                    if k < i {
                        assert(ids.take(i as int)[k] == x);
                    }
                }
                if ids.take(i as int).contains(x) {
                    let k = choose|k: int| 0 <= k < i && #[trigger] ids.take(i as int)[k] == x;
                    assert(ids.take(i + 1)[k] == x);
                }
                if x == id {
                    assert(ids.take(i + 1)[i as int] == x);
                }
            }
        }
        i = i + 1;
    }
    proof {
        assert(ids.take(ids.len() as int) =~= ids);
    }
}

} // verus!
