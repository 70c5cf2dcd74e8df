use vstd::prelude::*;

use crate::parameters::{
    build_parameter_ids, is_track_parameter, lemma_parameter_ids_complete, parameter_ids,
    ParameterId, F32_BITS_ONE, F32_BITS_ZERO, NUM_PARAMETERS,
};
use crate::parameters_map::{build_parameter_indexes, indexes_last_positions, ParameterIndexes};

verus! {

/// The settings of one LFO of a track: its amount, its frequency and how
/// strongly it modulates each parameter. Every float is held by its `f32`
/// bit pattern.
pub struct LFOHandle {
    amount: u32,
    frequency: u32,
    values: Vec<u32>,
    indexes: ParameterIndexes,
}

impl LFOHandle {
    /// One modulation amount for each track parameter.
    pub closed spec fn wf(self) -> bool {
        &&& self.values@.len() == parameter_ids().len()
        &&& indexes_last_positions(self.indexes@, parameter_ids())
    }

    /// The bit pattern of the LFO amount.
    pub closed spec fn spec_amount(self) -> u32 {
        self.amount
    }

    /// The bit pattern of the LFO frequency.
    pub closed spec fn spec_frequency(self) -> u32 {
        self.frequency
    }

    /// The bit pattern of the amount by which this LFO modulates `id`.
    pub closed spec fn spec_modulation(self, id: ParameterId) -> u32 {
        self.values@[self.indexes@[id] as int]
    }

    /// An LFO with amount and frequency `1.0` that modulates nothing.
    pub fn new() -> (r: Self)
        ensures
            r.wf(),
            r.spec_amount() == F32_BITS_ONE,
            r.spec_frequency() == F32_BITS_ONE,
            forall|id: ParameterId| #[trigger]
                is_track_parameter(id) ==> r.spec_modulation(id) == F32_BITS_ZERO,
    {
        proof {
            lemma_parameter_ids_complete();
        }
        let ids = build_parameter_ids();
        let mut values: Vec<u32> = Vec::new();
        let mut i: usize = 0;
        while i < ids.len()
            invariant
                i <= ids@.len(),
                values@.len() == i,
                forall|j: int| 0 <= j < i ==> values@[j] == F32_BITS_ZERO,
            decreases ids@.len() - i,
        {
            values.push(F32_BITS_ZERO);
            i = i + 1;
        }
        let indexes = build_parameter_indexes(&ids);
        let r = LFOHandle { amount: F32_BITS_ONE, frequency: F32_BITS_ONE, values, indexes };
        proof {
            assert forall|id: ParameterId| #[trigger]
                is_track_parameter(id) implies r.spec_modulation(id) == F32_BITS_ZERO by {
                assert(parameter_ids().contains(id));
            }
        }
        r
    }

    /// The bit pattern of the LFO amount.
    pub fn amount(&self) -> (r: u32)
        ensures
            r == self.spec_amount(),
    {
        self.amount
    }

    /// The bit pattern of the LFO frequency.
    pub fn frequency(&self) -> (r: u32)
        ensures
            r == self.spec_frequency(),
    {
        self.frequency
    }

    /// Sets the LFO amount; nothing else changes.
    pub fn set_amount(&mut self, value: u32)
        ensures
            final(self).spec_amount() == value,
            final(self).spec_frequency() == old(self).spec_frequency(),
            old(self).wf() ==> final(self).wf(),
            forall|id: ParameterId| #[trigger] final(self).spec_modulation(id) == old(self).spec_modulation(id),
    {
        self.amount = value;
    }

    /// Sets the LFO frequency; nothing else changes.
    pub fn set_frequency(&mut self, value: u32)
        ensures
            final(self).spec_frequency() == value,
            final(self).spec_amount() == old(self).spec_amount(),
            old(self).wf() ==> final(self).wf(),
            forall|id: ParameterId| #[trigger] final(self).spec_modulation(id) == old(self).spec_modulation(id),
    {
        self.frequency = value;
    }

    /// The bit pattern of the amount by which this LFO modulates `id`.
    pub fn modulation_amount(&self, parameter_id: &ParameterId) -> (r: u32)
        requires
            self.wf(),
            is_track_parameter(*parameter_id),
        ensures
            r == self.spec_modulation(*parameter_id),
    {
        proof {
            lemma_parameter_ids_complete();
        }
        let index = self.indexes.get(parameter_id).unwrap();
        self.values[index]
    }

    /// Maps this LFO onto `parameter_id` with the given amount, or unmaps it
    /// (amount `0.0`) on `None`. Every other mapping is unchanged.
    pub fn set_parameter_map(&mut self, parameter_id: ParameterId, amount: Option<u32>)
        requires
            old(self).wf(),
            is_track_parameter(parameter_id),
        ensures
            final(self).wf(),
            final(self).spec_modulation(parameter_id) == match amount {
                Some(a) => a,
                None => F32_BITS_ZERO,
            },
            final(self).spec_amount() == old(self).spec_amount(),
            final(self).spec_frequency() == old(self).spec_frequency(),
            forall|other: ParameterId|
                is_track_parameter(other) && other != parameter_id ==> #[trigger] final(self).spec_modulation(other)
                    == old(self).spec_modulation(other),
    {
        proof {
            lemma_parameter_ids_complete();
        }
        let index = self.indexes.get(&parameter_id).unwrap();
        match amount {
            Some(a) => self.values.set(index, a),
            None => self.values.set(index, F32_BITS_ZERO),
        }
        proof {
            assert forall|other: ParameterId|
                is_track_parameter(other) && other != parameter_id implies #[trigger] self.indexes@[other]
                != index by {
                assert(parameter_ids().contains(other));
            }
        }
    }

    /// The modulation amounts of the track parameters, in the order of
    /// `parameter_ids()`, for saving.
    pub open spec fn saved_modulations(self) -> Seq<u32> {
        Seq::new(parameter_ids().len(), |k: int| self.spec_modulation(parameter_ids()[k]))
    }

    /// The modulation amounts, for saving (see `saved_modulations`).
    pub fn modulations(&self) -> (r: Vec<u32>)
        requires
            self.wf(),
        ensures
            r@ == self.saved_modulations(),
    {
        proof {
            lemma_parameter_ids_complete();
        }
        let ids = build_parameter_ids();
        let mut r: Vec<u32> = Vec::new();
        let mut k: usize = 0;
        while k < ids.len()
            invariant
                self.wf(),
                ids@ == parameter_ids(),
                k <= ids@.len(),
                r@.len() == k,
                forall|j: int| 0 <= j < k ==> #[trigger] r@[j] == self.saved_modulations()[j],
            decreases ids@.len() - k,
        {
            r.push(self.modulation_amount(&ids[k]));
            k = k + 1;
        }
        proof {
            assert(r@ =~= self.saved_modulations());
        }
        r
    }

    /// Maps this LFO onto each track parameter with the saved amount (the
    /// order of `parameter_ids()`); amount and frequency are unchanged.
    pub fn restore_modulations(&mut self, saved: &Vec<u32>)
        requires
            old(self).wf(),
            saved@.len() == NUM_PARAMETERS,
        ensures
            final(self).wf(),
            final(self).saved_modulations() == saved@,
            final(self).spec_amount() == old(self).spec_amount(),
            final(self).spec_frequency() == old(self).spec_frequency(),
    {
        proof {
            lemma_parameter_ids_complete();
        }
        let ids = build_parameter_ids();
        let mut k: usize = 0;
        while k < ids.len()
            invariant
                self.wf(),
                ids@ == parameter_ids(),
                parameter_ids().no_duplicates(),
                saved@.len() == ids@.len(),
                k <= ids@.len(),
                self.spec_amount() == old(self).spec_amount(),
                self.spec_frequency() == old(self).spec_frequency(),
                forall|j: int|
                    0 <= j < k ==> #[trigger] self.spec_modulation(parameter_ids()[j]) == saved@[j],
            decreases ids@.len() - k,
        {
            let ghost before = *self;
            self.set_parameter_map(ids[k], Some(saved[k]));
            proof {
                assert forall|j: int| 0 <= j < k implies #[trigger] self.spec_modulation(parameter_ids()[j])
                    == saved@[j] by {
                    assert(parameter_ids()[j] != parameter_ids()[k as int]);
                    assert(before.spec_modulation(parameter_ids()[j]) == saved@[j]);
                }
            }
            k = k + 1;
        }
        proof {
            assert(self.saved_modulations() =~= saved@);
        }
    }

    /// Two LFOs with the same saved modulations modulate every track
    /// parameter by the same amount.
    pub proof fn lemma_same_modulations(a: Self, b: Self)
        requires
            a.saved_modulations() == b.saved_modulations(),
        ensures
            forall|id: ParameterId| #[trigger]
                is_track_parameter(id) ==> a.spec_modulation(id) == b.spec_modulation(id),
    {
        lemma_parameter_ids_complete();
        assert forall|id: ParameterId| #[trigger] is_track_parameter(id) implies a.spec_modulation(id)
            == b.spec_modulation(id) by {
            assert(parameter_ids().contains(id));
            let k = choose|k: int| 0 <= k < parameter_ids().len() && parameter_ids()[k] == id;
            assert(a.saved_modulations()[k] == a.spec_modulation(parameter_ids()[k]));
            assert(b.saved_modulations()[k] == b.spec_modulation(parameter_ids()[k]));
            assert(a.saved_modulations()[k] == b.saved_modulations()[k]);
        }
    }
}

} // verus!
