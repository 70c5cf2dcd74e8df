use std::collections::HashMap;
use vstd::prelude::*;

verus! {

broadcast use vstd::std_specs::hash::group_hash_axioms;

/// What a mapped MIDI message does to the looper.
#[derive(Debug, Copy, Clone, PartialEq, Eq, Structural)]
pub enum Action {
    SetRecording(bool),
    SetPlayback(bool),
    Clear,
}

/// A MIDI message kind: its status byte and its first data byte.
#[derive(Debug, Copy, Clone, PartialEq, Eq, Structural, Hash)]
pub struct MidiSpec {
    pub status: u8,
    pub number: u8,
}

impl MidiSpec {
    pub fn new(status: u8, number: u8) -> (r: Self)
        ensures
            r.status == status,
            r.number == number,
    {
        MidiSpec { status, number }
    }
}

/// The key under which a MIDI spec is stored.
pub open spec fn midi_spec_key(spec: MidiSpec) -> u16 {
    (spec.status * 256 + spec.number) as u16
}

/// Different specs are stored under different keys.
pub proof fn lemma_midi_spec_key_injective(a: MidiSpec, b: MidiSpec)
    ensures
        midi_spec_key(a) == midi_spec_key(b) <==> a == b,
{
}

fn midi_spec_key_of(spec: &MidiSpec) -> (r: u16)
    ensures
        r == midi_spec_key(*spec),
{
    (spec.status as u16) * 256 + (spec.number as u16)
}

/// The mappings that a list of entries makes, a later entry for a spec
/// replacing an earlier one.
pub open spec fn entries_map(entries: Seq<(MidiSpec, Action)>) -> Map<MidiSpec, Action>
    decreases entries.len(),
{
    if entries.len() == 0 {
        Map::empty()
    } else {
        entries_map(entries.drop_last()).insert(entries.last().0, entries.last().1)
    }
}

/// Entries whose specs all differ map each spec onto its action, and
/// nothing else.
pub proof fn lemma_entries_map_distinct(entries: Seq<(MidiSpec, Action)>)
    requires
        forall|i: int, j: int| 0 <= i < j < entries.len() ==> (#[trigger] entries[i]).0 != (#[trigger] entries[j]).0,
    ensures
        forall|i: int|
            0 <= i < entries.len() ==> entries_map(entries).contains_key((#[trigger] entries[i]).0)
                && entries_map(entries)[entries[i].0] == entries[i].1,
        forall|spec: MidiSpec|
            #[trigger] entries_map(entries).contains_key(spec) ==> exists|i: int|
                0 <= i < entries.len() && (#[trigger] entries[i]).0 == spec,
    decreases entries.len(),
{
    if entries.len() > 0 {
        let init = entries.drop_last();
        assert forall|i: int, j: int| 0 <= i < j < init.len() implies (#[trigger] init[i]).0 != (#[trigger] init[j]).0 by {
            assert(init[i] == entries[i] && init[j] == entries[j]);
        }
        lemma_entries_map_distinct(init);
        assert forall|i: int|
            0 <= i < entries.len() implies entries_map(entries).contains_key((#[trigger] entries[i]).0)
            && entries_map(entries)[entries[i].0] == entries[i].1 by {
            if i < entries.len() - 1 {
                assert(init[i] == entries[i]);
                assert(entries[i].0 != entries[entries.len() - 1].0);
            }
        }
        assert forall|spec: MidiSpec|
            #[trigger] entries_map(entries).contains_key(spec) implies exists|i: int|
                0 <= i < entries.len() && (#[trigger] entries[i]).0 == spec by {
            if spec != entries.last().0 {
                assert(entries_map(init).contains_key(spec));
                let i = choose|i: int| 0 <= i < init.len() && (#[trigger] init[i]).0 == spec;
                assert(entries[i] == init[i]);
            } else {
                assert(entries[entries.len() - 1].0 == spec);
            }
        }
    }
}

/// The actions mapped onto MIDI messages.
pub struct MidiMap {
    store: HashMap<u16, Action>,
}

impl View for MidiMap {
    type V = Map<MidiSpec, Action>;

    closed spec fn view(&self) -> Map<MidiSpec, Action> {
        Map::new(
            |spec: MidiSpec| self.store@.contains_key(midi_spec_key(spec)),
            |spec: MidiSpec| self.store@[midi_spec_key(spec)],
        )
    }
}

impl MidiMap {
    /// An empty map.
    pub fn new() -> (r: Self)
        ensures
            r@ == Map::<MidiSpec, Action>::empty(),
    {
        let r = MidiMap { store: HashMap::new() };
        assert(r@ =~= Map::<MidiSpec, Action>::empty());
        r
    }

    /// Maps `spec` onto `action`, replacing what it was mapped onto.
    pub fn add(&mut self, spec: MidiSpec, action: Action)
        ensures
            final(self)@ == old(self)@.insert(spec, action),
    {
        let key = midi_spec_key_of(&spec);
        self.store.insert(key, action);
        proof {
            assert forall|s: MidiSpec| #[trigger] self@.contains_key(s) == old(self)@.insert(
                spec,
                action,
            ).contains_key(s) by {
                lemma_midi_spec_key_injective(s, spec);
            }
            assert forall|s: MidiSpec| #[trigger] self@.contains_key(s) implies self@[s] == old(self)@.insert(spec, action)[s] by {
                lemma_midi_spec_key_injective(s, spec);
            }
            assert(self@ =~= old(self)@.insert(spec, action));
        }
    }

    /// The action mapped onto `spec`, if any.
    pub fn get(&self, spec: &MidiSpec) -> (r: Option<Action>)
        ensures
            r == (if self@.contains_key(*spec) {
                Some(self@[*spec])
            } else {
                None
            }),
    {
        let key = midi_spec_key_of(spec);
        match self.store.get(&key) {
            Some(a) => Some(*a),
            None => None,
        }
    }

    /// Whether nothing is mapped.
    pub fn is_empty(&self) -> (r: bool)
        ensures
            r == (self@ == Map::<MidiSpec, Action>::empty()),
    {
        let r = self.store.is_empty();
        proof {
            if r {
                assert(self.store@ =~= Map::<u16, Action>::empty());
                assert(self@ =~= Map::<MidiSpec, Action>::empty());
            } else {
                let k = choose|k: u16| self.store@.contains_key(k);
                let spec = MidiSpec { status: (k / 256) as u8, number: (k % 256) as u8 };
                assert(midi_spec_key(spec) == k);
                assert(self@.contains_key(spec));
            }
        }
        r
    }

    /// The mappings, by increasing key, for saving.
    pub fn entries(&self) -> (r: Vec<(MidiSpec, Action)>)
        ensures
            forall|i: int|
                0 <= i < r@.len() ==> self@.contains_key((#[trigger] r@[i]).0) && self@[r@[i].0]
                    == r@[i].1,
            forall|spec: MidiSpec|
                #[trigger] self@.contains_key(spec) ==> exists|i: int|
                    0 <= i < r@.len() && (#[trigger] r@[i]).0 == spec,
            forall|i: int, j: int|
                0 <= i < j < r@.len() ==> midi_spec_key((#[trigger] r@[i]).0) < midi_spec_key(
                    (#[trigger] r@[j]).0,
                ),
    {
        let mut r: Vec<(MidiSpec, Action)> = Vec::new();
        let mut k: u32 = 0;
        while k < 65536
            invariant
                k <= 65536,
                forall|i: int|
                    0 <= i < r@.len() ==> self@.contains_key((#[trigger] r@[i]).0) && self@[r@[i].0]
                        == r@[i].1 && midi_spec_key(r@[i].0) < k,
                forall|spec: MidiSpec|
                    #[trigger] self@.contains_key(spec) && midi_spec_key(spec) < k ==> exists|i: int|
                        0 <= i < r@.len() && (#[trigger] r@[i]).0 == spec,
                forall|i: int, j: int|
                    0 <= i < j < r@.len() ==> midi_spec_key((#[trigger] r@[i]).0) < midi_spec_key(
                        (#[trigger] r@[j]).0,
                    ),
            decreases 65536 - k,
        {
            let key: u16 = k as u16;
            let spec = MidiSpec { status: (k / 256) as u8, number: (k % 256) as u8 };
            assert(midi_spec_key(spec) == key);
            match self.store.get(&key) {
                Some(a) => {
                    let ghost before = r@;
                    r.push((spec, *a));
                    proof {
                        assert(self@.contains_key(spec));
                        assert forall|s2: MidiSpec|
                            #[trigger] self@.contains_key(s2) && midi_spec_key(s2) < k + 1 implies exists|i: int|
                                0 <= i < r@.len() && (#[trigger] r@[i]).0 == s2 by {
                            if midi_spec_key(s2) == key {
                                lemma_midi_spec_key_injective(s2, spec);
                                assert(r@[r@.len() - 1].0 == s2);
                            } else {
                                let i = choose|i: int| 0 <= i < before.len() && (#[trigger] before[i]).0 == s2;
                                assert(r@[i].0 == s2);
                            }
                        }
                    }
                },
                None => {
                    proof {
                        assert forall|s2: MidiSpec|
                            #[trigger] self@.contains_key(s2) && midi_spec_key(s2) < k + 1 implies exists|i: int|
                                0 <= i < r@.len() && (#[trigger] r@[i]).0 == s2 by {
                            if midi_spec_key(s2) == key {
                                lemma_midi_spec_key_injective(s2, spec);
                            }
                        }
                    }
                },
            }
            k = k + 1;
        }
        r
    }

    /// Maps each spec of `entries` onto its action, in order (a later
    /// mapping of a spec replaces an earlier one).
    pub fn add_entries(&mut self, entries: &Vec<(MidiSpec, Action)>)
        ensures
            final(self)@ == old(self)@.union_prefer_right(entries_map(entries@)),
    {
        let mut i: usize = 0;
        while i < entries.len()
            invariant
                i <= entries@.len(),
                self@ == old(self)@.union_prefer_right(entries_map(entries@.take(i as int))),
            decreases entries@.len() - i,
        {
            let (spec, action) = entries[i];
            self.add(spec, action);
            proof {
                assert(entries@.take(i + 1).drop_last() =~= entries@.take(i as int));
                assert(entries@.take(i + 1).last() == (spec, action));
                assert(self@ =~= old(self)@.union_prefer_right(entries_map(entries@.take(i + 1))));
            }
            i = i + 1;
        }
        proof {
            assert(entries@.take(entries@.len() as int) =~= entries@);
        }
    }

}

} // verus!
