use vstd::prelude::*;

verus! {

/// The last value received for one controller on one channel.
#[derive(Debug, Clone, Copy, PartialEq, Eq, Structural)]
pub struct MidiStoreValue {
    pub channel: u8,
    pub controller_number: u8,
    pub value: u8,
}

/// The number of channels and of controllers per channel that are stored.
pub const MIDI_STORE_SIZE: usize = 256usize;

/// The last value of every MIDI control change controller, by channel.
pub struct MidiStoreHandle {
    /// `cc_store[channel * 256 + controller]`.
    cc_store: Vec<Option<u8>>,
}

/// A control change message: its channel, controller and value.
#[derive(Debug, Clone, Copy, PartialEq, Eq, Structural)]
pub struct ControlChange {
    pub channel: u8,
    pub controller_number: u8,
    pub value: u8,
}

/// The control change that `bytes` holds: a status byte `0xB0`-`0xBF`
/// (the channel in its low four bits) followed by the controller number and
/// the value. Any other message holds none.
pub open spec fn control_change_of(bytes: Seq<u8>) -> Option<ControlChange> {
    if bytes.len() >= 3 && 0xB0 <= bytes[0] && bytes[0] <= 0xBF {
        Some(
            ControlChange {
                channel: (bytes[0] - 0xB0) as u8,
                controller_number: bytes[1],
                value: bytes[2],
            },
        )
    } else {
        None
    }
}

/// Reads the control change a MIDI message holds, if it holds one.
pub fn parse_control_change(bytes: &[u8]) -> (r: Option<ControlChange>)
    ensures
        r == control_change_of(bytes@),
{
    if bytes.len() >= 3 && 0xB0 <= bytes[0] && bytes[0] <= 0xBF {
        Some(
            ControlChange { channel: bytes[0] - 0xB0, controller_number: bytes[1], value: bytes[2] },
        )
    } else {
        None
    }
}

/// Every three-byte message with a status byte `0xB0`-`0xBF` is a control
/// change, whatever its controller number and value (a value of `0`, such
/// as a released pedal, included); its channel is the status byte's low
/// four bits. After such a message the store holds its value for its
/// channel and controller, whatever an earlier message stored there.
pub proof fn lemma_every_control_change_is_stored(
    slots: Seq<Option<u8>>,
    earlier: Seq<u8>,
    channel: u8,
    controller_number: u8,
    value: u8,
)
    requires
        channel < 16,
        slots.len() == 65536,
    ensures
        control_change_of(seq![(0xB0 + channel) as u8, controller_number, value]) == Some(
            ControlChange { channel, controller_number, value },
        ),
        slots_after_event(
            slots_after_event(slots, earlier),
            seq![(0xB0 + channel) as u8, controller_number, value],
        )[channel * 256 + controller_number] == Some(value),
{
    let msg = seq![(0xB0 + channel) as u8, controller_number, value];
    assert(msg.len() == 3 && msg[0] == (0xB0 + channel) as u8 && msg[1] == controller_number
        && msg[2] == value);
    let mid = slots_after_event(slots, earlier);
    assert(mid.len() == slots.len());
}

/// The stored values of the first `upto` slots, in slot order.
pub open spec fn stored_values(store: Seq<Option<u8>>, upto: int) -> Seq<MidiStoreValue>
    decreases upto,
{
    if upto <= 0 {
        Seq::empty()
    } else {
        let before = stored_values(store, upto - 1);
        let k = upto - 1;
        match store[k] {
            Some(v) => before.push(
                MidiStoreValue {
                    channel: (k / 256) as u8,
                    controller_number: (k % 256) as u8,
                    value: v,
                },
            ),
            None => before,
        }
    }
}

/// The slots after one message.
pub open spec fn slots_after_event(slots: Seq<Option<u8>>, bytes: Seq<u8>) -> Seq<Option<u8>> {
    match control_change_of(bytes) {
        Some(cc) => slots.update(cc.channel * 256 + cc.controller_number, Some(cc.value)),
        None => slots,
    }
}

/// The slots after the first `n` messages, in order.
pub open spec fn slots_after_events(slots: Seq<Option<u8>>, messages: Seq<Seq<u8>>, n: int) -> Seq<
    Option<u8>,
>
    decreases n,
{
    if n <= 0 {
        slots
    } else {
        slots_after_event(slots_after_events(slots, messages, n - 1), messages[n - 1])
    }
}

/// Slots that hold a single value list just that value.
pub proof fn lemma_one_stored_value(slots: Seq<Option<u8>>, k: int, v: u8, upto: int)
    requires
        0 <= k < slots.len(),
        upto <= slots.len(),
        slots[k] == Some(v),
        forall|j: int| 0 <= j < slots.len() && j != k ==> #[trigger] slots[j] is None,
    ensures
        stored_values(slots, upto) == (if upto <= k {
            Seq::<MidiStoreValue>::empty()
        } else {
            seq![MidiStoreValue { channel: (k / 256) as u8, controller_number: (k % 256) as u8, value: v }]
        }),
    decreases upto,
{
    if upto > 0 {
        lemma_one_stored_value(slots, k, v, upto - 1);
        if upto - 1 == k {
            assert(Seq::<MidiStoreValue>::empty().push(
                MidiStoreValue { channel: (k / 256) as u8, controller_number: (k % 256) as u8, value: v },
            ) =~= seq![MidiStoreValue { channel: (k / 256) as u8, controller_number: (k % 256) as u8, value: v }]);
        }
    }
}

/// A new store that has been given one control change lists exactly that
/// value.
pub proof fn lemma_store_one_control_change(store: MidiStoreHandle, after: MidiStoreHandle, bytes: Seq<u8>)
    requires
        store.slots().len() == 65536,
        forall|k: int| 0 <= k < store.slots().len() ==> #[trigger] store.slots()[k] is None,
        after.slots() == slots_after_event(store.slots(), bytes),
        control_change_of(bytes) is Some,
    ensures
        ({
            let cc = control_change_of(bytes)->Some_0;
            stored_values(after.slots(), after.slots().len() as int) == seq![
                MidiStoreValue { channel: cc.channel, controller_number: cc.controller_number, value: cc.value },
            ]
        }),
{
    let cc = control_change_of(bytes)->Some_0;
    let k = cc.channel * 256 + cc.controller_number;
    assert(cc.channel <= 15);
    assert(k / 256 == cc.channel && k % 256 == cc.controller_number);
    lemma_one_stored_value(after.slots(), k, cc.value, 65536);
}

impl MidiStoreHandle {
    /// One slot for each controller of each channel.
    pub open spec fn wf(self) -> bool {
        self.slots().len() == MIDI_STORE_SIZE * MIDI_STORE_SIZE
    }

    /// The value stored for a controller on a channel.
    pub open spec fn stored(self, channel: int, controller_number: int) -> Option<u8> {
        self.slots()[channel * 256 + controller_number]
    }

    /// The slots, `channel * 256 + controller` each.
    pub closed spec fn slots(self) -> Seq<Option<u8>> {
        self.cc_store@
    }

    /// A store without values.
    pub fn new() -> (r: Self)
        ensures
            r.wf(),
            r.slots().len() == 65536,
            forall|k: int| 0 <= k < r.slots().len() ==> #[trigger] r.slots()[k] is None,
    {
        let mut cc_store: Vec<Option<u8>> = Vec::new();
        let mut i: usize = 0;
        while i < MIDI_STORE_SIZE * MIDI_STORE_SIZE
            invariant
                i <= MIDI_STORE_SIZE * MIDI_STORE_SIZE,
                cc_store@.len() == i,
                forall|k: int| 0 <= k < i ==> #[trigger] cc_store@[k] is None,
            decreases MIDI_STORE_SIZE * MIDI_STORE_SIZE - i,
        {
            cc_store.push(None);
            i = i + 1;
        }
        MidiStoreHandle { cc_store }
    }

    /// Every stored value, by channel then controller.
    pub fn values(&self) -> (r: Vec<MidiStoreValue>)
        requires
            self.wf(),
        ensures
            r@ == stored_values(self.slots(), self.slots().len() as int),
    {
        let mut r: Vec<MidiStoreValue> = Vec::new();
        let mut k: usize = 0;
        while k < self.cc_store.len()
            invariant
                self.wf(),
                k <= self.cc_store@.len(),
                r@ == stored_values(self.cc_store@, k as int),
            decreases self.cc_store@.len() - k,
        {
            match self.cc_store[k] {
                Some(v) => {
                    r.push(
                        MidiStoreValue {
                            channel: (k / 256) as u8,
                            controller_number: (k % 256) as u8,
                            value: v,
                        },
                    );
                },
                None => {},
            }
            k = k + 1;
        }
        r
    }

    /// Stores the value of the control change that `bytes` holds; any other
    /// message changes nothing.
    pub fn process_event(&mut self, bytes: &[u8])
        requires
            old(self).wf(),
        ensures
            final(self).wf(),
            final(self).slots() == slots_after_event(old(self).slots(), bytes@),
    {
        if let Some(cc) = parse_control_change(bytes) {
            let index = (cc.channel as usize) * 256 + (cc.controller_number as usize);
            self.cc_store.set(index, Some(cc.value));
        }
    }

    /// Processes each message in turn.
    pub fn process_midi_events(&mut self, messages: &Vec<Vec<u8>>)
        requires
            old(self).wf(),
        ensures
            final(self).wf(),
            final(self).slots() == slots_after_events(
                old(self).slots(),
                messages@.map_values(|m: Vec<u8>| m@),
                messages@.len() as int,
            ),
    {
        let ghost msgs = messages@.map_values(|m: Vec<u8>| m@);
        let mut i: usize = 0;
        while i < messages.len()
            invariant
                self.wf(),
                i <= messages@.len(),
                msgs == messages@.map_values(|m: Vec<u8>| m@),
                self.slots() == slots_after_events(old(self).slots(), msgs, i as int),
            decreases messages@.len() - i,
        {
            self.process_event(messages[i].as_slice());
            assert(msgs[i as int] == messages@[i as int]@);
            i = i + 1;
        }
    }
}

} // verus!
