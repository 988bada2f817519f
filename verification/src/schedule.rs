//! The slot schedule: which node sends to which node in each slot of a slotframe.
use vstd::prelude::*;
use crate::codec::{
    be_bytes, be_value, lemma_be_bytes_len, lemma_be_roundtrip, lemma_be_value_bound,
    lemma_pow256_values, read_be, splice, write_be,
};
use crate::config::{ANY_NODE, ORCHESTRATOR_ID, SLOTFRAME_SIZE};

verus! {

/// What a slot is used for.
#[derive(Clone, Copy, Debug, PartialEq, Eq, Structural)]
pub enum SlotType {
    /// Nobody transmits.
    Idle,
    /// One fixed sender transmits to one fixed receiver.
    Dedicate,
    /// A contended slot, typically with `ANY_NODE` on one side.
    Shared,
}

/// The byte that stands for a slot type on the wire.
pub open spec fn slot_type_byte(t: SlotType) -> u8 {
    match t {
        SlotType::Idle => 0,
        SlotType::Dedicate => 1,
        SlotType::Shared => 2,
    }
}

/// The slot type that a byte below 3 stands for.
pub open spec fn slot_type_of_byte(b: u8) -> SlotType {
    if b == 0 {
        SlotType::Idle
    } else if b == 1 {
        SlotType::Dedicate
    } else {
        SlotType::Shared
    }
}

impl SlotType {
    /// The slot type with wire value `value` (0 idle, 1 dedicated, 2 shared).
    pub fn from_byte(value: u8) -> (t: SlotType)
        requires
            value < 3,
        ensures
            t == slot_type_of_byte(value),
            slot_type_byte(t) == value,
    {
        match value {
            0 => SlotType::Idle,
            1 => SlotType::Dedicate,
            _ => SlotType::Shared,
        }
    }

    /// The wire value of this slot type.
    pub fn to_byte(&self) -> (b: u8)
        ensures
            b == slot_type_byte(*self),
            b < 3,
    {
        match self {
            SlotType::Idle => 0,
            SlotType::Dedicate => 1,
            SlotType::Shared => 2,
        }
    }
}

/// One slot of a slotframe.
#[derive(Clone, Copy, Debug, PartialEq, Eq, Structural)]
pub struct Slot {
    pub slot_type: SlotType,
    pub slot_number: u32,
    pub sender: u32,
    pub receiver: u32,
}

impl Slot {
    pub fn new(slot_type: SlotType, slot_number: u32, sender: u32, receiver: u32) -> (s: Self)
        ensures
            s == (Slot { slot_type, slot_number, sender, receiver }),
    {
        Slot { slot_type, slot_number, sender, receiver }
    }

    /// An idle slot; its sender and receiver are both 0.
    pub fn new_idle(slot_number: u32) -> (s: Self)
        ensures
            s == (Slot { slot_type: SlotType::Idle, slot_number, sender: 0, receiver: 0 }),
    {
        Self::new(SlotType::Idle, slot_number, 0, 0)
    }

    pub fn new_dedicate(slot_number: u32, sender: u32, receiver: u32) -> (s: Self)
        ensures
            s == (Slot { slot_type: SlotType::Dedicate, slot_number, sender, receiver }),
    {
        Self::new(SlotType::Dedicate, slot_number, sender, receiver)
    }

    pub fn new_shared(slot_number: u32, sender: u32, receiver: u32) -> (s: Self)
        ensures
            s == (Slot { slot_type: SlotType::Shared, slot_number, sender, receiver }),
    {
        Self::new(SlotType::Shared, slot_number, sender, receiver)
    }
}

/// Bytes of one encoded slot.
pub const SLOT_WIRE_SIZE: usize = 13;

/// Bytes of one encoded schedule.
pub const SCHEDULE_WIRE_SIZE: usize = 130;

/// The wire form of a slot: type byte, then slot number, sender and receiver,
/// each four bytes big-endian.
pub open spec fn slot_bytes(s: Slot) -> Seq<u8> {
    seq![slot_type_byte(s.slot_type)] + be_bytes(s.slot_number as nat, 4) + be_bytes(
        s.sender as nat,
        4,
    ) + be_bytes(s.receiver as nat, 4)
}

/// The slot that 13 wire bytes stand for (the type byte must be below 3).
pub open spec fn slot_of_bytes(b: Seq<u8>) -> Slot {
    Slot {
        slot_type: slot_type_of_byte(b[0]),
        slot_number: be_value(b.subrange(1, 5)) as u32,
        sender: be_value(b.subrange(5, 9)) as u32,
        receiver: be_value(b.subrange(9, 13)) as u32,
    }
}

/// The wire form of a sequence of slots: their encodings one after another.
pub open spec fn slots_bytes(slots: Seq<Slot>) -> Seq<u8>
    decreases slots.len(),
{
    if slots.len() == 0 {
        Seq::empty()
    } else {
        slots_bytes(slots.drop_last()) + slot_bytes(slots.last())
    }
}

/// Every slot-type byte in a run of `count` encoded slots is a valid one.
pub open spec fn slot_type_bytes_valid(b: Seq<u8>, count: nat) -> bool {
    forall|i: int| 0 <= i < count ==> #[trigger] b[i * 13] < 3
}

/// The slots that a run of encoded slots stands for.
pub open spec fn slots_of_bytes(b: Seq<u8>, count: nat) -> Seq<Slot> {
    Seq::new(count, |i: int| slot_of_bytes(b.subrange(i * 13, i * 13 + 13)))
}

pub proof fn lemma_slot_bytes_len(s: Slot)
    ensures
        slot_bytes(s).len() == 13,
{
    lemma_be_bytes_len(s.slot_number as nat, 4);
    lemma_be_bytes_len(s.sender as nat, 4);
    lemma_be_bytes_len(s.receiver as nat, 4);
}

/// Decoding the wire form of a slot gives the slot back.
pub proof fn lemma_slot_roundtrip(s: Slot)
    ensures
        slot_of_bytes(slot_bytes(s)) == s,
        slot_bytes(s)[0] < 3,
        slot_bytes(s).len() == 13,
{
    lemma_pow256_values();
    lemma_be_roundtrip(s.slot_number as nat, 4);
    lemma_be_roundtrip(s.sender as nat, 4);
    lemma_be_roundtrip(s.receiver as nat, 4);
    let b = slot_bytes(s);
    assert(b.subrange(1, 5) =~= be_bytes(s.slot_number as nat, 4));
    assert(b.subrange(5, 9) =~= be_bytes(s.sender as nat, 4));
    assert(b.subrange(9, 13) =~= be_bytes(s.receiver as nat, 4));
}

pub proof fn lemma_slots_bytes_len(slots: Seq<Slot>)
    ensures
        slots_bytes(slots).len() == 13 * slots.len(),
    decreases slots.len(),
{
    if slots.len() > 0 {
        lemma_slots_bytes_len(slots.drop_last());
        lemma_slot_bytes_len(slots.last());
    }
}

/// The `i`th 13-byte chunk of the wire form of `slots` is the wire form of `slots[i]`.
pub proof fn lemma_slots_bytes_chunk(slots: Seq<Slot>, i: int)
    requires
        0 <= i < slots.len(),
    ensures
        slots_bytes(slots).subrange(i * 13, i * 13 + 13) == slot_bytes(slots[i]),
    decreases slots.len(),
{
    let init = slots.drop_last();
    lemma_slots_bytes_len(init);
    lemma_slot_bytes_len(slots.last());
    if i < slots.len() - 1 {
        lemma_slots_bytes_chunk(init, i);
        assert(slots_bytes(slots).subrange(i * 13, i * 13 + 13) =~= slots_bytes(init).subrange(
            i * 13,
            i * 13 + 13,
        ));
    } else {
        assert(slots_bytes(slots).subrange(i * 13, i * 13 + 13) =~= slot_bytes(slots.last()));
    }
}

/// Decoding the wire form of a sequence of slots gives the slots back.
pub proof fn lemma_slots_roundtrip(slots: Seq<Slot>)
    ensures
        slots_of_bytes(slots_bytes(slots), slots.len()) == slots,
        slot_type_bytes_valid(slots_bytes(slots), slots.len()),
        slots_bytes(slots).len() == 13 * slots.len(),
{
    lemma_slots_bytes_len(slots);
    let b = slots_bytes(slots);
    assert forall|i: int| 0 <= i < slots.len() implies #[trigger] b[i * 13] < 3
        && slot_of_bytes(b.subrange(i * 13, i * 13 + 13)) == slots[i] by {
        lemma_slots_bytes_chunk(slots, i);
        lemma_slot_roundtrip(slots[i]);
        assert(b[i * 13] == b.subrange(i * 13, i * 13 + 13)[0]);
    }
    assert(slots_of_bytes(b, slots.len()) =~= slots);
}

impl Slot {
    /// Writes the wire form of this slot at `off`.
    pub fn write_to(&self, buf: &mut Vec<u8>, off: usize)
        requires
            off + 13 <= old(buf)@.len(),
        ensures
            final(buf)@ == splice(old(buf)@, off as int, slot_bytes(*self)),
    {
        let ghost start = buf@;
        let _len = buf.len();
        let t = self.slot_type.to_byte();
        buf.set(off, t);
        write_be(buf, off + 1, self.slot_number as u64, 4);
        write_be(buf, off + 5, self.sender as u64, 4);
        write_be(buf, off + 9, self.receiver as u64, 4);
        proof {
            lemma_be_bytes_len(self.slot_number as nat, 4);
            lemma_be_bytes_len(self.sender as nat, 4);
            lemma_be_bytes_len(self.receiver as nat, 4);
            assert(buf@ =~= splice(start, off as int, slot_bytes(*self)));
        }
    }

    /// Reads the slot whose wire form starts at `off`.
    pub fn read_from(bytes: &[u8], off: usize) -> (s: Slot)
        requires
            off + 13 <= bytes@.len(),
            bytes@[off as int] < 3,
        ensures
            s == slot_of_bytes(bytes@.subrange(off as int, off + 13)),
    {
        proof {
            lemma_pow256_values();
            lemma_be_value_bound(bytes@.subrange(off + 1, off + 5));
            lemma_be_value_bound(bytes@.subrange(off + 5, off + 9));
            lemma_be_value_bound(bytes@.subrange(off + 9, off + 13));
        }
        let t = SlotType::from_byte(bytes[off]);
        let number = read_be(bytes, off + 1, 4) as u32;
        let sender = read_be(bytes, off + 5, 4) as u32;
        let receiver = read_be(bytes, off + 9, 4) as u32;
        let ghost b = bytes@.subrange(off as int, off + 13);
        assert(b.subrange(1, 5) =~= bytes@.subrange(off + 1, off + 5));
        assert(b.subrange(5, 9) =~= bytes@.subrange(off + 5, off + 9));
        assert(b.subrange(9, 13) =~= bytes@.subrange(off + 9, off + 13));
        Slot { slot_type: t, slot_number: number, sender, receiver }
    }
}

/// The slots of one slotframe.
pub struct Schedule {
    pub slots: [Slot; SLOTFRAME_SIZE],
}

impl Schedule {
    /// A schedule in which every slot is idle, numbered by its position.
    pub fn default() -> (s: Self)
        ensures
            s.slots@.len() == SLOTFRAME_SIZE,
            forall|i: int|
                0 <= i < SLOTFRAME_SIZE ==> #[trigger] s.slots@[i] == (Slot {
                    slot_type: SlotType::Idle,
                    slot_number: i as u32,
                    sender: 0,
                    receiver: 0,
                }),
    {
        let s = Schedule {
            slots: [
                Slot::new_idle(0),
                Slot::new_idle(1),
                Slot::new_idle(2),
                Slot::new_idle(3),
                Slot::new_idle(4),
                Slot::new_idle(5),
                Slot::new_idle(6),
                Slot::new_idle(7),
                Slot::new_idle(8),
                Slot::new_idle(9),
            ],
        };
        s
    }

    /// The built-in two-node schedule: nodes 1 and 2 alternate in the first
    /// four slots, the next four are shared slots to and from the
    /// orchestrator, and the last two are idle.
    pub fn new() -> (s: Self)
        ensures
            s.slots@ == seq![
                Slot { slot_type: SlotType::Dedicate, slot_number: 0, sender: 1, receiver: 2 },
                Slot { slot_type: SlotType::Dedicate, slot_number: 1, sender: 2, receiver: 1 },
                Slot { slot_type: SlotType::Dedicate, slot_number: 2, sender: 1, receiver: 2 },
                Slot { slot_type: SlotType::Dedicate, slot_number: 3, sender: 2, receiver: 1 },
                Slot { slot_type: SlotType::Shared, slot_number: 4, sender: ANY_NODE, receiver: ORCHESTRATOR_ID },
                Slot { slot_type: SlotType::Shared, slot_number: 5, sender: ORCHESTRATOR_ID, receiver: ANY_NODE },
                Slot { slot_type: SlotType::Shared, slot_number: 6, sender: ANY_NODE, receiver: ORCHESTRATOR_ID },
                Slot { slot_type: SlotType::Shared, slot_number: 7, sender: ORCHESTRATOR_ID, receiver: ANY_NODE },
                Slot { slot_type: SlotType::Idle, slot_number: 8, sender: 0, receiver: 0 },
                Slot { slot_type: SlotType::Idle, slot_number: 9, sender: 0, receiver: 0 },
            ],
    {
        Schedule {
            slots: [
                Slot::new_dedicate(0, 1, 2),
                Slot::new_dedicate(1, 2, 1),
                Slot::new_dedicate(2, 1, 2),
                Slot::new_dedicate(3, 2, 1),
                Slot::new_shared(4, ANY_NODE, ORCHESTRATOR_ID),
                Slot::new_shared(5, ORCHESTRATOR_ID, ANY_NODE),
                Slot::new_shared(6, ANY_NODE, ORCHESTRATOR_ID),
                Slot::new_shared(7, ORCHESTRATOR_ID, ANY_NODE),
                Slot::new_idle(8),
                Slot::new_idle(9),
            ],
        }
    }

    /// The slot that slot number `slot_number` falls on: slot numbers run on
    /// forever and wrap around the slotframe.
    pub fn slot_at(&self, slot_number: u64) -> (s: Slot)
        ensures
            s == self.slots@[(slot_number % (SLOTFRAME_SIZE as u64)) as int],
    {
        let i = (slot_number % (SLOTFRAME_SIZE as u64)) as usize;
        self.slots[i]
    }

    /// Writes the wire form of the whole schedule at `off`: its slots in order.
    pub fn write_to(&self, buf: &mut Vec<u8>, off: usize)
        requires
            off + SCHEDULE_WIRE_SIZE <= old(buf)@.len(),
        ensures
            final(buf)@ == splice(old(buf)@, off as int, slots_bytes(self.slots@)),
    {
        let ghost start = buf@;
        let _len = buf.len();
        let mut i: usize = 0;
        assert(self.slots@.subrange(0, 0) =~= Seq::<Slot>::empty());
        assert(start =~= splice(start, off as int, slots_bytes(self.slots@.subrange(0, 0))));
        while i < SLOTFRAME_SIZE
            invariant
                i <= SLOTFRAME_SIZE,
                self.slots@.len() == SLOTFRAME_SIZE,
                off + SCHEDULE_WIRE_SIZE <= start.len(),
                _len == start.len(),
                buf@.len() == start.len(),
                buf@ == splice(start, off as int, slots_bytes(self.slots@.subrange(0, i as int))),
            decreases SLOTFRAME_SIZE - i,
        {
            let ghost before = buf@;
            let ghost done = self.slots@.subrange(0, i as int);
            proof {
                lemma_slots_bytes_len(done);
                lemma_slot_bytes_len(self.slots@[i as int]);
            }
            self.slots[i].write_to(buf, off + 13 * i);
            proof {
                let next = self.slots@.subrange(0, i + 1);
                assert(next.drop_last() =~= done);
                assert(slots_bytes(next) == slots_bytes(done) + slot_bytes(self.slots@[i as int]));
                lemma_slots_bytes_len(next);
                assert(buf@ =~= splice(start, off as int, slots_bytes(next)));
            }
            i = i + 1;
        }
        assert(self.slots@.subrange(0, SLOTFRAME_SIZE as int) =~= self.slots@);
    }

    /// Reads a schedule whose wire form starts at `off`.
    pub fn read_from(bytes: &[u8], off: usize) -> (s: Schedule)
        requires
            off + SCHEDULE_WIRE_SIZE <= bytes@.len(),
            slot_type_bytes_valid(
                bytes@.subrange(off as int, off + SCHEDULE_WIRE_SIZE),
                SLOTFRAME_SIZE as nat,
            ),
        ensures
            s.slots@ == slots_of_bytes(
                bytes@.subrange(off as int, off + SCHEDULE_WIRE_SIZE),
                SLOTFRAME_SIZE as nat,
            ),
    {
        let ghost b = bytes@.subrange(off as int, off + SCHEDULE_WIRE_SIZE);
        let ghost want = slots_of_bytes(b, SLOTFRAME_SIZE as nat);
        let len = bytes.len();
        let mut s = Schedule::default();
        let mut i: usize = 0;
        while i < SLOTFRAME_SIZE
            invariant
                i <= SLOTFRAME_SIZE,
                off + SCHEDULE_WIRE_SIZE <= bytes@.len(),
                len == bytes@.len(),
                b == bytes@.subrange(off as int, off + SCHEDULE_WIRE_SIZE),
                want == slots_of_bytes(b, SLOTFRAME_SIZE as nat),
                slot_type_bytes_valid(b, SLOTFRAME_SIZE as nat),
                s.slots@.len() == SLOTFRAME_SIZE,
                forall|j: int| 0 <= j < i ==> #[trigger] s.slots@[j] == want[j],
            decreases SLOTFRAME_SIZE - i,
        {
            proof {
                assert(b[i * 13] < 3);
                assert(bytes@[off + 13 * i] == b[i * 13]);
            }
            let slot = Slot::read_from(bytes, off + 13 * i);
            proof {
                assert(bytes@.subrange(off + 13 * i, off + 13 * i + 13) =~= b.subrange(
                    i * 13,
                    i * 13 + 13,
                ));
            }
            s.slots[i] = slot;
            i = i + 1;
        }
        assert(s.slots@ =~= want);
        s
    }
}

/// Decoding the wire form of a schedule gives the schedule back.
pub proof fn lemma_schedule_roundtrip(s: Schedule)
    ensures
        slots_bytes(s.slots@).len() == SCHEDULE_WIRE_SIZE,
        slot_type_bytes_valid(slots_bytes(s.slots@), SLOTFRAME_SIZE as nat),
        slots_of_bytes(slots_bytes(s.slots@), SLOTFRAME_SIZE as nat) == s.slots@,
{
    lemma_slots_roundtrip(s.slots@);
}

} // verus!
