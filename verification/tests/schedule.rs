use deterix::{Schedule, Slot, SlotType, ANY_NODE, ORCHESTRATOR_ID, SLOTFRAME_SIZE};

#[test]
fn default_schedule_is_idle_and_numbered() {
    let s = Schedule::default();
    for i in 0..SLOTFRAME_SIZE {
        let slot = s.slots[i];
        assert_eq!(slot.slot_type, SlotType::Idle);
        assert_eq!(slot.slot_number, i as u32);
        assert_eq!(slot.sender, 0);
        assert_eq!(slot.receiver, 0);
    }
}

#[test]
fn built_in_schedule_lists_its_slots() {
    let s = Schedule::new();
    assert_eq!(s.slots[0], Slot::new_dedicate(0, 1, 2));
    assert_eq!(s.slots[1], Slot::new_dedicate(1, 2, 1));
    assert_eq!(s.slots[2], Slot::new_dedicate(2, 1, 2));
    assert_eq!(s.slots[3], Slot::new_dedicate(3, 2, 1));
    assert_eq!(s.slots[4], Slot::new_shared(4, ANY_NODE, ORCHESTRATOR_ID));
    assert_eq!(s.slots[5], Slot::new_shared(5, ORCHESTRATOR_ID, ANY_NODE));
    assert_eq!(s.slots[6], Slot::new_shared(6, ANY_NODE, ORCHESTRATOR_ID));
    assert_eq!(s.slots[7], Slot::new_shared(7, ORCHESTRATOR_ID, ANY_NODE));
    assert_eq!(s.slots[8], Slot::new_idle(8));
    assert_eq!(s.slots[9], Slot::new_idle(9));
}

#[test]
fn slot_constructors_fill_the_fields() {
    let s = Slot::new(SlotType::Shared, 7, 3, 4);
    assert_eq!(s.slot_type, SlotType::Shared);
    assert_eq!(s.slot_number, 7);
    assert_eq!(s.sender, 3);
    assert_eq!(s.receiver, 4);
    let idle = Slot::new_idle(5);
    assert_eq!(idle, Slot::new(SlotType::Idle, 5, 0, 0));
    assert_eq!(Slot::new_dedicate(1, 2, 3).slot_type, SlotType::Dedicate);
}

#[test]
fn slot_numbers_wrap_around_the_slotframe() {
    let s = Schedule::new();
    assert_eq!(s.slot_at(3), s.slots[3]);
    assert_eq!(s.slot_at(13), s.slots[3]);
    assert_eq!(s.slot_at(1_000_000_009), s.slots[9]);
    assert_eq!(s.slot_at(u64::MAX), s.slots[5]);
}

#[test]
fn slot_type_bytes() {
    assert_eq!(SlotType::from_byte(0), SlotType::Idle);
    assert_eq!(SlotType::from_byte(1), SlotType::Dedicate);
    assert_eq!(SlotType::from_byte(2), SlotType::Shared);
    assert_eq!(SlotType::Shared.to_byte(), 2);
    assert_eq!(SlotType::Idle.to_byte(), 0);
}

#[test]
fn slot_wire_form_is_type_then_three_big_endian_words() {
    let slot = Slot::new_shared(0x01020304, 0x0A0B0C0D, 0xFFFFFFFF);
    let mut buf = vec![0u8; 20];
    slot.write_to(&mut buf, 2);
    assert_eq!(
        buf,
        vec![0, 0, 2, 1, 2, 3, 4, 0x0A, 0x0B, 0x0C, 0x0D, 0xFF, 0xFF, 0xFF, 0xFF, 0, 0, 0, 0, 0]
    );
    assert_eq!(Slot::read_from(&buf, 2), slot);
}

#[test]
fn schedule_wire_form_roundtrips() {
    let s = Schedule::new();
    let mut buf = vec![0xAAu8; 140];
    s.write_to(&mut buf, 5);
    assert_eq!(buf[0..5], [0xAA; 5]);
    assert_eq!(buf[135..140], [0xAA; 5]);
    let back = Schedule::read_from(&buf, 5);
    assert_eq!(back.slots, s.slots);
}
