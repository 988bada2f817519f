use deterix::tdma::{
    accepts, acknowledge, ack_outcome, answer_join_request, deliver_received, finish_transmission,
    join_response_readable, join_ack_received, join_grant, may_transmit, resend_after, slot_role,
    slot_tick, take_transmission,
};
use deterix::{
    AckOutcome, PacketBufferPool, PacketBuilder, PacketView, Schedule, Slot, SlotDeadlines,
    SlotRole, SlotWindows, StatusCode, ANY_NODE, MAGIC,
};
use std::collections::VecDeque;

#[test]
fn ticks_fall_on_whole_slot_durations() {
    assert_eq!(slot_tick(1_000, 1_000, 500), Some((0, 1_000)));
    assert_eq!(slot_tick(1_000, 2_500, 500), Some((3, 2_500)));
    assert_eq!(slot_tick(1_000, 2_501, 500), None);
    assert_eq!(slot_tick(0, 7, 3), None);
}

#[test]
fn slot_windows_split_a_slot() {
    let w = SlotWindows::new(10_000);
    assert_eq!(w.clear, 1_000);
    assert_eq!(w.clear_timeout, 800);
    assert_eq!(w.tx, 5_000);
    assert_eq!(w.ack, 3_000);
    assert_eq!(w.guard, 1_000);
    let odd = SlotWindows::new(999);
    assert_eq!(odd.clear, 99);
    assert_eq!(odd.clear_timeout, 79);
    assert_eq!(odd.tx, 499);
    assert_eq!(odd.ack, 299);
    assert_eq!(odd.guard, 99);
    assert!(odd.clear + odd.tx + odd.ack + odd.guard <= 999);
}

#[test]
fn slot_deadlines_follow_each_other() {
    let w = SlotWindows::new(10_000);
    let d = SlotDeadlines::new(50_000, w);
    assert_eq!(d.clear_end, 51_000);
    assert_eq!(d.tx_end, 56_000);
    assert_eq!(d.ack_end, 59_000);
    assert_eq!(d.slot_end, 60_000);
}

#[test]
fn roles_in_a_slot() {
    let slot = Slot::new_dedicate(0, 1, 2);
    assert_eq!(slot_role(slot, 1), SlotRole::Transmit);
    assert_eq!(slot_role(slot, 2), SlotRole::Receive);
    assert_eq!(slot_role(slot, 3), SlotRole::Rest);
    let shared = Slot::new_shared(4, ANY_NODE, 0);
    assert_eq!(slot_role(shared, 5), SlotRole::Rest);
    assert_eq!(slot_role(shared, 0), SlotRole::Receive);
}

#[test]
fn only_own_packets_for_the_slot_go_out() {
    let mut pool = PacketBufferPool::new();
    let to_two = PacketView::new(PacketBuilder::new_data(&mut pool, 1, 2, "", &[1]).unwrap());
    let to_three = PacketView::new(PacketBuilder::new_data(&mut pool, 1, 3, "", &[1]).unwrap());
    let from_five = PacketView::new(PacketBuilder::new_data(&mut pool, 5, 2, "", &[1]).unwrap());
    let slot = Slot::new_dedicate(0, 1, 2);
    assert!(may_transmit(slot, 1, &to_two));
    assert!(!may_transmit(slot, 1, &to_three));
    assert!(!may_transmit(slot, 1, &from_five));
    let broadcast = Slot::new_shared(5, 1, ANY_NODE);
    assert!(may_transmit(broadcast, 1, &to_three));
}

#[test]
fn transmit_queue_head_waits_for_its_slot() {
    let mut pool = PacketBufferPool::new();
    let mut queue: VecDeque<(deterix::PacketBuffer, u8)> = VecDeque::new();
    queue.push_back((PacketBuilder::new_data(&mut pool, 1, 3, "", &[1]).unwrap(), 30));
    queue.push_back((PacketBuilder::new_data(&mut pool, 1, 2, "", &[2]).unwrap(), 20));
    let slot = Slot::new_dedicate(0, 1, 2);
    assert!(take_transmission(&mut queue, slot, 1).is_none());
    assert_eq!(queue.len(), 2);
    assert_eq!(queue[0].1, 30);
    let other = Slot::new_dedicate(1, 1, 3);
    let (buf, addr) = take_transmission(&mut queue, other, 1).unwrap();
    assert_eq!(addr, 30);
    assert_eq!(PacketView::new(buf).dst(), 3);
    assert_eq!(queue.len(), 1);
    let mut empty: VecDeque<(deterix::PacketBuffer, u8)> = VecDeque::new();
    assert!(take_transmission(&mut empty, slot, 1).is_none());
}

#[test]
fn acknowledgements_are_judged() {
    let mut pool = PacketBufferPool::new();
    let ack = PacketView::new(PacketBuilder::new_ack(&mut pool, 2, 1, 77).unwrap());
    assert_eq!(ack_outcome(Some(&ack), 1, 2, 77), AckOutcome::Acked);
    assert_eq!(ack_outcome(Some(&ack), 1, 2, 78), AckOutcome::Unexpected);
    assert_eq!(ack_outcome(Some(&ack), 1, 3, 77), AckOutcome::Unexpected);
    assert_eq!(ack_outcome(Some(&ack), 4, 2, 77), AckOutcome::Unexpected);
    let data = PacketView::new(PacketBuilder::new_data(&mut pool, 2, 1, "", &[]).unwrap());
    assert_eq!(ack_outcome(Some(&data), 1, 2, 77), AckOutcome::Unexpected);
    assert_eq!(ack_outcome(None, 1, 2, 77), AckOutcome::TimedOut);
    assert!(resend_after(AckOutcome::TimedOut));
    assert!(!resend_after(AckOutcome::Acked));
    assert!(resend_after(AckOutcome::Unexpected));
}

#[test]
fn receivers_take_packets_meant_for_them() {
    let mut pool = PacketBufferPool::new();
    let slot = Slot::new_dedicate(0, 1, 2);
    let data = PacketView::new(PacketBuilder::new_data(&mut pool, 1, 2, "", &[1]).unwrap());
    assert!(accepts(slot, 2, &data));
    assert!(!accepts(slot, 3, &data));
    let stranger = PacketView::new(PacketBuilder::new_data(&mut pool, 4, 2, "", &[1]).unwrap());
    assert!(!accepts(slot, 2, &stranger));
    let open = Slot::new_shared(4, ANY_NODE, 2);
    assert!(accepts(open, 2, &stranger));
    let ack = PacketView::new(PacketBuilder::new_ack(&mut pool, 1, 2, 5).unwrap());
    assert!(!accepts(slot, 2, &ack));
    let status =
        PacketView::new(PacketBuilder::new_status(&mut pool, 1, 2, StatusCode::Success, "").unwrap());
    assert!(accepts(slot, 2, &status));
    let mut garbage = pool.take().unwrap();
    garbage.as_mut_slice()[0] = 0x12;
    garbage.as_mut_slice()[10] = 200;
    let garbage = PacketView::new(garbage);
    assert_ne!(garbage.magic(), MAGIC);
    assert!(!accepts(slot, 2, &garbage));
}

#[test]
fn delivery_in_a_slot_is_acknowledged() {
    let mut pool = PacketBufferPool::new();
    let schedule = Schedule::new();
    let slot = schedule.slot_at(10);
    assert_eq!(slot_role(slot, 1), SlotRole::Transmit);
    let packet = PacketView::new(PacketBuilder::new_data(&mut pool, 1, 2, "", b"hello").unwrap());
    assert!(may_transmit(slot, 1, &packet));
    assert_eq!(slot_role(slot, 2), SlotRole::Receive);
    assert!(accepts(slot, 2, &packet));
    let ack = PacketView::new(
        PacketBuilder::new_ack(&mut pool, slot.receiver, slot.sender, packet.uid()).unwrap(),
    );
    assert_eq!(ack_outcome(Some(&ack), 1, packet.dst(), packet.uid()), AckOutcome::Acked);
}

#[test]
fn join_handshake() {
    let mut pool = PacketBufferPool::new();
    let ack = PacketView::new(PacketBuilder::new_ack(&mut pool, 0, 7, 1).unwrap());
    assert!(join_ack_received(&ack));
    let req = PacketView::new(PacketBuilder::new_join_req(&mut pool, 7, 0, 7).unwrap());
    assert!(!join_ack_received(&req));
    assert!(join_grant(&req).is_none());
    let schedule = Schedule::new();
    let resp = PacketView::new(
        PacketBuilder::new_join_resp(&mut pool, 0, req.src(), 1, 10_000, 123_456, &schedule)
            .unwrap(),
    );
    let grant = join_grant(&resp).unwrap();
    assert_eq!(grant.slot_duration, 10_000);
    assert_eq!(grant.reference_clock, 123_456);
    assert_eq!(grant.schedule.slots, schedule.slots);
    let refused = PacketView::new(
        PacketBuilder::new_join_resp(&mut pool, 0, 7, 0, 10_000, 123_456, &schedule).unwrap(),
    );
    assert!(join_grant(&refused).is_none());
}

#[test]
fn receivers_acknowledge_to_the_slot_sender() {
    let mut pool = PacketBufferPool::new();
    let slot = Slot::new_dedicate(0, 1, 2);
    let packet = PacketView::new(PacketBuilder::new_data(&mut pool, 1, 2, "", &[1]).unwrap());
    let ack = PacketView::new(acknowledge(&mut pool, slot, &packet).unwrap());
    assert_eq!(ack.src(), 2);
    assert_eq!(ack.dst(), 1);
    assert_eq!(ack.ptype(), deterix::PacketType::Ack);
    assert_eq!(ack_outcome(Some(&ack), 1, 2, packet.uid()), AckOutcome::Acked);
}

#[test]
fn orchestrator_answers_join_requests_only() {
    let mut pool = PacketBufferPool::new();
    let schedule = Schedule::new();
    let req = PacketView::new(PacketBuilder::new_join_req(&mut pool, 9, 0, 9).unwrap());
    let resp = PacketView::new(
        answer_join_request(&mut pool, 0, &req, 10_000, 42, &schedule).unwrap(),
    );
    assert_eq!(resp.src(), 0);
    assert_eq!(resp.dst(), 9);
    let grant = join_grant(&resp).unwrap();
    assert_eq!(grant.slot_duration, 10_000);
    assert_eq!(grant.reference_clock, 42);
    assert_eq!(grant.schedule.slots, schedule.slots);
    let data = PacketView::new(PacketBuilder::new_data(&mut pool, 9, 0, "", &[1]).unwrap());
    assert!(answer_join_request(&mut pool, 0, &data, 10_000, 42, &schedule).is_none());
}

#[test]
fn deadlines_of_a_late_slot_do_not_overflow() {
    let w = SlotWindows::new(10_000);
    let d = SlotDeadlines::new(u64::MAX - 5, w);
    assert_eq!(d.clear_end, (u64::MAX - 5) as u128 + 1_000);
    assert_eq!(d.slot_end, (u64::MAX - 5) as u128 + 10_000);
}

#[test]
fn unacked_packet_goes_back_to_the_head_of_the_queue() {
    let mut pool = PacketBufferPool::new();
    let mut queue: VecDeque<(deterix::PacketBuffer, u8)> = VecDeque::new();
    queue.push_back((PacketBuilder::new_data(&mut pool, 1, 2, "", &[2]).unwrap(), 20));
    let sent = PacketBuilder::new_data(&mut pool, 1, 2, "", &[1]).unwrap();
    finish_transmission(&mut queue, &mut pool, (sent, 10), AckOutcome::Unexpected);
    assert_eq!(queue.len(), 2);
    assert_eq!(queue[0].1, 10);
    assert_eq!(queue[1].1, 20);
    let (head, addr) = queue.pop_front().unwrap();
    finish_transmission(&mut queue, &mut pool, (head, addr), AckOutcome::TimedOut);
    assert_eq!(queue.len(), 2);
    assert_eq!(queue[0].1, 10);
}

#[test]
fn acked_packet_returns_its_buffer_to_the_pool() {
    let mut pool = PacketBufferPool::new();
    let mut queue: VecDeque<(deterix::PacketBuffer, u8)> = VecDeque::new();
    let mut held = Vec::new();
    let sent = PacketBuilder::new_data(&mut pool, 1, 2, "", &[1]).unwrap();
    while let Some(b) = pool.take() {
        held.push(b);
    }
    assert!(pool.may_release(&sent));
    finish_transmission(&mut queue, &mut pool, (sent, 10), AckOutcome::Acked);
    assert!(queue.is_empty());
    assert!(pool.take().is_some());
}

#[test]
fn received_packets_are_queued_and_acknowledged() {
    let mut pool = PacketBufferPool::new();
    let mut rx: VecDeque<(deterix::PacketBuffer, u8)> = VecDeque::new();
    let slot = Slot::new_dedicate(0, 1, 2);
    let packet = PacketBuilder::new_data(&mut pool, 1, 2, "", b"hey").unwrap();
    let ack = deliver_received(&mut rx, &mut pool, slot, 2, packet, 7).unwrap();
    assert_eq!(rx.len(), 1);
    assert_eq!(rx[0].1, 7);
    let ack = PacketView::new(ack);
    assert_eq!(ack.src(), 2);
    assert_eq!(ack.dst(), 1);
    let received = PacketView::new(rx.pop_front().unwrap().0);
    assert_eq!(ack_outcome(Some(&ack), 1, 2, received.uid()), AckOutcome::Acked);
    let stray = PacketBuilder::new_data(&mut pool, 5, 2, "", b"no").unwrap();
    assert!(deliver_received(&mut rx, &mut pool, slot, 2, stray, 8).is_none());
    assert!(rx.is_empty());
}

#[test]
fn join_responses_are_checked_before_reading() {
    let mut pool = PacketBufferPool::new();
    let good = PacketView::new(
        PacketBuilder::new_join_resp(&mut pool, 0, 7, 1, 10, 20, &Schedule::new()).unwrap(),
    );
    assert!(join_response_readable(&good));
    let mut bad = PacketBuilder::new_join_resp(&mut pool, 0, 7, 1, 10, 20, &Schedule::new()).unwrap();
    bad.as_mut_slice()[36 + 17 + 13 * 3] = 9;
    let bad = PacketView::new(bad);
    assert!(!join_response_readable(&bad));
    let mut unknown = pool.take().unwrap();
    unknown.as_mut_slice()[0] = 0xCA;
    unknown.as_mut_slice()[1] = 0xFE;
    unknown.as_mut_slice()[10] = 8;
    assert!(!join_response_readable(&PacketView::new(unknown)));
    let plain = PacketView::new(pool.take().unwrap());
    assert!(join_response_readable(&plain));
}
