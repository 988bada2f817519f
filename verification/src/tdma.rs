//! The decisions a node takes in the time-slotted protocol.
//!
//! A node runs two loops: a ticker that turns the clock into slot numbers,
//! and a slot loop that, in each slot, clears its socket, then transmits or
//! receives one packet and waits for or sends its acknowledgement, then waits
//! out the guard band. The loops themselves (clock, sockets, sleeping) belong
//! to the program around the library; every decision they take is here.
use vstd::prelude::*;
use std::collections::VecDeque;
use crate::buffer::{pool_lends, pool_released, releasable, PacketBuffer, PacketBufferPool};
use crate::config::{ANY_NODE, MAGIC, ORCHESTRATOR_ID, PACKET_SIZE, SLOTFRAME_SIZE};
use crate::packet::{
    ack_packet, ack_uid_of, data_packet, dst_of, field_of, join_schedule_field, law_ack_roundtrip,
    law_data_roundtrip, magic_of, packet_type_of_byte, payload_of, src_of, type_byte_of, uid_of,
    PacketBuilder, PacketType, PacketView, PayloadView, timestamp_of, join_req_packet, join_resp_packet, law_join_req_roundtrip,
    law_join_resp_roundtrip, join_node_id_of, status_packet,
    law_status_roundtrip, StatusCode,
};
use crate::schedule::{slot_type_bytes_valid, slots_of_bytes, Schedule, Slot, SlotType};

verus! {

// ---------------------------------------------------------------------------
// Time.
// ---------------------------------------------------------------------------

/// The tick that the ticker emits when the clock reads `now`: a new slot
/// starts whenever a whole number of slot durations has passed since the
/// reference clock, and its number is that number of durations.
pub open spec fn tick_at(reference: u64, now: u64, slot_duration: u64) -> Option<(u64, u64)> {
    if (now - reference) % (slot_duration as int) == 0 {
        Some((((now - reference) / (slot_duration as int)) as u64, now))
    } else {
        None
    }
}

/// The ticker's decision for one reading `now` of the clock: `Some((slot
/// number, slot start))` when a slot starts now.
pub fn slot_tick(reference: u64, now: u64, slot_duration: u64) -> (t: Option<(u64, u64)>)
    requires
        slot_duration > 0,
        reference <= now,
    ensures
        t == tick_at(reference, now, slot_duration),
{
    let elapsed = now - reference;
    if elapsed % slot_duration == 0 {
        Some((elapsed / slot_duration, now))
    } else {
        None
    }
}

/// The lengths, in microseconds, of the parts of a slot.
#[derive(Clone, Copy, Debug, PartialEq, Eq, Structural)]
pub struct SlotWindows {
    /// Draining what is left in the socket from earlier slots (a tenth).
    pub clear: u64,
    /// How long a read may block in the clear window (four fifths of it).
    pub clear_timeout: u64,
    /// Sending or receiving the packet (half).
    pub tx: u64,
    /// Waiting for or sending the acknowledgement (three tenths).
    pub ack: u64,
    /// Idle time that keeps consecutive slots apart (a tenth).
    pub guard: u64,
}

impl SlotWindows {
    /// Splits a slot of `slot_duration` microseconds into its windows.
    pub fn new(slot_duration: u64) -> (w: SlotWindows)
        requires
            slot_duration * 5 <= u64::MAX,
        ensures
            w.clear == slot_duration / 10,
            w.clear_timeout == w.clear * 4 / 5,
            w.tx == slot_duration * 5 / 10,
            w.ack == slot_duration * 3 / 10,
            w.guard == slot_duration / 10,
    {
        let clear = slot_duration * 1 / 10;
        SlotWindows {
            clear,
            clear_timeout: clear * 4 / 5,
            tx: slot_duration * 5 / 10,
            ack: slot_duration * 3 / 10,
            guard: slot_duration * 1 / 10,
        }
    }
}

/// The moments, in microseconds since the epoch, at which the parts of a slot end.
#[derive(Clone, Copy, Debug, PartialEq, Eq, Structural)]
pub struct SlotDeadlines {
    pub clear_end: u128,
    pub tx_end: u128,
    pub ack_end: u128,
    pub slot_end: u128,
}

impl SlotDeadlines {
    /// The deadlines of a slot that starts at `slot_start`.
    pub fn new(slot_start: u64, w: SlotWindows) -> (d: SlotDeadlines)
        ensures
            d.clear_end == slot_start + w.clear,
            d.tx_end == d.clear_end + w.tx,
            d.ack_end == d.tx_end + w.ack,
            d.slot_end == d.ack_end + w.guard,
    {
        let clear_end = slot_start as u128 + w.clear as u128;
        let tx_end = clear_end + w.tx as u128;
        let ack_end = tx_end + w.ack as u128;
        SlotDeadlines { clear_end, tx_end, ack_end, slot_end: ack_end + w.guard as u128 }
    }
}

/// The parts of a slot follow one another and all end before the next slot
/// starts: a slot never runs into the next one.
pub proof fn law_slot_parts_fit(slot_duration: u64, slot_start: u64)
    requires
        slot_duration * 5 <= u64::MAX,
    ensures
        ({
            let clear = slot_duration / 10;
            let tx = slot_duration * 5 / 10;
            let ack = slot_duration * 3 / 10;
            let guard = slot_duration / 10;
            &&& clear + tx + ack + guard <= slot_duration
            &&& slot_start <= slot_start + clear <= slot_start + clear + tx
            &&& slot_start + clear + tx <= slot_start + clear + tx + ack
            &&& slot_start + clear + tx + ack + guard <= slot_start + slot_duration
            &&& clear * 4 / 5 <= clear
        }),
{
    let d = slot_duration as int;
    assert(d / 10 + d * 5 / 10 + d * 3 / 10 + d / 10 <= d) by (nonlinear_arith);
}

/// A tick names the slot number `k` exactly when the clock reads the
/// reference plus `k` slot durations.
pub proof fn law_tick_marks_slot_start(reference: u64, now: u64, slot_duration: u64)
    requires
        slot_duration > 0,
        reference <= now,
    ensures
        tick_at(reference, now, slot_duration) matches Some((k, start)) ==> start == now && now
            == reference + k * slot_duration,
        tick_at(reference, now, slot_duration) is None ==> (now - reference) % (
        slot_duration as int) != 0,
{
    let e = now - reference;
    let d = slot_duration as int;
    assert(e == (e / d) * d + e % d) by (nonlinear_arith)
        requires
            d > 0,
    ;
}

/// Slot numbers wrap around the slotframe: slot numbers that differ by the
/// slotframe size fall on the same slot of a schedule.
pub proof fn law_slot_numbers_wrap(schedule: Schedule, n: u64, m: u64)
    requires
        m == n + SLOTFRAME_SIZE,
    ensures
        schedule.slots@[(n % (SLOTFRAME_SIZE as u64)) as int] == schedule.slots@[(m % (
        SLOTFRAME_SIZE as u64)) as int],
{
    assert(m % 10 == n % 10);
}

// ---------------------------------------------------------------------------
// What to do in a slot.
// ---------------------------------------------------------------------------

/// A node's part in a slot.
#[derive(Clone, Copy, Debug, PartialEq, Eq, Structural)]
pub enum SlotRole {
    /// The node is the slot's sender.
    Transmit,
    /// The node is the slot's receiver (and not its sender).
    Receive,
    /// The slot is not the node's.
    Rest,
}

pub open spec fn role_of(slot: Slot, id: u32) -> SlotRole {
    if slot.sender == id {
        SlotRole::Transmit
    } else if slot.receiver == id {
        SlotRole::Receive
    } else {
        SlotRole::Rest
    }
}

/// Node `id`'s part in `slot`.
pub fn slot_role(slot: Slot, id: u32) -> (r: SlotRole)
    ensures
        r == role_of(slot, id),
{
    if slot.sender == id {
        SlotRole::Transmit
    } else if slot.receiver == id {
        SlotRole::Receive
    } else {
        SlotRole::Rest
    }
}

/// At most one node transmits in a slot: two different nodes are never both
/// the slot's sender.
pub proof fn law_one_sender_per_slot(slot: Slot, a: u32, b: u32)
    requires
        a != b,
    ensures
        !(role_of(slot, a) == SlotRole::Transmit && role_of(slot, b) == SlotRole::Transmit),
{
}

/// A packet may go out in `slot` from node `id` when the node is its source
/// and the slot's receiver is its destination or any node.
pub open spec fn transmit_allowed(slot: Slot, id: u32, s: Seq<u8>) -> bool {
    src_of(s) == id && (slot.receiver == dst_of(s) || slot.receiver == ANY_NODE)
}

pub fn may_transmit(slot: Slot, id: u32, packet: &PacketView) -> (b: bool)
    requires
        packet.buffer.wf(),
    ensures
        b == transmit_allowed(slot, id, packet.bytes()),
{
    packet.src() == id && (slot.receiver == packet.dst() || slot.receiver == ANY_NODE)
}

/// The transmit decision of node `id` in `slot`: the packet at the head of
/// the transmit queue goes out if it may; otherwise it stays at the head and
/// nothing is sent in this slot.
pub fn take_transmission<A>(tx_queue: &mut VecDeque<(PacketBuffer, A)>, slot: Slot, id: u32) -> (r:
    Option<(PacketBuffer, A)>)
    requires
        forall|i: int| 0 <= i < old(tx_queue)@.len() ==> (#[trigger] old(tx_queue)@[i]).0.wf(),
    ensures
        old(tx_queue)@.len() == 0 ==> r is None && final(tx_queue)@ == old(tx_queue)@,
        old(tx_queue)@.len() > 0 ==> {
            let head = old(tx_queue)@[0];
            if transmit_allowed(slot, id, head.0.bytes()) {
                r == Some(head) && final(tx_queue)@ == old(tx_queue)@.drop_first()
            } else {
                r is None && final(tx_queue)@ == old(tx_queue)@
            }
        },
{
    let ghost start = tx_queue@;
    match tx_queue.pop_front() {
        None => None,
        Some((buffer, addr)) => {
            proof {
                assert(start[0].0.wf());
            }
            let view = PacketView::new(buffer);
            if may_transmit(slot, id, &view) {
                Some((view.buffer, addr))
            } else {
                tx_queue.push_front((view.buffer, addr));
                proof {
                    assert(tx_queue@ =~= start);
                }
                None
            }
        },
    }
}

/// What came of waiting for an acknowledgement.
#[derive(Clone, Copy, Debug, PartialEq, Eq, Structural)]
pub enum AckOutcome {
    /// The expected acknowledgement arrived.
    Acked,
    /// Something arrived that is not the expected acknowledgement; the
    /// packet goes back to the head of the transmit queue.
    Unexpected,
    /// Nothing arrived within the window; the packet goes back to the head
    /// of the transmit queue.
    TimedOut,
}

/// The acknowledgement that node `id` expects after sending packet `uid` to `peer`.
pub open spec fn ack_matches(s: Seq<u8>, id: u32, peer: u32, uid: u64) -> bool {
    &&& magic_of(s) == MAGIC
    &&& type_byte_of(s) == 0
    &&& dst_of(s) == id
    &&& src_of(s) == peer
    &&& ack_uid_of(payload_of(s)) == uid
}

/// The outcome of an ack window in which `received` arrived (`None`: nothing did).
pub open spec fn ack_outcome_of(received: Option<Seq<u8>>, id: u32, peer: u32, uid: u64) -> AckOutcome {
    match received {
        None => AckOutcome::TimedOut,
        Some(s) => if ack_matches(s, id, peer, uid) {
            AckOutcome::Acked
        } else {
            AckOutcome::Unexpected
        },
    }
}

/// Reading the packet type of `s` in the ack check is safe: the type byte is
/// only read once the magic matches.
pub open spec fn ack_check_readable(s: Seq<u8>) -> bool {
    magic_of(s) == MAGIC ==> type_byte_of(s) < 5
}

/// Judges what arrived in the ack window after node `id` sent packet `uid`
/// to `peer`.
pub fn ack_outcome(received: Option<&PacketView>, id: u32, peer: u32, uid: u64) -> (o: AckOutcome)
    requires
        received matches Some(v) ==> v.buffer.wf() && ack_check_readable(v.bytes()),
    ensures
        received is None ==> o == ack_outcome_of(None, id, peer, uid),
        received matches Some(v) ==> o == ack_outcome_of(Some(v.bytes()), id, peer, uid),
{
    match received {
        None => AckOutcome::TimedOut,
        Some(v) => {
            if v.magic() == MAGIC && v.ptype() == PacketType::Ack && v.dst() == id && v.src()
                == peer {
                match v.payload() {
                    PayloadView::Ack(ack) => {
                        if ack.uid() == uid {
                            AckOutcome::Acked
                        } else {
                            AckOutcome::Unexpected
                        }
                    },
                    _ => AckOutcome::Unexpected,
                }
            } else {
                AckOutcome::Unexpected
            }
        },
    }
}

/// Whether the ack window's outcome sends the packet again in a later slot:
/// every outcome but the expected acknowledgement does.
pub fn resend_after(o: AckOutcome) -> (b: bool)
    ensures
        b == (o != AckOutcome::Acked),
{
    match o {
        AckOutcome::Acked => false,
        _ => true,
    }
}

/// The end of a transmit slot: unless its acknowledgement matched, the sent
/// packet goes back to the head of the transmit queue and the pool is left
/// alone; once it matched, the queue is left alone and the packet's buffer
/// goes back to the pool.
pub fn finish_transmission<A>(
    tx_queue: &mut VecDeque<(PacketBuffer, A)>,
    pool: &mut PacketBufferPool,
    sent: (PacketBuffer, A),
    outcome: AckOutcome,
)
    requires
        old(pool).wf(),
        releasable(*old(pool), sent.0),
    ensures
        outcome != AckOutcome::Acked ==> final(tx_queue)@ == old(tx_queue)@.insert(0, sent)
            && *final(pool) == *old(pool),
        outcome == AckOutcome::Acked ==> final(tx_queue)@ == old(tx_queue)@ && pool_released(
            *old(pool),
            *final(pool),
            sent.0,
        ),
{
    if resend_after(outcome) {
        let ghost before = tx_queue@;
        tx_queue.push_front(sent);
        assert(tx_queue@ =~= before.insert(0, sent));
    } else {
        let (buffer, _addr) = sent;
        pool.release(buffer);
    }
}

/// Over a transmit slot nothing is lost: the head that `take_transmission`
/// takes off the queue and `finish_transmission` puts back leaves the queue
/// as it was.
pub proof fn law_unacked_packet_keeps_its_place<A>(queue: Seq<(PacketBuffer, A)>)
    requires
        queue.len() > 0,
    ensures
        queue.drop_first().insert(0, queue[0]) == queue,
{
    assert(queue.drop_first().insert(0, queue[0]) =~= queue);
}

/// Reliable delivery: a sent packet goes back to the head of the transmit
/// queue exactly when no matching acknowledgement arrived in the ack window,
/// so it leaves the queue for good only once its acknowledgement matched.
pub proof fn law_resend_unless_acked(received: Option<Seq<u8>>, id: u32, peer: u32, uid: u64)
    ensures
        (ack_outcome_of(received, id, peer, uid) != AckOutcome::Acked) <==> !(received matches Some(
            s,
        ) && ack_matches(s, id, peer, uid)),
{
}

/// A packet that node `id` receives in `slot` is taken when it carries the
/// magic, is addressed to the node, comes from the slot's sender (or the slot
/// admits any sender) and is not an acknowledgement.
pub open spec fn accepted(slot: Slot, id: u32, s: Seq<u8>) -> bool {
    &&& magic_of(s) == MAGIC
    &&& dst_of(s) == id
    &&& (src_of(s) == slot.sender || slot.sender == ANY_NODE)
    &&& type_byte_of(s) != 0
}

/// Reading the packet type of `s` in the receive check is safe: the type byte
/// is only read once the other tests have passed.
pub open spec fn receive_check_readable(slot: Slot, id: u32, s: Seq<u8>) -> bool {
    (magic_of(s) == MAGIC && dst_of(s) == id && (src_of(s) == slot.sender || slot.sender
        == ANY_NODE)) ==> type_byte_of(s) < 5
}

/// The receive decision of node `id` in `slot` for a packet that arrived.
pub fn accepts(slot: Slot, id: u32, packet: &PacketView) -> (b: bool)
    requires
        packet.buffer.wf(),
        receive_check_readable(slot, id, packet.bytes()),
    ensures
        b == accepted(slot, id, packet.bytes()),
{
    packet.magic() == MAGIC && packet.dst() == id && (packet.src() == slot.sender || slot.sender
        == ANY_NODE) && packet.ptype() != PacketType::Ack
}

/// The acknowledgement that the receiver of `slot` sends for `packet`: from
/// the slot's receiver to its sender, carrying the packet's uid, in a buffer
/// taken from `pool` (`None` when every buffer is in use).
pub fn acknowledge(pool: &mut PacketBufferPool, slot: Slot, packet: &PacketView) -> (r: Option<
    PacketBuffer,
>)
    requires
        old(pool).wf(),
        packet.buffer.wf(),
    ensures
        pool_lends(*old(pool), *final(pool), r),
        r matches Some(b) ==> {
            let w = b.bytes();
            &&& w == ack_packet(
                slot.receiver,
                slot.sender,
                uid_of(packet.bytes()) as u64,
                uid_of(w) as u64,
                timestamp_of(w) as u64,
            )
            &&& uid_of(w) >= 1
            &&& b.size_view() == 44
        },
{
    let uid = packet.uid();
    PacketBuilder::new_ack(pool, slot.receiver, slot.sender, uid)
}

/// The receive step of node `id` in `slot` for a packet that arrived from
/// `from`: an accepted packet joins the end of the receive queue and is
/// acknowledged (the acknowledgement's buffer comes from `pool`; `None` when
/// every buffer is in use); any other packet's buffer goes back to the pool.
pub fn deliver_received<A>(
    rx_queue: &mut VecDeque<(PacketBuffer, A)>,
    pool: &mut PacketBufferPool,
    slot: Slot,
    id: u32,
    packet: PacketBuffer,
    from: A,
) -> (ack: Option<PacketBuffer>)
    requires
        old(pool).wf(),
        releasable(*old(pool), packet),
        receive_check_readable(slot, id, packet.bytes()),
    ensures
        accepted(slot, id, packet.bytes()) ==> {
            &&& final(rx_queue)@ == old(rx_queue)@.push((packet, from))
            &&& pool_lends(*old(pool), *final(pool), ack)
            &&& ack matches Some(b) ==> {
                let w = b.bytes();
                &&& w == ack_packet(
                    slot.receiver,
                    slot.sender,
                    uid_of(packet.bytes()) as u64,
                    uid_of(w) as u64,
                    timestamp_of(w) as u64,
                )
                &&& uid_of(w) >= 1
                &&& b.size_view() == 44
            }
        },
        !accepted(slot, id, packet.bytes()) ==> {
            &&& final(rx_queue)@ == old(rx_queue)@
            &&& ack is None
            &&& pool_released(*old(pool), *final(pool), packet)
        },
{
    let view = PacketView::new(packet);
    if accepts(slot, id, &view) {
        let ack = acknowledge(pool, slot, &view);
        rx_queue.push_back((view.buffer, from));
        ack
    } else {
        pool.release(view.buffer);
        None
    }
}

/// Whether reading a join response out of `packet` is safe (see
/// `join_check_readable`).
pub fn join_response_readable(packet: &PacketView) -> (b: bool)
    requires
        packet.buffer.wf(),
    ensures
        b == join_check_readable(packet.bytes()),
{
    if packet.magic() != MAGIC {
        return true;
    }
    if !packet.has_known_type() {
        return false;
    }
    let s = packet.buffer.as_slice();
    if s[10] == 4 && s[36] == 1 {
        match packet.payload() {
            PayloadView::JoinResp(r) => r.schedule_is_readable(),
            _ => true,
        }
    } else {
        true
    }
}

/// A data packet that node `a` builds for node `b` goes out in a slot from
/// `a` to `b`, is taken by `b`, and the acknowledgement that `b` builds for
/// it in that slot (from the slot's receiver to its sender) is the one `a`
/// waits for.
pub proof fn law_slot_delivery_acknowledged(
    slot: Slot,
    name: Seq<u8>,
    data: Seq<u8>,
    uid: u64,
    timestamp: u64,
    ack_uid: u64,
    ack_timestamp: u64,
)
    requires
        slot.sender != slot.receiver,
        name.len() <= 128,
        166 + data.len() <= PACKET_SIZE,
    ensures
        ({
            let p = data_packet(slot.sender, slot.receiver, name, data, uid, timestamp);
            let a = ack_packet(slot.receiver, slot.sender, uid_of(p) as u64, ack_uid, ack_timestamp);
            &&& role_of(slot, slot.sender) == SlotRole::Transmit
            &&& role_of(slot, slot.receiver) == SlotRole::Receive
            &&& transmit_allowed(slot, slot.sender, p)
            &&& receive_check_readable(slot, slot.receiver, p)
            &&& accepted(slot, slot.receiver, p)
            &&& ack_check_readable(a)
            &&& ack_matches(a, slot.sender, dst_of(p) as u32, uid)
        }),
{
    law_data_roundtrip(slot.sender, slot.receiver, name, data, uid, timestamp);
    law_ack_roundtrip(slot.receiver, slot.sender, uid, ack_uid, ack_timestamp);
}

// ---------------------------------------------------------------------------
// Joining the network.
// ---------------------------------------------------------------------------

/// The orchestrator `id`'s answer to a packet from its receive queue: a join
/// request is answered, to the requesting node, with an admitting join
/// response that carries the slot duration, the reference clock and the
/// schedule, in a buffer taken from `pool`; any other packet gets no answer
/// and leaves the pool as it was.
pub fn answer_join_request(
    pool: &mut PacketBufferPool,
    id: u32,
    request: &PacketView,
    slot_duration: u64,
    reference_clock: u64,
    schedule: &Schedule,
) -> (r: Option<PacketBuffer>)
    requires
        old(pool).wf(),
        request.buffer.wf(),
        type_byte_of(request.bytes()) < 5,
    ensures
        type_byte_of(request.bytes()) != 3 ==> r is None && *final(pool) == *old(pool),
        type_byte_of(request.bytes()) == 3 ==> {
            &&& pool_lends(*old(pool), *final(pool), r)
            &&& r matches Some(b) ==> {
                let w = b.bytes();
                &&& w == join_resp_packet(
                    id,
                    src_of(request.bytes()) as u32,
                    1,
                    slot_duration,
                    reference_clock,
                    schedule.slots@,
                    uid_of(w) as u64,
                    timestamp_of(w) as u64,
                )
                &&& uid_of(w) >= 1
                &&& b.size_view() == 183
            }
        },
{
    if request.ptype() == PacketType::JoinReq {
        let src = request.src();
        PacketBuilder::new_join_resp(pool, id, src, 1, slot_duration, reference_clock, schedule)
    } else {
        None
    }
}

/// While asking to join, a node waits for any acknowledgement carrying the magic.
pub open spec fn join_acked(s: Seq<u8>) -> bool {
    magic_of(s) == MAGIC && type_byte_of(s) == 0
}

pub fn join_ack_received(packet: &PacketView) -> (b: bool)
    requires
        packet.buffer.wf(),
        ack_check_readable(packet.bytes()),
    ensures
        b == join_acked(packet.bytes()),
{
    packet.magic() == MAGIC && packet.ptype() == PacketType::Ack
}

/// What a node adopts when the orchestrator admits it.
pub struct JoinGrant {
    pub slot_duration: u64,
    pub reference_clock: u64,
    pub schedule: Schedule,
}

/// `s` is a join response that admits the node.
pub open spec fn join_admits(s: Seq<u8>) -> bool {
    magic_of(s) == MAGIC && type_byte_of(s) == 4 && payload_of(s)[0] == 1
}

/// Reading a join response out of `s` is safe: the type byte names a type
/// once the magic matches, and an admitting response carries valid slot types.
pub open spec fn join_check_readable(s: Seq<u8>) -> bool {
    &&& ack_check_readable(s)
    &&& join_admits(s) ==> slot_type_bytes_valid(
        join_schedule_field(payload_of(s)),
        SLOTFRAME_SIZE as nat,
    )
}

/// The join decision for a packet that arrived after the join request was
/// acknowledged: the grant when it is a join response that admits the node.
pub fn join_grant(packet: &PacketView) -> (g: Option<JoinGrant>)
    requires
        packet.buffer.wf(),
        join_check_readable(packet.bytes()),
    ensures
        g is Some <==> join_admits(packet.bytes()),
        g matches Some(grant) ==> {
            let p = payload_of(packet.bytes());
            &&& grant.slot_duration == field_of(p, 1, 8)
            &&& grant.reference_clock == field_of(p, 9, 8)
            &&& grant.schedule.slots@ == slots_of_bytes(
                join_schedule_field(p),
                SLOTFRAME_SIZE as nat,
            )
        },
{
    if packet.magic() == MAGIC {
        match packet.payload() {
            PayloadView::JoinResp(resp) => {
                if resp.permitted() == 1 {
                    Some(
                        JoinGrant {
                            slot_duration: resp.slot_duration(),
                            reference_clock: resp.reference_clock(),
                            schedule: resp.schedule(),
                        },
                    )
                } else {
                    None
                }
            },
            _ => None,
        }
    } else {
        None
    }
}

/// The join handshake: the request that node `node` sends carries its id to
/// the orchestrator, the orchestrator's answer to it admits the node, and the
/// grant the node takes from that answer is the orchestrator's slot duration,
/// reference clock and schedule.
pub proof fn law_join_handshake(
    node: u32,
    orchestrator: u32,
    slot_duration: u64,
    reference_clock: u64,
    schedule: Schedule,
    req_uid: u64,
    req_timestamp: u64,
    resp_uid: u64,
    resp_timestamp: u64,
)
    ensures
        ({
            let req = join_req_packet(node, orchestrator, node, req_uid, req_timestamp);
            let resp = join_resp_packet(
                orchestrator,
                src_of(req) as u32,
                1,
                slot_duration,
                reference_clock,
                schedule.slots@,
                resp_uid,
                resp_timestamp,
            );
            let p = payload_of(resp);
            &&& magic_of(req) == MAGIC
            &&& packet_type_of_byte(type_byte_of(req)) == PacketType::JoinReq
            &&& join_node_id_of(payload_of(req)) == node
            &&& join_check_readable(resp)
            &&& join_admits(resp)
            &&& dst_of(resp) == node
            &&& field_of(p, 1, 8) == slot_duration
            &&& field_of(p, 9, 8) == reference_clock
            &&& slots_of_bytes(join_schedule_field(p), SLOTFRAME_SIZE as nat) == schedule.slots@
        }),
{
    law_join_req_roundtrip(node, orchestrator, node, req_uid, req_timestamp);
    law_join_resp_roundtrip(
        orchestrator,
        node,
        1,
        slot_duration,
        reference_clock,
        schedule,
        resp_uid,
        resp_timestamp,
    );
}

// ---------------------------------------------------------------------------
// Laws on the decisions, stated over the fields of slots and packets.
// ---------------------------------------------------------------------------

/// A node transmits in a slot exactly when it is the slot's sender, receives
/// exactly when it is the slot's receiver and not its sender, and rests in
/// every slot that names it on neither side.
pub proof fn law_role_follows_the_slot(slot: Slot, id: u32)
    ensures
        (role_of(slot, id) == SlotRole::Transmit) <==> slot.sender == id,
        (role_of(slot, id) == SlotRole::Receive) <==> (slot.receiver == id && slot.sender != id),
        (role_of(slot, id) == SlotRole::Rest) <==> (slot.sender != id && slot.receiver != id),
{
}

/// A receiver takes every packet that carries the magic, is addressed to it,
/// comes from the slot's sender (or the slot admits any sender) and names a
/// packet type other than ack; and it takes nothing else.
pub proof fn law_receiver_takes_every_non_ack(slot: Slot, id: u32, s: Seq<u8>)
    ensures
        (magic_of(s) == MAGIC && dst_of(s) == id && (src_of(s) == slot.sender || slot.sender
            == ANY_NODE) && 1 <= type_byte_of(s) < 5) ==> accepted(slot, id, s)
            && receive_check_readable(slot, id, s),
        accepted(slot, id, s) ==> magic_of(s) == MAGIC && dst_of(s) == id && (src_of(s)
            == slot.sender || slot.sender == ANY_NODE) && type_byte_of(s) != 0,
{
}

/// In a shared slot from any node to the orchestrator, the orchestrator takes
/// the join request of every node, and also every status, data and join
/// response packet addressed to it; it never takes an ack.
pub proof fn law_orchestrator_takes_join_requests(
    slot_number: u32,
    node: u32,
    status_code: StatusCode,
    message: Seq<u8>,
    name: Seq<u8>,
    data: Seq<u8>,
    schedule: Schedule,
    acked: u64,
    uid: u64,
    timestamp: u64,
)
    requires
        37 + message.len() <= PACKET_SIZE,
        name.len() <= 128,
        166 + data.len() <= PACKET_SIZE,
    ensures
        ({
            let slot = Slot {
                slot_type: SlotType::Shared,
                slot_number,
                sender: ANY_NODE,
                receiver: ORCHESTRATOR_ID,
            };
            let o = ORCHESTRATOR_ID;
            &&& role_of(slot, o) == SlotRole::Receive || node == ANY_NODE
            &&& accepted(slot, o, join_req_packet(node, o, node, uid, timestamp))
            &&& accepted(
                slot,
                o,
                status_packet(node, o, status_code, message, uid, timestamp),
            )
            &&& accepted(slot, o, data_packet(node, o, name, data, uid, timestamp))
            &&& accepted(
                slot,
                o,
                crate::packet::join_resp_packet(node, o, 1, 5, 5, schedule.slots@, uid, timestamp),
            )
            &&& !accepted(slot, o, ack_packet(node, o, acked, uid, timestamp))
        }),
{
    law_join_req_roundtrip(node, ORCHESTRATOR_ID, node, uid, timestamp);
    law_status_roundtrip(node, ORCHESTRATOR_ID, status_code, message, uid, timestamp);
    law_data_roundtrip(node, ORCHESTRATOR_ID, name, data, uid, timestamp);
    law_join_resp_roundtrip(node, ORCHESTRATOR_ID, 1, 5, 5, schedule, uid, timestamp);
    law_ack_roundtrip(node, ORCHESTRATOR_ID, acked, uid, timestamp);
}

/// While a node waits for the acknowledgement of its join request, only an
/// ack carrying the magic ends the wait: every ack does, and no packet of
/// another type (join response, join request, data, status) does.
pub proof fn law_only_an_ack_ends_the_join_wait(
    s: Seq<u8>,
    src: u32,
    dst: u32,
    acked: u64,
    code: StatusCode,
    message: Seq<u8>,
    name: Seq<u8>,
    data: Seq<u8>,
    schedule: Schedule,
    uid: u64,
    timestamp: u64,
)
    requires
        37 + message.len() <= PACKET_SIZE,
        name.len() <= 128,
        166 + data.len() <= PACKET_SIZE,
    ensures
        join_acked(s) ==> magic_of(s) == MAGIC && type_byte_of(s) == 0,
        (magic_of(s) == MAGIC && type_byte_of(s) == 0) ==> join_acked(s),
        join_acked(ack_packet(src, dst, acked, uid, timestamp)),
        !join_acked(
            crate::packet::join_resp_packet(src, dst, 1, 5, 5, schedule.slots@, uid, timestamp),
        ),
        !join_acked(join_req_packet(src, dst, src, uid, timestamp)),
        !join_acked(data_packet(src, dst, name, data, uid, timestamp)),
        !join_acked(status_packet(src, dst, code, message, uid, timestamp)),
{
    law_ack_roundtrip(src, dst, acked, uid, timestamp);
    law_join_resp_roundtrip(src, dst, 1, 5, 5, schedule, uid, timestamp);
    law_join_req_roundtrip(src, dst, src, uid, timestamp);
    law_data_roundtrip(src, dst, name, data, uid, timestamp);
    law_status_roundtrip(src, dst, code, message, uid, timestamp);
}

} // verus!
