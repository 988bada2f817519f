//! The packet wire format: reading packets out of buffers and building them.
//!
//! Layout of a packet (all integers big-endian):
//!
//! | bytes    | field                                   |
//! |----------|-----------------------------------------|
//! | 0..2     | magic (`MAGIC`)                         |
//! | 2..10    | packet uid (random, never 0)            |
//! | 10       | packet type                             |
//! | 11..15   | source node                             |
//! | 15..19   | destination node                        |
//! | 19       | priority                                |
//! | 20..28   | token (`TOKEN`)                         |
//! | 28..36   | timestamp, microseconds since the epoch |
//! | 36..     | payload                                 |
//!
//! Payloads: an ack carries the acknowledged uid (8 bytes); a status carries a
//! code byte and a message; a data packet carries a name (read back as 128
//! bytes), the data size in two bytes at offset 128 of the payload and the
//! data from offset 130; a join request carries the joining node's id; a join response carries
//! a permission byte, the slot duration, the reference clock and the schedule.
use vstd::prelude::*;
use vstd::string::StringSliceAdditionalSpecFns;
use vstd::utf8::{decode_utf8, encode_utf8, valid_utf8};
use crate::text::{
    is_text, lemma_trailing_nul, lemma_trim_zeros_padding, lemma_zeros_valid_utf8, text_of_field, trim_zeros,
};
use crate::buffer::{pool_lends, PacketBuffer, PacketBufferPool};
use crate::clock::now_micros;
use crate::codec::{
    be_bytes, be_value, lemma_be_bytes_len, lemma_be_roundtrip, lemma_be_value_bound,
    lemma_pow256_values, read_be, splice, zeros,
};
use crate::config::{MAGIC, PACKET_POOL_SIZE, PACKET_SIZE, SLOTFRAME_SIZE, TOKEN};
use crate::entropy::fresh_uid;
use crate::schedule::{
    lemma_schedule_roundtrip, slot_type_bytes_valid, slots_bytes, slots_of_bytes, Schedule,
    SCHEDULE_WIRE_SIZE,
};

verus! {

/// Offset of the payload in a packet.
pub const PAYLOAD_OFFSET: usize = 36;

/// Length of the payload area of a packet buffer.
pub const PAYLOAD_LEN: usize = 1166;

/// The kind of a packet.
#[derive(Debug, Clone, Copy, PartialEq, Eq, Structural)]
pub enum PacketType {
    Ack,
    Status,
    Data,
    JoinReq,
    JoinResp,
}

/// The byte that stands for a packet type on the wire.
pub open spec fn packet_type_byte(t: PacketType) -> u8 {
    match t {
        PacketType::Ack => 0,
        PacketType::Status => 1,
        PacketType::Data => 2,
        PacketType::JoinReq => 3,
        PacketType::JoinResp => 4,
    }
}

/// The packet type that a byte below 5 stands for.
pub open spec fn packet_type_of_byte(b: u8) -> PacketType {
    if b == 0 {
        PacketType::Ack
    } else if b == 1 {
        PacketType::Status
    } else if b == 2 {
        PacketType::Data
    } else if b == 3 {
        PacketType::JoinReq
    } else {
        PacketType::JoinResp
    }
}

impl PacketType {
    /// The packet type with wire value `value`; values from 5 on stand for no type.
    pub fn from_byte(value: u8) -> (t: PacketType)
        requires
            value < 5,
        ensures
            t == packet_type_of_byte(value),
            packet_type_byte(t) == value,
    {
        match value {
            0 => PacketType::Ack,
            1 => PacketType::Status,
            2 => PacketType::Data,
            3 => PacketType::JoinReq,
            _ => PacketType::JoinResp,
        }
    }

    /// The wire value of this packet type.
    pub fn to_byte(&self) -> (b: u8)
        ensures
            b == packet_type_byte(*self),
            b < 5,
    {
        match self {
            PacketType::Ack => 0,
            PacketType::Status => 1,
            PacketType::Data => 2,
            PacketType::JoinReq => 3,
            PacketType::JoinResp => 4,
        }
    }
}

/// The result carried by a status packet.
#[derive(Debug, Clone, Copy, PartialEq, Eq, Structural)]
pub enum StatusCode {
    Success,
    ChecksumMismatch,
}

/// The byte that stands for a status code on the wire.
pub open spec fn status_code_byte(c: StatusCode) -> u8 {
    match c {
        StatusCode::Success => 0,
        StatusCode::ChecksumMismatch => 1,
    }
}

/// The status code that a byte below 2 stands for.
pub open spec fn status_code_of_byte(b: u8) -> StatusCode {
    if b == 0 {
        StatusCode::Success
    } else {
        StatusCode::ChecksumMismatch
    }
}

impl StatusCode {
    /// The status code with wire value `value`; values from 2 on stand for no code.
    pub fn from_byte(value: u8) -> (c: StatusCode)
        requires
            value < 2,
        ensures
            c == status_code_of_byte(value),
            status_code_byte(c) == value,
    {
        if value == 0 {
            StatusCode::Success
        } else {
            StatusCode::ChecksumMismatch
        }
    }

    /// The wire value of this status code.
    pub fn to_byte(&self) -> (b: u8)
        ensures
            b == status_code_byte(*self),
            b < 2,
    {
        match self {
            StatusCode::Success => 0,
            StatusCode::ChecksumMismatch => 1,
        }
    }
}

// ---------------------------------------------------------------------------
// The meaning of the bytes of a packet.
// ---------------------------------------------------------------------------

/// The big-endian field of `n` bytes at `off`.
pub open spec fn field_of(s: Seq<u8>, off: int, n: int) -> nat {
    be_value(s.subrange(off, off + n))
}

pub open spec fn magic_of(s: Seq<u8>) -> nat {
    field_of(s, 0, 2)
}

pub open spec fn uid_of(s: Seq<u8>) -> nat {
    field_of(s, 2, 8)
}

pub open spec fn type_byte_of(s: Seq<u8>) -> u8 {
    s[10]
}

pub open spec fn src_of(s: Seq<u8>) -> nat {
    field_of(s, 11, 4)
}

pub open spec fn dst_of(s: Seq<u8>) -> nat {
    field_of(s, 15, 4)
}

pub open spec fn priority_of(s: Seq<u8>) -> u8 {
    s[19]
}

pub open spec fn token_of(s: Seq<u8>) -> nat {
    field_of(s, 20, 8)
}

pub open spec fn timestamp_of(s: Seq<u8>) -> nat {
    field_of(s, 28, 8)
}

/// Everything after the header.
pub open spec fn payload_of(s: Seq<u8>) -> Seq<u8> {
    s.subrange(PAYLOAD_OFFSET as int, s.len() as int)
}

/// The acknowledged uid in an ack payload.
pub open spec fn ack_uid_of(p: Seq<u8>) -> nat {
    field_of(p, 0, 8)
}

/// The bytes of the message field of a status payload (128 bytes from offset 1).
pub open spec fn status_message_field(p: Seq<u8>) -> Seq<u8> {
    p.subrange(1, 129)
}

/// The bytes of the name field of a data payload (its first 128 bytes).
pub open spec fn data_name_field(p: Seq<u8>) -> Seq<u8> {
    p.subrange(0, 128)
}

/// The data size recorded in a data payload: two bytes at offset 128.
pub open spec fn data_size_of(p: Seq<u8>) -> nat {
    field_of(p, 128, 2)
}

/// The data of a data payload: as many bytes from offset 130 as its size field says.
pub open spec fn data_bytes_of(p: Seq<u8>) -> Seq<u8> {
    p.subrange(130, 130 + data_size_of(p) as int)
}

/// The joining node's id in a join-request payload.
pub open spec fn join_node_id_of(p: Seq<u8>) -> nat {
    field_of(p, 0, 4)
}

/// The schedule field of a join-response payload.
pub open spec fn join_schedule_field(p: Seq<u8>) -> Seq<u8> {
    p.subrange(17, 17 + SCHEDULE_WIRE_SIZE)
}

// ---------------------------------------------------------------------------
// The bytes that the builders write.
// ---------------------------------------------------------------------------

/// The 36 header bytes of a packet.
pub open spec fn header_bytes(
    t: PacketType,
    src: u32,
    dst: u32,
    priority: u8,
    uid: u64,
    timestamp: u64,
) -> Seq<u8> {
    be_bytes(MAGIC as nat, 2) + be_bytes(uid as nat, 8) + seq![packet_type_byte(t)] + be_bytes(
        src as nat,
        4,
    ) + be_bytes(dst as nat, 4) + seq![priority] + be_bytes(TOKEN as nat, 8) + be_bytes(
        timestamp as nat,
        8,
    )
}

/// A zeroed buffer with a header written into it.
pub open spec fn headed(
    t: PacketType,
    src: u32,
    dst: u32,
    priority: u8,
    uid: u64,
    timestamp: u64,
) -> Seq<u8> {
    splice(zeros(PACKET_SIZE as nat), 0, header_bytes(t, src, dst, priority, uid, timestamp))
}

/// The bytes of an ack packet.
pub open spec fn ack_packet(src: u32, dst: u32, acked: u64, uid: u64, timestamp: u64) -> Seq<u8> {
    splice(headed(PacketType::Ack, src, dst, 0, uid, timestamp), 36, be_bytes(acked as nat, 8))
}

/// What writing a status payload does to the bytes `s`.
pub open spec fn with_status_payload(s: Seq<u8>, code: StatusCode, message: Seq<u8>) -> Seq<u8> {
    splice(s.update(36, status_code_byte(code)), 37, message)
}

/// What writing a data payload does to the bytes `s`: the name at offset 36,
/// the data length in two bytes at offset 164 and the data from offset 166.
pub open spec fn with_data_payload(s: Seq<u8>, name: Seq<u8>, data: Seq<u8>) -> Seq<u8> {
    splice(splice(splice(s, 36, name), 164, be_bytes(data.len(), 2)), 166, data)
}

/// What writing a join-response payload does to the bytes `s`.
pub open spec fn join_resp_payload_bytes(
    permitted: u8,
    slot_duration: u64,
    reference_clock: u64,
    slots: Seq<crate::schedule::Slot>,
) -> Seq<u8> {
    seq![permitted] + be_bytes(slot_duration as nat, 8) + be_bytes(reference_clock as nat, 8)
        + slots_bytes(slots)
}

pub open spec fn status_packet(
    src: u32,
    dst: u32,
    code: StatusCode,
    message: Seq<u8>,
    uid: u64,
    timestamp: u64,
) -> Seq<u8> {
    with_status_payload(headed(PacketType::Status, src, dst, 0, uid, timestamp), code, message)
}

pub open spec fn data_packet(
    src: u32,
    dst: u32,
    name: Seq<u8>,
    data: Seq<u8>,
    uid: u64,
    timestamp: u64,
) -> Seq<u8> {
    with_data_payload(headed(PacketType::Data, src, dst, 0, uid, timestamp), name, data)
}

pub open spec fn join_req_packet(src: u32, dst: u32, node_id: u32, uid: u64, timestamp: u64) -> Seq<
    u8,
> {
    splice(headed(PacketType::JoinReq, src, dst, 0, uid, timestamp), 36, be_bytes(node_id as nat, 4))
}

pub open spec fn join_resp_packet(
    src: u32,
    dst: u32,
    permitted: u8,
    slot_duration: u64,
    reference_clock: u64,
    slots: Seq<crate::schedule::Slot>,
    uid: u64,
    timestamp: u64,
) -> Seq<u8> {
    splice(
        headed(PacketType::JoinResp, src, dst, 0, uid, timestamp),
        36,
        join_resp_payload_bytes(permitted, slot_duration, reference_clock, slots),
    )
}

// ---------------------------------------------------------------------------
// Reading back what was written.
// ---------------------------------------------------------------------------

pub proof fn lemma_header_bytes_len(
    t: PacketType,
    src: u32,
    dst: u32,
    priority: u8,
    uid: u64,
    timestamp: u64,
)
    ensures
        header_bytes(t, src, dst, priority, uid, timestamp).len() == PAYLOAD_OFFSET,
{
    lemma_be_bytes_len(MAGIC as nat, 2);
    lemma_be_bytes_len(uid as nat, 8);
    lemma_be_bytes_len(src as nat, 4);
    lemma_be_bytes_len(dst as nat, 4);
    lemma_be_bytes_len(TOKEN as nat, 8);
    lemma_be_bytes_len(timestamp as nat, 8);
}

/// A header written over the first 36 bytes of `s` reads back field by field,
/// and leaves the payload alone.
pub proof fn lemma_header_fields(
    s: Seq<u8>,
    t: PacketType,
    src: u32,
    dst: u32,
    priority: u8,
    uid: u64,
    timestamp: u64,
)
    requires
        s.len() >= PAYLOAD_OFFSET,
    ensures
        ({
            let w = splice(s, 0, header_bytes(t, src, dst, priority, uid, timestamp));
            &&& w.len() == s.len()
            &&& magic_of(w) == MAGIC
            &&& uid_of(w) == uid
            &&& type_byte_of(w) == packet_type_byte(t)
            &&& src_of(w) == src
            &&& dst_of(w) == dst
            &&& priority_of(w) == priority
            &&& token_of(w) == TOKEN
            &&& timestamp_of(w) == timestamp
            &&& payload_of(w) == payload_of(s)
        }),
{
    let h = header_bytes(t, src, dst, priority, uid, timestamp);
    let w = splice(s, 0, h);
    lemma_header_bytes_len(t, src, dst, priority, uid, timestamp);
    lemma_pow256_values();
    lemma_be_roundtrip(MAGIC as nat, 2);
    lemma_be_roundtrip(uid as nat, 8);
    lemma_be_roundtrip(src as nat, 4);
    lemma_be_roundtrip(dst as nat, 4);
    lemma_be_roundtrip(TOKEN as nat, 8);
    lemma_be_roundtrip(timestamp as nat, 8);
    assert(w.subrange(0, 2) =~= be_bytes(MAGIC as nat, 2));
    assert(w.subrange(2, 10) =~= be_bytes(uid as nat, 8));
    assert(w.subrange(11, 15) =~= be_bytes(src as nat, 4));
    assert(w.subrange(15, 19) =~= be_bytes(dst as nat, 4));
    assert(w.subrange(20, 28) =~= be_bytes(TOKEN as nat, 8));
    assert(w.subrange(28, 36) =~= be_bytes(timestamp as nat, 8));
    assert(payload_of(w) =~= payload_of(s));
}

/// A write at or after offset 36 leaves every header field as it was.
pub proof fn lemma_header_kept(s: Seq<u8>, w: Seq<u8>)
    requires
        s.len() >= PAYLOAD_OFFSET,
        w.len() == s.len(),
        w.subrange(0, PAYLOAD_OFFSET as int) == s.subrange(0, PAYLOAD_OFFSET as int),
    ensures
        magic_of(w) == magic_of(s),
        uid_of(w) == uid_of(s),
        type_byte_of(w) == type_byte_of(s),
        src_of(w) == src_of(s),
        dst_of(w) == dst_of(s),
        priority_of(w) == priority_of(s),
        token_of(w) == token_of(s),
        timestamp_of(w) == timestamp_of(s),
{
    let a = w.subrange(0, PAYLOAD_OFFSET as int);
    assert(w.subrange(0, 2) =~= a.subrange(0, 2));
    assert(s.subrange(0, 2) =~= a.subrange(0, 2));
    assert(w.subrange(2, 10) =~= a.subrange(2, 10));
    assert(s.subrange(2, 10) =~= a.subrange(2, 10));
    assert(w.subrange(11, 15) =~= a.subrange(11, 15));
    assert(s.subrange(11, 15) =~= a.subrange(11, 15));
    assert(w.subrange(15, 19) =~= a.subrange(15, 19));
    assert(s.subrange(15, 19) =~= a.subrange(15, 19));
    assert(w.subrange(20, 28) =~= a.subrange(20, 28));
    assert(s.subrange(20, 28) =~= a.subrange(20, 28));
    assert(w.subrange(28, 36) =~= a.subrange(28, 36));
    assert(s.subrange(28, 36) =~= a.subrange(28, 36));
    assert(w[10] == a[10]);
    assert(w[19] == a[19]);
}

// ---------------------------------------------------------------------------
// Reading packets.
// ---------------------------------------------------------------------------

/// A packet seen through its buffer.
pub struct PacketView {
    pub buffer: PacketBuffer,
}

/// The payload of a packet, seen according to the packet's type.
pub enum PayloadView<'a> {
    Ack(AckView<'a>),
    Status(StatusView<'a>),
    Data(DataView<'a>),
    JoinReq(JoinReqView<'a>),
    JoinResp(JoinRespView<'a>),
}

/// The payload of an ack packet.
pub struct AckView<'a> {
    payload: &'a [u8],
}

/// The payload of a status packet.
pub struct StatusView<'a> {
    payload: &'a [u8],
}

/// The payload of a data packet.
pub struct DataView<'a> {
    payload: &'a [u8],
}

/// The payload of a join request.
pub struct JoinReqView<'a> {
    payload: &'a [u8],
}

/// The payload of a join response.
pub struct JoinRespView<'a> {
    payload: &'a [u8],
}

/// `pv` is the view of payload `p` that packet type `t` calls for.
pub open spec fn payload_view_of(pv: PayloadView, t: PacketType, p: Seq<u8>) -> bool {
    match pv {
        PayloadView::Ack(v) => t == PacketType::Ack && v.payload_bytes() == p,
        PayloadView::Status(v) => t == PacketType::Status && v.payload_bytes() == p,
        PayloadView::Data(v) => t == PacketType::Data && v.payload_bytes() == p,
        PayloadView::JoinReq(v) => t == PacketType::JoinReq && v.payload_bytes() == p,
        PayloadView::JoinResp(v) => t == PacketType::JoinResp && v.payload_bytes() == p,
    }
}

impl PacketView {
    /// The bytes of the packet's buffer.
    pub open spec fn bytes(&self) -> Seq<u8> {
        self.buffer.bytes()
    }

    pub fn new(buffer: PacketBuffer) -> (v: Self)
        ensures
            v.buffer == buffer,
    {
        PacketView { buffer }
    }

    pub fn magic(&self) -> (m: u16)
        requires
            self.buffer.wf(),
        ensures
            m == magic_of(self.bytes()),
    {
        proof {
            lemma_pow256_values();
            lemma_be_value_bound(self.bytes().subrange(0, 2));
        }
        read_be(self.buffer.as_slice(), 0, 2) as u16
    }

    pub fn uid(&self) -> (u: u64)
        requires
            self.buffer.wf(),
        ensures
            u == uid_of(self.bytes()),
    {
        read_be(self.buffer.as_slice(), 2, 8)
    }

    /// Whether the type byte names a packet type.
    pub fn has_known_type(&self) -> (b: bool)
        requires
            self.buffer.wf(),
        ensures
            b == (type_byte_of(self.bytes()) < 5),
    {
        self.buffer.as_slice()[10] < 5
    }

    /// The packet's type; the type byte must name one.
    pub fn ptype(&self) -> (t: PacketType)
        requires
            self.buffer.wf(),
            type_byte_of(self.bytes()) < 5,
        ensures
            t == packet_type_of_byte(type_byte_of(self.bytes())),
    {
        PacketType::from_byte(self.buffer.as_slice()[10])
    }

    pub fn src(&self) -> (s: u32)
        requires
            self.buffer.wf(),
        ensures
            s == src_of(self.bytes()),
    {
        proof {
            lemma_pow256_values();
            lemma_be_value_bound(self.bytes().subrange(11, 15));
        }
        read_be(self.buffer.as_slice(), 11, 4) as u32
    }

    pub fn dst(&self) -> (d: u32)
        requires
            self.buffer.wf(),
        ensures
            d == dst_of(self.bytes()),
    {
        proof {
            lemma_pow256_values();
            lemma_be_value_bound(self.bytes().subrange(15, 19));
        }
        read_be(self.buffer.as_slice(), 15, 4) as u32
    }

    /// The payload, viewed according to the packet's type.
    pub fn payload(&self) -> (p: PayloadView<'_>)
        requires
            self.buffer.wf(),
            type_byte_of(self.bytes()) < 5,
        ensures
            payload_view_of(
                p,
                packet_type_of_byte(type_byte_of(self.bytes())),
                payload_of(self.bytes()),
            ),
    {
        let payload = self.payload_slice();
        match self.ptype() {
            PacketType::Ack => PayloadView::Ack(AckView { payload }),
            PacketType::Status => PayloadView::Status(StatusView { payload }),
            PacketType::Data => PayloadView::Data(DataView { payload }),
            PacketType::JoinReq => PayloadView::JoinReq(JoinReqView { payload }),
            PacketType::JoinResp => PayloadView::JoinResp(JoinRespView { payload }),
        }
    }

    fn payload_slice(&self) -> (p: &[u8])
        requires
            self.buffer.wf(),
        ensures
            p@ == payload_of(self.bytes()),
            p@.len() == PAYLOAD_LEN,
    {
        vstd::slice::slice_subrange(self.buffer.as_slice(), PAYLOAD_OFFSET, PACKET_SIZE)
    }
}

impl<'a> AckView<'a> {
    #[verifier::type_invariant]
    spec fn inv(&self) -> bool {
        self.payload@.len() == PAYLOAD_LEN
    }

    /// The payload bytes.
    pub closed spec fn payload_bytes(&self) -> Seq<u8> {
        self.payload@
    }

    /// The acknowledged packet uid.
    pub fn uid(&self) -> (u: u64)
        ensures
            self.payload_bytes().len() == PAYLOAD_LEN,
            u == ack_uid_of(self.payload_bytes()),
    {
        proof {
            use_type_invariant(self);
        }
        read_be(self.payload, 0, 8)
    }
}

impl<'a> StatusView<'a> {
    #[verifier::type_invariant]
    spec fn inv(&self) -> bool {
        self.payload@.len() == PAYLOAD_LEN
    }

    pub closed spec fn payload_bytes(&self) -> Seq<u8> {
        self.payload@
    }

    /// Whether the code byte names a status code.
    pub fn has_known_code(&self) -> (b: bool)
        ensures
            self.payload_bytes().len() == PAYLOAD_LEN,
            b == (self.payload_bytes()[0] < 2),
    {
        proof {
            use_type_invariant(self);
        }
        self.payload[0] < 2
    }

    /// Whether the 128-byte message field is valid UTF-8.
    pub fn message_is_text(&self) -> (b: bool)
        ensures
            self.payload_bytes().len() == PAYLOAD_LEN,
            b == valid_utf8(status_message_field(self.payload_bytes())),
    {
        proof {
            use_type_invariant(self);
        }
        is_text(vstd::slice::slice_subrange(self.payload, 1, 129))
    }

    /// The status code; its byte must name one.
    pub fn code(&self) -> (c: StatusCode)
        requires
            self.payload_bytes()[0] < 2,
        ensures
            self.payload_bytes().len() == PAYLOAD_LEN,
            c == status_code_of_byte(self.payload_bytes()[0]),
    {
        proof {
            use_type_invariant(self);
        }
        StatusCode::from_byte(self.payload[0])
    }

    /// The message: the 128-byte message field without its trailing zeros;
    /// the field must be valid UTF-8.
    pub fn message(&self) -> (m: &str)
        requires
            valid_utf8(status_message_field(self.payload_bytes())),
        ensures
            self.payload_bytes().len() == PAYLOAD_LEN,
            m.spec_bytes() == trim_zeros(status_message_field(self.payload_bytes())),
            m@ == decode_utf8(trim_zeros(status_message_field(self.payload_bytes()))),
            m.spec_bytes().len() <= 128,
            m@.len() == 0 || m@.last() != '\0',
    {
        proof {
            use_type_invariant(self);
        }
        text_of_field(vstd::slice::slice_subrange(self.payload, 1, 129))
    }
}

impl<'a> DataView<'a> {
    #[verifier::type_invariant]
    spec fn inv(&self) -> bool {
        self.payload@.len() == PAYLOAD_LEN
    }

    pub closed spec fn payload_bytes(&self) -> Seq<u8> {
        self.payload@
    }

    /// Whether the 128-byte name field is valid UTF-8.
    pub fn name_is_text(&self) -> (b: bool)
        ensures
            self.payload_bytes().len() == PAYLOAD_LEN,
            b == valid_utf8(data_name_field(self.payload_bytes())),
    {
        proof {
            use_type_invariant(self);
        }
        is_text(vstd::slice::slice_subrange(self.payload, 0, 128))
    }

    /// Whether the recorded data size fits the payload.
    pub fn data_fits(&self) -> (b: bool)
        ensures
            self.payload_bytes().len() == PAYLOAD_LEN,
            b == (130 + data_size_of(self.payload_bytes()) <= PAYLOAD_LEN),
    {
        let n = self.size();
        n <= PAYLOAD_LEN - 130
    }

    /// The name: the 128-byte name field without its trailing zeros; the
    /// field must be valid UTF-8.
    pub fn name(&self) -> (n: &str)
        requires
            valid_utf8(data_name_field(self.payload_bytes())),
        ensures
            self.payload_bytes().len() == PAYLOAD_LEN,
            n.spec_bytes() == trim_zeros(data_name_field(self.payload_bytes())),
            n@ == decode_utf8(trim_zeros(data_name_field(self.payload_bytes()))),
            n.spec_bytes().len() <= 128,
            n@.len() == 0 || n@.last() != '\0',
    {
        proof {
            use_type_invariant(self);
        }
        text_of_field(vstd::slice::slice_subrange(self.payload, 0, 128))
    }

    /// The data size recorded in the packet.
    pub fn size(&self) -> (n: usize)
        ensures
            self.payload_bytes().len() == PAYLOAD_LEN,
            n == data_size_of(self.payload_bytes()),
            n < 0x1_0000,
    {
        proof {
            use_type_invariant(self);
            lemma_pow256_values();
            lemma_be_value_bound(self.payload@.subrange(128, 130));
        }
        read_be(self.payload, 128, 2) as usize
    }

    /// The data: `size()` bytes from offset 130 of the payload; they must lie
    /// within the payload.
    pub fn data(&self) -> (d: &[u8])
        requires
            130 + data_size_of(self.payload_bytes()) <= PAYLOAD_LEN,
        ensures
            self.payload_bytes().len() == PAYLOAD_LEN,
            d@ == data_bytes_of(self.payload_bytes()),
            d@.len() == data_size_of(self.payload_bytes()),
    {
        proof {
            use_type_invariant(self);
        }
        let n = self.size();
        vstd::slice::slice_subrange(self.payload, 130, 130 + n)
    }
}

impl<'a> JoinReqView<'a> {
    #[verifier::type_invariant]
    spec fn inv(&self) -> bool {
        self.payload@.len() == PAYLOAD_LEN
    }

    pub closed spec fn payload_bytes(&self) -> Seq<u8> {
        self.payload@
    }

    /// The id of the node that asks to join.
    pub fn node_id(&self) -> (id: u32)
        ensures
            self.payload_bytes().len() == PAYLOAD_LEN,
            id == join_node_id_of(self.payload_bytes()),
    {
        proof {
            use_type_invariant(self);
            lemma_pow256_values();
            lemma_be_value_bound(self.payload@.subrange(0, 4));
        }
        read_be(self.payload, 0, 4) as u32
    }
}

impl<'a> JoinRespView<'a> {
    #[verifier::type_invariant]
    spec fn inv(&self) -> bool {
        self.payload@.len() == PAYLOAD_LEN
    }

    pub closed spec fn payload_bytes(&self) -> Seq<u8> {
        self.payload@
    }

    /// 1 when the orchestrator admits the node.
    pub fn permitted(&self) -> (p: u8)
        ensures
            self.payload_bytes().len() == PAYLOAD_LEN,
            p == self.payload_bytes()[0],
    {
        proof {
            use_type_invariant(self);
        }
        self.payload[0]
    }

    /// The slot duration in microseconds.
    pub fn slot_duration(&self) -> (d: u64)
        ensures
            self.payload_bytes().len() == PAYLOAD_LEN,
            d == field_of(self.payload_bytes(), 1, 8),
    {
        proof {
            use_type_invariant(self);
        }
        read_be(self.payload, 1, 8)
    }

    /// The network's reference clock in microseconds since the epoch.
    pub fn reference_clock(&self) -> (c: u64)
        ensures
            self.payload_bytes().len() == PAYLOAD_LEN,
            c == field_of(self.payload_bytes(), 9, 8),
    {
        proof {
            use_type_invariant(self);
        }
        read_be(self.payload, 9, 8)
    }

    /// Whether every slot-type byte of the schedule names a slot type.
    pub fn schedule_is_readable(&self) -> (b: bool)
        ensures
            self.payload_bytes().len() == PAYLOAD_LEN,
            b == slot_type_bytes_valid(
                join_schedule_field(self.payload_bytes()),
                SLOTFRAME_SIZE as nat,
            ),
    {
        proof {
            use_type_invariant(self);
        }
        let ghost f = join_schedule_field(self.payload_bytes());
        let mut i: usize = 0;
        while i < SLOTFRAME_SIZE
            invariant
                i <= SLOTFRAME_SIZE,
                self.payload@.len() == PAYLOAD_LEN,
                f == join_schedule_field(self.payload@),
                forall|j: int| 0 <= j < i ==> #[trigger] f[j * 13] < 3,
            decreases SLOTFRAME_SIZE - i,
        {
            assert(f[i * 13] == self.payload@[17 + 13 * i]);
            if self.payload[17 + 13 * i] >= 3 {
                return false;
            }
            i = i + 1;
        }
        true
    }

    /// The schedule; every slot-type byte in it must name a slot type.
    pub fn schedule(&self) -> (s: Schedule)
        requires
            slot_type_bytes_valid(
                join_schedule_field(self.payload_bytes()),
                SLOTFRAME_SIZE as nat,
            ),
        ensures
            self.payload_bytes().len() == PAYLOAD_LEN,
            s.slots@ == slots_of_bytes(
                join_schedule_field(self.payload_bytes()),
                SLOTFRAME_SIZE as nat,
            ),
    {
        proof {
            use_type_invariant(self);
        }
        Schedule::read_from(self.payload, 17)
    }
}

// ---------------------------------------------------------------------------
// Building packets.
// ---------------------------------------------------------------------------

/// Writes a packet into a buffer.
pub struct PacketBuilder {
    buffer: PacketBuffer,
}

impl PacketBuilder {
    /// The buffer being written.
    pub closed spec fn buffer_view(&self) -> PacketBuffer {
        self.buffer
    }

    /// Starts a packet in `buffer`, setting all its bytes to zero.
    pub fn new(buffer: PacketBuffer) -> (b: Self)
        requires
            buffer.wf(),
        ensures
            b.buffer_view().bytes() == zeros(PACKET_SIZE as nat),
            b.buffer_view().size_view() == buffer.size_view(),
            b.buffer_view().pool_index() == buffer.pool_index(),
            b.buffer_view().wf(),
    {
        let mut buffer = buffer;
        buffer.clear();
        PacketBuilder { buffer }
    }

    /// The buffer with what has been written.
    pub fn into_buffer(self) -> (b: PacketBuffer)
        ensures
            b == self.buffer_view(),
    {
        self.buffer
    }

    /// Writes the header with the given uid and timestamp.
    pub fn write_header_fields(
        &mut self,
        ptype: PacketType,
        src: u32,
        dst: u32,
        priority: u8,
        uid: u64,
        timestamp: u64,
    )
        requires
            old(self).buffer_view().wf(),
        ensures
            final(self).buffer_view().bytes() == splice(
                old(self).buffer_view().bytes(),
                0,
                header_bytes(ptype, src, dst, priority, uid, timestamp),
            ),
            final(self).buffer_view().size_view() == old(self).buffer_view().size_view(),
            final(self).buffer_view().pool_index() == old(self).buffer_view().pool_index(),
            final(self).buffer_view().wf(),
    {
        let ghost start = self.buffer.bytes();
        self.buffer.put_be(0, MAGIC as u64, 2);
        self.buffer.put_be(2, uid, 8);
        self.buffer.put_byte(10, ptype.to_byte());
        self.buffer.put_be(11, src as u64, 4);
        self.buffer.put_be(15, dst as u64, 4);
        self.buffer.put_byte(19, priority);
        self.buffer.put_be(20, TOKEN, 8);
        self.buffer.put_be(28, timestamp, 8);
        proof {
            lemma_be_bytes_len(MAGIC as nat, 2);
            lemma_be_bytes_len(uid as nat, 8);
            lemma_be_bytes_len(src as nat, 4);
            lemma_be_bytes_len(dst as nat, 4);
            lemma_be_bytes_len(TOKEN as nat, 8);
            lemma_be_bytes_len(timestamp as nat, 8);
            assert(self.buffer.bytes() =~= splice(
                start,
                0,
                header_bytes(ptype, src, dst, priority, uid, timestamp),
            ));
        }
    }

    /// Writes the header, with a fresh random uid and the current time.
    fn write_header(&mut self, ptype: PacketType, src: u32, dst: u32, priority: u8)
        requires
            old(self).buffer_view().wf(),
        ensures
            ({
                let w = final(self).buffer_view().bytes();
                &&& w == splice(
                    old(self).buffer_view().bytes(),
                    0,
                    header_bytes(
                        ptype,
                        src,
                        dst,
                        priority,
                        uid_of(w) as u64,
                        timestamp_of(w) as u64,
                    ),
                )
                &&& uid_of(w) >= 1
                &&& uid_of(w) < 0x1_0000_0000_0000_0000
                &&& timestamp_of(w) < 0x1_0000_0000_0000_0000
            }),
            final(self).buffer_view().size_view() == old(self).buffer_view().size_view(),
            final(self).buffer_view().pool_index() == old(self).buffer_view().pool_index(),
            final(self).buffer_view().wf(),
    {
        let uid = fresh_uid();
        let timestamp = now_micros();
        self.write_header_fields(ptype, src, dst, priority, uid, timestamp);
        proof {
            lemma_header_fields(
                old(self).buffer_view().bytes(),
                ptype,
                src,
                dst,
                priority,
                uid,
                timestamp,
            );
        }
    }

    /// Writes an ack payload: the acknowledged uid; the packet is 44 bytes.
    pub fn write_ack_payload(&mut self, uid: u64)
        requires
            old(self).buffer_view().wf(),
        ensures
            final(self).buffer_view().bytes() == splice(
                old(self).buffer_view().bytes(),
                36,
                be_bytes(uid as nat, 8),
            ),
            final(self).buffer_view().size_view() == 44,
            final(self).buffer_view().pool_index() == old(self).buffer_view().pool_index(),
            final(self).buffer_view().wf(),
    {
        self.buffer.put_be(36, uid, 8);
        self.buffer.set_size(44);
    }

    /// Writes a status payload: the code byte, then the message; the packet
    /// ends after the message.
    pub fn write_status_payload(&mut self, code: StatusCode, message: &str)
        requires
            old(self).buffer_view().wf(),
            37 + message.spec_bytes().len() <= PACKET_SIZE,
        ensures
            final(self).buffer_view().bytes() == with_status_payload(
                old(self).buffer_view().bytes(),
                code,
                message.spec_bytes(),
            ),
            final(self).buffer_view().size_view() == 37 + message.spec_bytes().len(),
            final(self).buffer_view().pool_index() == old(self).buffer_view().pool_index(),
            final(self).buffer_view().wf(),
    {
        self.buffer.put_byte(36, code.to_byte());
        let m = message.as_bytes();
        self.buffer.put_bytes(37, m);
        self.buffer.set_size(37 + m.len());
    }

    /// Writes a data payload: the name from offset 36, the data length in
    /// two bytes at offset 164, the data from offset 166; the packet ends
    /// after the data.
    pub fn write_data_payload(&mut self, name: &str, data: &[u8])
        requires
            old(self).buffer_view().wf(),
            36 + name.spec_bytes().len() <= PACKET_SIZE,
            166 + data@.len() <= PACKET_SIZE,
        ensures
            final(self).buffer_view().bytes() == with_data_payload(
                old(self).buffer_view().bytes(),
                name.spec_bytes(),
                data@,
            ),
            final(self).buffer_view().size_view() == 166 + data@.len(),
            final(self).buffer_view().pool_index() == old(self).buffer_view().pool_index(),
            final(self).buffer_view().wf(),
    {
        let n = name.as_bytes();
        self.buffer.put_bytes(36, n);
        self.buffer.put_be(164, data.len() as u64, 2);
        self.buffer.put_bytes(166, data);
        self.buffer.set_size(166 + data.len());
    }

    /// Writes a join-request payload: the joining node's id; the packet is 40 bytes.
    pub fn write_join_req_payload(&mut self, node_id: u32)
        requires
            old(self).buffer_view().wf(),
        ensures
            final(self).buffer_view().bytes() == splice(
                old(self).buffer_view().bytes(),
                36,
                be_bytes(node_id as nat, 4),
            ),
            final(self).buffer_view().size_view() == 40,
            final(self).buffer_view().pool_index() == old(self).buffer_view().pool_index(),
            final(self).buffer_view().wf(),
    {
        self.buffer.put_be(36, node_id as u64, 4);
        self.buffer.set_size(40);
    }

    /// Writes a join-response payload: the permission byte, the slot
    /// duration, the reference clock and the schedule; the packet is 183 bytes.
    pub fn write_join_resp_payload(
        &mut self,
        permitted: u8,
        slot_duration: u64,
        reference_clock: u64,
        schedule: &Schedule,
    )
        requires
            old(self).buffer_view().wf(),
        ensures
            final(self).buffer_view().bytes() == splice(
                old(self).buffer_view().bytes(),
                36,
                join_resp_payload_bytes(permitted, slot_duration, reference_clock, schedule.slots@),
            ),
            final(self).buffer_view().size_view() == 183,
            final(self).buffer_view().pool_index() == old(self).buffer_view().pool_index(),
            final(self).buffer_view().wf(),
    {
        let ghost start = self.buffer.bytes();
        self.buffer.put_byte(36, permitted);
        self.buffer.put_be(37, slot_duration, 8);
        self.buffer.put_be(45, reference_clock, 8);
        self.buffer.put_schedule(53, schedule);
        self.buffer.set_size(183);
        proof {
            lemma_be_bytes_len(slot_duration as nat, 8);
            lemma_be_bytes_len(reference_clock as nat, 8);
            lemma_schedule_roundtrip(*schedule);
            assert(self.buffer.bytes() =~= splice(
                start,
                36,
                join_resp_payload_bytes(permitted, slot_duration, reference_clock, schedule.slots@),
            ));
        }
    }

    /// Builds an ack for packet `uid` from `src` to `dst` in a buffer taken
    /// from `pool`; `None` when every buffer of the pool is in use.
    pub fn new_ack(pool: &mut PacketBufferPool, src: u32, dst: u32, uid: u64) -> (r: Option<
        PacketBuffer,
    >)
        requires
            old(pool).wf(),
        ensures
            pool_lends(*old(pool), *final(pool), r),
            r matches Some(b) ==> {
                let w = b.bytes();
                &&& w == ack_packet(src, dst, uid, uid_of(w) as u64, timestamp_of(w) as u64)
                &&& uid_of(w) >= 1
                &&& b.size_view() == 44
            },
    {
        let buffer = match pool.take() {
            Some(b) => b,
            None => return None,
        };
        let mut builder = Self::new(buffer);
        builder.write_header(PacketType::Ack, src, dst, 0);
        let ghost w1 = builder.buffer.bytes();
        builder.write_ack_payload(uid);
        proof {
            let w2 = builder.buffer.bytes();
            lemma_be_bytes_len(uid as nat, 8);
            assert(w2.subrange(0, 36) =~= w1.subrange(0, 36));
            lemma_header_kept(w1, w2);
        }
        Some(builder.buffer)
    }

    /// Builds a status packet from `src` to `dst` in a buffer taken from
    /// `pool`; `None` when every buffer of the pool is in use.
    pub fn new_status(
        pool: &mut PacketBufferPool,
        src: u32,
        dst: u32,
        code: StatusCode,
        message: &str,
    ) -> (r: Option<PacketBuffer>)
        requires
            old(pool).wf(),
            37 + message.spec_bytes().len() <= PACKET_SIZE,
        ensures
            pool_lends(*old(pool), *final(pool), r),
            r matches Some(b) ==> {
                let w = b.bytes();
                &&& w == status_packet(
                    src,
                    dst,
                    code,
                    message.spec_bytes(),
                    uid_of(w) as u64,
                    timestamp_of(w) as u64,
                )
                &&& uid_of(w) >= 1
                &&& b.size_view() == 37 + message.spec_bytes().len()
            },
    {
        let buffer = match pool.take() {
            Some(b) => b,
            None => return None,
        };
        let mut builder = Self::new(buffer);
        builder.write_header(PacketType::Status, src, dst, 0);
        let ghost w1 = builder.buffer.bytes();
        builder.write_status_payload(code, message);
        proof {
            let w2 = builder.buffer.bytes();
            assert(w2.subrange(0, 36) =~= w1.subrange(0, 36));
            lemma_header_kept(w1, w2);
        }
        Some(builder.buffer)
    }

    /// Builds a data packet named `name` carrying `data` from `src` to `dst`
    /// in a buffer taken from `pool`; `None` when every buffer of the pool is
    /// in use.
    pub fn new_data(
        pool: &mut PacketBufferPool,
        src: u32,
        dst: u32,
        name: &str,
        data: &[u8],
    ) -> (r: Option<PacketBuffer>)
        requires
            old(pool).wf(),
            36 + name.spec_bytes().len() <= PACKET_SIZE,
            166 + data@.len() <= PACKET_SIZE,
        ensures
            pool_lends(*old(pool), *final(pool), r),
            r matches Some(b) ==> {
                let w = b.bytes();
                &&& w == data_packet(
                    src,
                    dst,
                    name.spec_bytes(),
                    data@,
                    uid_of(w) as u64,
                    timestamp_of(w) as u64,
                )
                &&& uid_of(w) >= 1
                &&& b.size_view() == 166 + data@.len()
            },
    {
        let buffer = match pool.take() {
            Some(b) => b,
            None => return None,
        };
        let mut builder = Self::new(buffer);
        builder.write_header(PacketType::Data, src, dst, 0);
        let ghost w1 = builder.buffer.bytes();
        builder.write_data_payload(name, data);
        proof {
            let w2 = builder.buffer.bytes();
            assert(w2.subrange(0, 36) =~= w1.subrange(0, 36));
            lemma_header_kept(w1, w2);
        }
        Some(builder.buffer)
    }

    /// Builds a request of node `node_id` to join the network, from `src` to
    /// `dst`, in a buffer taken from `pool`; `None` when every buffer of the
    /// pool is in use.
    pub fn new_join_req(pool: &mut PacketBufferPool, src: u32, dst: u32, node_id: u32) -> (r:
        Option<PacketBuffer>)
        requires
            old(pool).wf(),
        ensures
            pool_lends(*old(pool), *final(pool), r),
            r matches Some(b) ==> {
                let w = b.bytes();
                &&& w == join_req_packet(src, dst, node_id, uid_of(w) as u64, timestamp_of(w) as u64)
                &&& uid_of(w) >= 1
                &&& b.size_view() == 40
            },
    {
        let buffer = match pool.take() {
            Some(b) => b,
            None => return None,
        };
        let mut builder = Self::new(buffer);
        builder.write_header(PacketType::JoinReq, src, dst, 0);
        let ghost w1 = builder.buffer.bytes();
        builder.write_join_req_payload(node_id);
        proof {
            let w2 = builder.buffer.bytes();
            lemma_be_bytes_len(node_id as nat, 4);
            assert(w2.subrange(0, 36) =~= w1.subrange(0, 36));
            lemma_header_kept(w1, w2);
        }
        Some(builder.buffer)
    }

    /// Builds the answer to a join request, from `src` to `dst`, in a buffer
    /// taken from `pool`: whether the node is admitted, the slot duration,
    /// the reference clock and the schedule. `None` when every buffer of the
    /// pool is in use.
    pub fn new_join_resp(
        pool: &mut PacketBufferPool,
        src: u32,
        dst: u32,
        permitted: u8,
        slot_duration: u64,
        reference_clock: u64,
        schedule: &Schedule,
    ) -> (r: Option<PacketBuffer>)
        requires
            old(pool).wf(),
        ensures
            pool_lends(*old(pool), *final(pool), r),
            r matches Some(b) ==> {
                let w = b.bytes();
                &&& w == join_resp_packet(
                    src,
                    dst,
                    permitted,
                    slot_duration,
                    reference_clock,
                    schedule.slots@,
                    uid_of(w) as u64,
                    timestamp_of(w) as u64,
                )
                &&& uid_of(w) >= 1
                &&& b.size_view() == 183
            },
    {
        let buffer = match pool.take() {
            Some(b) => b,
            None => return None,
        };
        let mut builder = Self::new(buffer);
        builder.write_header(PacketType::JoinResp, src, dst, 0);
        let ghost w1 = builder.buffer.bytes();
        builder.write_join_resp_payload(permitted, slot_duration, reference_clock, schedule);
        proof {
            let w2 = builder.buffer.bytes();
            lemma_be_bytes_len(slot_duration as nat, 8);
            lemma_be_bytes_len(reference_clock as nat, 8);
            lemma_schedule_roundtrip(*schedule);
            assert(w2.subrange(0, 36) =~= w1.subrange(0, 36));
            lemma_header_kept(w1, w2);
        }
        Some(builder.buffer)
    }
}

// ---------------------------------------------------------------------------
// Laws: what a reader gets back from what a builder wrote.
// ---------------------------------------------------------------------------

/// Every header field of a built packet reads back as written, and the type
/// byte names the packet type it was written for.
pub proof fn law_header_roundtrip(
    t: PacketType,
    src: u32,
    dst: u32,
    priority: u8,
    uid: u64,
    timestamp: u64,
)
    ensures
        ({
            let w = headed(t, src, dst, priority, uid, timestamp);
            &&& w.len() == PACKET_SIZE
            &&& magic_of(w) == MAGIC
            &&& uid_of(w) == uid
            &&& type_byte_of(w) < 5
            &&& packet_type_of_byte(type_byte_of(w)) == t
            &&& src_of(w) == src
            &&& dst_of(w) == dst
            &&& priority_of(w) == priority
            &&& token_of(w) == TOKEN
            &&& timestamp_of(w) == timestamp
            &&& payload_of(w) == zeros(PAYLOAD_LEN as nat)
        }),
{
    lemma_header_fields(zeros(PACKET_SIZE as nat), t, src, dst, priority, uid, timestamp);
    assert(payload_of(zeros(PACKET_SIZE as nat)) =~= zeros(PAYLOAD_LEN as nat));
}

/// A payload write from offset 36 on leaves every header field as it was.
proof fn lemma_payload_write_keeps_header(h: Seq<u8>, off: int, t: Seq<u8>)
    requires
        h.len() == PACKET_SIZE,
        36 <= off,
        off + t.len() <= PACKET_SIZE,
    ensures
        splice(h, off, t).len() == PACKET_SIZE,
        splice(h, off, t).subrange(0, 36) == h.subrange(0, 36),
        payload_of(splice(h, off, t)) == splice(payload_of(h), off - 36, t),
{
    assert(splice(h, off, t).subrange(0, 36) =~= h.subrange(0, 36));
    assert(payload_of(splice(h, off, t)) =~= splice(payload_of(h), off - 36, t));
}

/// An ack reads back as an ack from `src` to `dst` that acknowledges `acked`.
pub proof fn law_ack_roundtrip(src: u32, dst: u32, acked: u64, uid: u64, timestamp: u64)
    ensures
        ({
            let w = ack_packet(src, dst, acked, uid, timestamp);
            &&& w.len() == PACKET_SIZE
            &&& magic_of(w) == MAGIC
            &&& uid_of(w) == uid
            &&& packet_type_of_byte(type_byte_of(w)) == PacketType::Ack
            &&& type_byte_of(w) < 5
            &&& src_of(w) == src
            &&& dst_of(w) == dst
            &&& timestamp_of(w) == timestamp
            &&& ack_uid_of(payload_of(w)) == acked
        }),
{
    let h = headed(PacketType::Ack, src, dst, 0, uid, timestamp);
    law_header_roundtrip(PacketType::Ack, src, dst, 0, uid, timestamp);
    lemma_pow256_values();
    lemma_be_roundtrip(acked as nat, 8);
    lemma_payload_write_keeps_header(h, 36, be_bytes(acked as nat, 8));
    let w = ack_packet(src, dst, acked, uid, timestamp);
    lemma_header_kept(h, w);
    assert(payload_of(w).subrange(0, 8) =~= be_bytes(acked as nat, 8));
}

/// A status packet reads back its code, and, when the message fits the
/// 128-byte message field, the message without trailing zero bytes (and it is
/// readable whenever the message is valid UTF-8).
pub proof fn law_status_roundtrip(
    src: u32,
    dst: u32,
    code: StatusCode,
    message: Seq<u8>,
    uid: u64,
    timestamp: u64,
)
    requires
        37 + message.len() <= PACKET_SIZE,
    ensures
        ({
            let w = status_packet(src, dst, code, message, uid, timestamp);
            let p = payload_of(w);
            &&& w.len() == PACKET_SIZE
            &&& magic_of(w) == MAGIC
            &&& uid_of(w) == uid
            &&& packet_type_of_byte(type_byte_of(w)) == PacketType::Status
            &&& type_byte_of(w) < 5
            &&& src_of(w) == src
            &&& dst_of(w) == dst
            &&& timestamp_of(w) == timestamp
            &&& p[0] < 2
            &&& status_code_of_byte(p[0]) == code
            &&& message.len() <= 128 ==> trim_zeros(status_message_field(p)) == trim_zeros(message)
            &&& message.len() <= 128 && valid_utf8(message) ==> valid_utf8(status_message_field(p))
        }),
{
    let h = headed(PacketType::Status, src, dst, 0, uid, timestamp);
    law_header_roundtrip(PacketType::Status, src, dst, 0, uid, timestamp);
    let h1 = h.update(36, status_code_byte(code));
    let w = status_packet(src, dst, code, message, uid, timestamp);
    assert(h1.subrange(0, 36) =~= h.subrange(0, 36));
    lemma_payload_write_keeps_header(h1, 37, message);
    lemma_header_kept(h, w);
    let p = payload_of(w);
    assert(p[0] == w[36]);
    assert(payload_of(h1) =~= zeros(PAYLOAD_LEN as nat).update(0, status_code_byte(code)));
    assert(p == splice(payload_of(h1), 1, message));
    if message.len() <= 128 {
        let pad = (128 - message.len()) as nat;
        assert(status_message_field(p) =~= message + Seq::new(pad, |i: int| 0u8));
        lemma_trim_zeros_padding(message, pad);
        lemma_zeros_valid_utf8(pad);
        if valid_utf8(message) {
            vstd::utf8::valid_utf8_concat(message, Seq::new(pad, |i: int| 0u8));
        }
    }
}

/// A data packet reads back, when the name fits the 128-byte name field, the
/// name without trailing zero bytes, and, for any data that fits the packet
/// (every data of up to `DATA_SIZE` bytes does), the data length as its size
/// and the data itself.
pub proof fn law_data_roundtrip(
    src: u32,
    dst: u32,
    name: Seq<u8>,
    data: Seq<u8>,
    uid: u64,
    timestamp: u64,
)
    requires
        name.len() <= 128,
        166 + data.len() <= PACKET_SIZE,
    ensures
        ({
            let w = data_packet(src, dst, name, data, uid, timestamp);
            let p = payload_of(w);
            &&& w.len() == PACKET_SIZE
            &&& magic_of(w) == MAGIC
            &&& uid_of(w) == uid
            &&& packet_type_of_byte(type_byte_of(w)) == PacketType::Data
            &&& type_byte_of(w) < 5
            &&& src_of(w) == src
            &&& dst_of(w) == dst
            &&& timestamp_of(w) == timestamp
            &&& trim_zeros(data_name_field(p)) == trim_zeros(name)
            &&& valid_utf8(name) ==> valid_utf8(data_name_field(p))
            &&& data_size_of(p) == data.len()
            &&& 130 + data_size_of(p) <= PAYLOAD_LEN
            &&& data_bytes_of(p) == data
        }),
{
    let h = headed(PacketType::Data, src, dst, 0, uid, timestamp);
    law_header_roundtrip(PacketType::Data, src, dst, 0, uid, timestamp);
    lemma_pow256_values();
    lemma_be_roundtrip(data.len(), 2);
    let sz = be_bytes(data.len(), 2);
    let h1 = splice(h, 36, name);
    lemma_payload_write_keeps_header(h, 36, name);
    let h2 = splice(h1, 164, sz);
    lemma_payload_write_keeps_header(h1, 164, sz);
    lemma_payload_write_keeps_header(h2, 166, data);
    let w = data_packet(src, dst, name, data, uid, timestamp);
    lemma_header_kept(h, w);
    let p = payload_of(w);
    assert(payload_of(h2) =~= splice(splice(zeros(PAYLOAD_LEN as nat), 0, name), 128, sz));
    assert(p == splice(payload_of(h2), 130, data));
    let pad = (128 - name.len()) as nat;
    assert(data_name_field(p) =~= name + Seq::new(pad, |i: int| 0u8));
    lemma_trim_zeros_padding(name, pad);
    lemma_zeros_valid_utf8(pad);
    if valid_utf8(name) {
        vstd::utf8::valid_utf8_concat(name, Seq::new(pad, |i: int| 0u8));
    }
    assert(p.subrange(128, 130) =~= sz);
    assert(data_bytes_of(p) =~= data);
}

/// A status message of at most 128 bytes that does not end in NUL reads back
/// as itself.
pub proof fn law_status_message_readback(
    src: u32,
    dst: u32,
    code: StatusCode,
    message: Seq<char>,
    uid: u64,
    timestamp: u64,
)
    requires
        encode_utf8(message).len() <= 128,
        message.len() == 0 || message.last() != '\0',
    ensures
        ({
            let p = payload_of(status_packet(src, dst, code, encode_utf8(message), uid, timestamp));
            &&& valid_utf8(status_message_field(p))
            &&& decode_utf8(trim_zeros(status_message_field(p))) == message
        }),
{
    law_status_roundtrip(src, dst, code, encode_utf8(message), uid, timestamp);
    vstd::utf8::encode_utf8_valid_utf8(message);
    vstd::utf8::encode_utf8_decode_utf8(message);
    lemma_trailing_nul(message);
    assert(trim_zeros(encode_utf8(message)) == encode_utf8(message));
}

/// A data name of at most 128 bytes that does not end in NUL reads back as itself.
pub proof fn law_data_name_readback(
    src: u32,
    dst: u32,
    name: Seq<char>,
    data: Seq<u8>,
    uid: u64,
    timestamp: u64,
)
    requires
        encode_utf8(name).len() <= 128,
        name.len() == 0 || name.last() != '\0',
        166 + data.len() <= PACKET_SIZE,
    ensures
        ({
            let p = payload_of(data_packet(src, dst, encode_utf8(name), data, uid, timestamp));
            &&& valid_utf8(data_name_field(p))
            &&& decode_utf8(trim_zeros(data_name_field(p))) == name
        }),
{
    law_data_roundtrip(src, dst, encode_utf8(name), data, uid, timestamp);
    vstd::utf8::encode_utf8_valid_utf8(name);
    vstd::utf8::encode_utf8_decode_utf8(name);
    lemma_trailing_nul(name);
    assert(trim_zeros(encode_utf8(name)) == encode_utf8(name));
}

/// A join request reads back the joining node's id.
pub proof fn law_join_req_roundtrip(src: u32, dst: u32, node_id: u32, uid: u64, timestamp: u64)
    ensures
        ({
            let w = join_req_packet(src, dst, node_id, uid, timestamp);
            &&& w.len() == PACKET_SIZE
            &&& magic_of(w) == MAGIC
            &&& uid_of(w) == uid
            &&& packet_type_of_byte(type_byte_of(w)) == PacketType::JoinReq
            &&& type_byte_of(w) < 5
            &&& src_of(w) == src
            &&& dst_of(w) == dst
            &&& timestamp_of(w) == timestamp
            &&& join_node_id_of(payload_of(w)) == node_id
        }),
{
    let h = headed(PacketType::JoinReq, src, dst, 0, uid, timestamp);
    law_header_roundtrip(PacketType::JoinReq, src, dst, 0, uid, timestamp);
    lemma_pow256_values();
    lemma_be_roundtrip(node_id as nat, 4);
    lemma_payload_write_keeps_header(h, 36, be_bytes(node_id as nat, 4));
    let w = join_req_packet(src, dst, node_id, uid, timestamp);
    lemma_header_kept(h, w);
    assert(payload_of(w).subrange(0, 4) =~= be_bytes(node_id as nat, 4));
}

/// A join response reads back the permission byte, the slot duration, the
/// reference clock and the schedule it was built from.
pub proof fn law_join_resp_roundtrip(
    src: u32,
    dst: u32,
    permitted: u8,
    slot_duration: u64,
    reference_clock: u64,
    schedule: Schedule,
    uid: u64,
    timestamp: u64,
)
    ensures
        ({
            let w = join_resp_packet(
                src,
                dst,
                permitted,
                slot_duration,
                reference_clock,
                schedule.slots@,
                uid,
                timestamp,
            );
            let p = payload_of(w);
            &&& w.len() == PACKET_SIZE
            &&& magic_of(w) == MAGIC
            &&& uid_of(w) == uid
            &&& packet_type_of_byte(type_byte_of(w)) == PacketType::JoinResp
            &&& type_byte_of(w) < 5
            &&& src_of(w) == src
            &&& dst_of(w) == dst
            &&& timestamp_of(w) == timestamp
            &&& p[0] == permitted
            &&& field_of(p, 1, 8) == slot_duration
            &&& field_of(p, 9, 8) == reference_clock
            &&& slot_type_bytes_valid(join_schedule_field(p), SLOTFRAME_SIZE as nat)
            &&& slots_of_bytes(join_schedule_field(p), SLOTFRAME_SIZE as nat) == schedule.slots@
        }),
{
    let h = headed(PacketType::JoinResp, src, dst, 0, uid, timestamp);
    law_header_roundtrip(PacketType::JoinResp, src, dst, 0, uid, timestamp);
    lemma_pow256_values();
    lemma_be_roundtrip(slot_duration as nat, 8);
    lemma_be_roundtrip(reference_clock as nat, 8);
    lemma_schedule_roundtrip(schedule);
    let body = join_resp_payload_bytes(permitted, slot_duration, reference_clock, schedule.slots@);
    lemma_payload_write_keeps_header(h, 36, body);
    let w = join_resp_packet(
        src,
        dst,
        permitted,
        slot_duration,
        reference_clock,
        schedule.slots@,
        uid,
        timestamp,
    );
    lemma_header_kept(h, w);
    let p = payload_of(w);
    assert(p.subrange(1, 9) =~= be_bytes(slot_duration as nat, 8));
    assert(p.subrange(9, 17) =~= be_bytes(reference_clock as nat, 8));
    assert(join_schedule_field(p) =~= slots_bytes(schedule.slots@));
}

} // verus!
