//! Deterministic time-slotted (TDMA) network emulation: the wire format of
//! its packets, the buffer pool they live in, the slot schedule and the
//! decisions a node takes in each slot.
pub mod buffer;
mod clock;
pub mod codec;
pub mod config;
mod entropy;
pub mod packet;
pub mod schedule;
pub mod tdma;
pub mod text;

pub use buffer::{Buffer, PacketBuffer, PacketBufferPool};
pub use config::{
    ANY_NODE, DATA_SIZE, HEADER_SIZE, MAGIC, MAX_RETRIES, ORCHESTRATOR_ID, PACKET_POOL_SIZE,
    PACKET_SIZE, SLOTFRAME_SIZE, TOKEN,
};
pub use schedule::{Schedule, Slot, SlotType};
pub use packet::{
    AckView, DataView, JoinReqView, JoinRespView, PacketBuilder, PacketType, PacketView,
    PayloadView, StatusCode, StatusView,
};
pub use tdma::{AckOutcome, JoinGrant, SlotDeadlines, SlotRole, SlotWindows};
