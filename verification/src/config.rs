//! Sizes, limits and well-known identifiers of the network.
use vstd::prelude::*;

verus! {

/// Bytes reserved for the packet header area (header and fixed payload fields).
pub const HEADER_SIZE: usize = 176;

/// Bytes reserved for user data.
pub const DATA_SIZE: usize = 1024;

/// Size of one packet buffer: header, data and two bytes for the data size.
pub const PACKET_SIZE: usize = HEADER_SIZE + DATA_SIZE + 2;

/// Number of retransmissions a node attempts for one packet.
pub const MAX_RETRIES: usize = 3;

/// Marker in the first two bytes of every packet.
pub const MAGIC: u16 = 0xCAFE;

/// Number of slots in one slotframe.
pub const SLOTFRAME_SIZE: usize = 10;

/// Node id of the orchestrator.
pub const ORCHESTRATOR_ID: u32 = 0;

/// Wildcard node id: any node may send or receive in a slot that names it.
pub const ANY_NODE: u32 = 0xFFFF_FFFF;

/// Number of packet buffers in a pool.
pub const PACKET_POOL_SIZE: usize = 512;

/// Token stamped into the header of every packet.
pub const TOKEN: u64 = 0;

} // verus!
