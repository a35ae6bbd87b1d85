//! Protocol constants and types of the shared-memory hardware stats region.
//!
//! The region holds two fixed-size producer slots (HwBridge = slot 0,
//! aster-sysinfo = slot 1). Each slot carries a 32-byte little-endian header
//! followed by a UTF-8 `label: value\n` payload:
//!
//! ```text
//!   0  magic        u32   = MAGIC ("HWS1"), 0 = slot never written
//!   4  version      u32   = VERSION
//!   8  sequence     u64   = writer counter: EVEN = valid, ODD = write in progress
//!  16  timestamp_ms u64   = Unix epoch milliseconds of this snapshot
//!  24  payload_len  u32   = payload byte length (<= MAX_PAYLOAD)
//!  28  reserved     u32   = 0
//!  32  payload      bytes = "label: value\n..."
//! ```
use vstd::prelude::*;

verus! {

/// Name of the shared memory region (Windows named file mapping / POSIX shm).
pub const REGION_NAME: &'static str = "AOOSTAR_HW_STATS";

/// Size of one producer slot.
pub const SLOT_SIZE: usize = 65536;

/// Total region size: two producer slots.
pub const REGION_SIZE: usize = 131072;

/// Size of the slot header.
pub const HEADER_SIZE: usize = 32;

/// Maximum payload length in bytes per slot.
pub const MAX_PAYLOAD: usize = 65504;

/// Magic value marking an initialized slot (`b"HWS1"` read little-endian).
pub const MAGIC: u32 = 0x4857_5331;

/// Protocol version; bumped on incompatible layout changes.
pub const VERSION: u32 = 1;

/// Offset of the magic field inside a slot.
pub const MAGIC_OFFSET: usize = 0;

/// Offset of the version field inside a slot.
pub const VERSION_OFFSET: usize = 4;

/// Offset of the sequence field inside a slot.
pub const SEQUENCE_OFFSET: usize = 8;

/// Offset of the timestamp field inside a slot.
pub const TIMESTAMP_OFFSET: usize = 16;

/// Offset of the payload length field inside a slot.
pub const PAYLOAD_LEN_OFFSET: usize = 24;

/// Offset of the payload inside a slot.
pub const PAYLOAD_OFFSET: usize = 32;

/// Identifies one producer; each owns a fixed slot in the region.
#[derive(Debug, Clone, Copy, PartialEq, Eq, Structural)]
pub enum Producer {
    /// `HwBridge.exe`: temperatures and loads (slot 0).
    HwBridge,
    /// `aster-sysinfo`: native CPU/mem/net/disk stats (slot 1).
    SysInfo,
}

/// The slot offset owned by each producer.
pub open spec fn spec_slot_offset(p: Producer) -> int {
    match p {
        Producer::HwBridge => 0,
        Producer::SysInfo => SLOT_SIZE as int,
    }
}

impl Producer {
    /// Byte offset of this producer's slot inside the shared region.
    pub fn slot_offset(self) -> (offset: usize)
        ensures
            offset == spec_slot_offset(self),
    {
        match self {
            Producer::HwBridge => 0,
            Producer::SysInfo => SLOT_SIZE,
        }
    }
}

/// Errors produced by the shared-memory region.
#[derive(Debug, Clone, PartialEq, Eq)]
pub enum Error {
    /// The OS could not create or open the named mapping.
    Os(String),
    /// The region is smaller than the protocol requires.
    BadRegion,
    /// The slot header version differs from [`VERSION`].
    VersionMismatch(u32),
    /// The slot was written concurrently while reading; retry.
    Contended,
    /// The region name could not be encoded for the platform.
    InvalidName,
}

/// A consistent snapshot of one producer slot.
#[derive(Debug, Clone, PartialEq, Eq)]
pub struct SlotSnapshot {
    /// Writer sequence number; changes whenever a new snapshot was written.
    pub sequence: u64,
    /// Unix epoch milliseconds of the write (writer's clock).
    pub timestamp_ms: u64,
    /// The raw `label: value\n` payload bytes.
    pub payload: Vec<u8>,
}

/// The mathematical content of a snapshot.
pub struct SlotModel {
    pub sequence: u64,
    pub timestamp_ms: u64,
    pub payload: Seq<u8>,
}

impl View for SlotSnapshot {
    type V = SlotModel;

    open spec fn view(&self) -> SlotModel {
        SlotModel { sequence: self.sequence, timestamp_ms: self.timestamp_ms, payload: self.payload@ }
    }
}

} // verus!
