//! The fixed parameters of the device.

use vstd::prelude::*;

verus! {

/// The size of the transport's staging buffer, in bytes.
pub const TRANSPORT_BUF_SIZE: usize = 512;

/// The size of a block, in bytes.
pub const BLOCK_SIZE: u32 = 4096;

/// The capacity of the backing store, in bytes.
pub const CAPACITY: u32 = 102400;

/// The number of blocks in the backing store.
pub const BLOCKS: u32 = CAPACITY / BLOCK_SIZE;

/// The size of a full packet on the bulk endpoints: 8, 16, 32 or 64.
pub const USB_PACKET_SIZE: u16 = 64;

/// The highest logical unit number, at most 15.
pub const MAX_LUN: u8 = 0;

/// The length of the backing store, in bytes.
pub const STORAGE_LEN: usize = 102400;

/// The constants agree with one another.
pub proof fn lemma_geometry()
    ensures
        BLOCKS == 25,
        BLOCKS * BLOCK_SIZE == STORAGE_LEN,
        STORAGE_LEN == CAPACITY,
{
}

} // verus!
