//! SCSI layer: the sense codes, the bit-packed command layouts and the decoder.

pub mod bits;
pub mod command;
pub mod commands;
pub mod enums;
pub mod packing;
