//! The command descriptor blocks that the device reads field by field.

pub mod inquiry;
pub mod read;

