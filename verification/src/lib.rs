//! A fixed-size block store served as a USB Mass-Storage device: SCSI command
//! decoding, the sense model, the Bulk-Only Transport state machine and the
//! command processor, each with a machine-checked contract.

pub mod config;
pub mod device;
pub mod processor;
pub mod responses;
pub mod scsi;
pub mod state;
pub mod transfer;
pub mod usbd_storage;
