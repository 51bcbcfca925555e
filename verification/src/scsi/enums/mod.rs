//! Enumerations of the SCSI layer.

pub mod additional_sense_code;
