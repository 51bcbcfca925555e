//! USB Mass Storage: the transports that carry commands and data.

pub mod transport;

use vstd::prelude::*;

verus! {

/// The interface class of Mass Storage.
pub const CLASS_MASS_STORAGE: u8 = 0x08;

/// The interface subclass of the SCSI transparent command set.
pub const SUBCLASS_SCSI: u8 = 0x06;

} // verus!
