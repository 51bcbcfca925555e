//! USB Mass Storage transports

pub mod bbb;

use core::fmt::Debug;
use embassy_usb::driver::EndpointError;
use vstd::prelude::*;

verus! {

/// `embassy_usb::driver::EndpointError`, the failure that a bulk endpoint of
/// the USB driver reports. Nothing is claimed of it: the transport hands a
/// value of it upward and never looks inside.
#[verifier::external_type_specification]
#[verifier::external_body]
pub struct ExEndpointError(EndpointError);

/// Interface protocol for specific transports
pub const TRANSPORT_VENDOR_SPECIFIC: u8 = 0xFF;

/// USB Mass Storage transport.
///
/// An implementation of this trait can be used as an underlying transport for
/// the command set that runs on top of it.
pub trait Transport {
    /// Interface protocol code
    const PROTO: u8;
}

/// Generic error type that could be used by [Transport] impls.
#[derive(Debug)]
pub enum TransportError<E: Debug> {
    /// USB stack error
    Usb(EndpointError),
    /// Transport-specific error
    Error(E),
}

/// The status of a Mass Storage command.
///
/// Refer to the USB-MS doc.
#[derive(Copy, Clone, Debug, PartialEq, Eq, Structural)]
pub enum CommandStatus {
    Passed,
    Failed,
    PhaseError,
}

impl CommandStatus {
    /// The status byte of the wrapper that closes a command: 0 for a command
    /// that passed, 1 for one that failed, 2 for a phase error.
    pub open spec fn spec_code(self) -> u8 {
        match self {
            CommandStatus::Passed => 0x00,
            CommandStatus::Failed => 0x01,
            CommandStatus::PhaseError => 0x02,
        }
    }

    /// The status byte of the wrapper that closes a command.
    pub fn code(self) -> (r: u8)
        ensures
            r == self.spec_code(),
    {
        match self {
            CommandStatus::Passed => 0x00,
            CommandStatus::Failed => 0x01,
            CommandStatus::PhaseError => 0x02,
        }
    }
}

impl Default for CommandStatus {
    fn default() -> (r: Self)
        ensures
            r == CommandStatus::Passed,
    {
        CommandStatus::Passed
    }
}

} // verus!
