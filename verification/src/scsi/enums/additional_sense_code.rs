//! The additional sense codes this device reports, and their wire values.

use vstd::prelude::*;
use vstd::std_specs::convert::TryFromSpecImpl;

verus! {

/// Why a command was rejected. Each reason stands for one (ASC, ASCQ) pair.
///
/// There are many more pairs in the SCSI tables; these are the ones the
/// device uses.
#[derive(Clone, Copy, Debug, PartialEq, Eq, Structural)]
pub enum AdditionalSenseCode {
    /// ASC 0x20, ASCQ: 0x0 - INVALID COMMAND OPERATION CODE
    InvalidCommandOperationCode,
    /// ASC 0x64, ASCQ: 0x1 - INVALID PACKET SIZE
    InvalidPacketSize,
    /// ASC 0x24, ASCQ: 0x0 - INVALID FIELD IN CDB
    InvalidFieldInCdb,
    /// ASC 0x0, ASCQ: 0x0 - NO ADDITIONAL SENSE INFORMATION
    NoAdditionalSenseInformation,
    /// ASC 0xC, ASCQ: 0x0 - WRITE ERROR
    WriteError,
    /// ASC 0x51, ASCQ: 0x0 - ERASE FAILURE
    EraseFailure,
    /// ASC 0x21, ASCQ: 0x0 - LOGICAL BLOCK ADDRESS OUT OF RANGE
    LogicalBlockAddressOutOfRange,
}

/// The failure of a reverse lookup: the pair stands for no known reason.
#[derive(Clone, Copy, Debug, PartialEq, Eq, Structural)]
pub enum AdditionalSenseCodeError {
    InvalidEnumDiscriminant,
}

impl AdditionalSenseCode {
    /// The (ASC, ASCQ) pair of a reason.
    pub open spec fn spec_pair(self) -> (u8, u8) {
        match self {
            AdditionalSenseCode::InvalidCommandOperationCode => (0x20u8, 0x00u8),
            AdditionalSenseCode::InvalidPacketSize => (0x64u8, 0x01u8),
            AdditionalSenseCode::InvalidFieldInCdb => (0x24u8, 0x00u8),
            AdditionalSenseCode::NoAdditionalSenseInformation => (0x00u8, 0x00u8),
            AdditionalSenseCode::WriteError => (0x0Cu8, 0x00u8),
            AdditionalSenseCode::EraseFailure => (0x51u8, 0x00u8),
            AdditionalSenseCode::LogicalBlockAddressOutOfRange => (0x21u8, 0x00u8),
        }
    }

    /// The reason a pair stands for, if it stands for one.
    pub open spec fn spec_from(asc: u8, ascq: u8) -> Option<AdditionalSenseCode> {
        if asc == 0x20 && ascq == 0x00 {
            Some(AdditionalSenseCode::InvalidCommandOperationCode)
        } else if asc == 0x64 && ascq == 0x01 {
            Some(AdditionalSenseCode::InvalidPacketSize)
        } else if asc == 0x24 && ascq == 0x00 {
            Some(AdditionalSenseCode::InvalidFieldInCdb)
        } else if asc == 0x00 && ascq == 0x00 {
            Some(AdditionalSenseCode::NoAdditionalSenseInformation)
        } else if asc == 0x0C && ascq == 0x00 {
            Some(AdditionalSenseCode::WriteError)
        } else if asc == 0x51 && ascq == 0x00 {
            Some(AdditionalSenseCode::EraseFailure)
        } else if asc == 0x21 && ascq == 0x00 {
            Some(AdditionalSenseCode::LogicalBlockAddressOutOfRange)
        } else {
            None
        }
    }

    /// Returns the ASC code for this variant
    pub fn asc(&self) -> (r: u8)
        ensures
            r == self.spec_pair().0,
    {
        match self {
            AdditionalSenseCode::InvalidCommandOperationCode => 32,
            AdditionalSenseCode::InvalidPacketSize => 100,
            AdditionalSenseCode::InvalidFieldInCdb => 36,
            AdditionalSenseCode::NoAdditionalSenseInformation => 0,
            AdditionalSenseCode::WriteError => 12,
            AdditionalSenseCode::EraseFailure => 81,
            AdditionalSenseCode::LogicalBlockAddressOutOfRange => 33,
        }
    }

    /// Returns the ASCQ code for this variant
    pub fn ascq(&self) -> (r: u8)
        ensures
            r == self.spec_pair().1,
    {
        match self {
            AdditionalSenseCode::InvalidCommandOperationCode => 0,
            AdditionalSenseCode::InvalidPacketSize => 1,
            AdditionalSenseCode::InvalidFieldInCdb => 0,
            AdditionalSenseCode::NoAdditionalSenseInformation => 0,
            AdditionalSenseCode::WriteError => 0,
            AdditionalSenseCode::EraseFailure => 0,
            AdditionalSenseCode::LogicalBlockAddressOutOfRange => 0,
        }
    }

    /// Returns the variant with the given ASC and ASCQ codes, `None` when
    /// the pair is not in the table.
    pub fn from(asc: u8, ascq: u8) -> (r: Option<Self>)
        ensures
            r == Self::spec_from(asc, ascq),
    {
        match (asc, ascq) {
            (32, 0) => Some(AdditionalSenseCode::InvalidCommandOperationCode),
            (100, 1) => Some(AdditionalSenseCode::InvalidPacketSize),
            (36, 0) => Some(AdditionalSenseCode::InvalidFieldInCdb),
            (0, 0) => Some(AdditionalSenseCode::NoAdditionalSenseInformation),
            (12, 0) => Some(AdditionalSenseCode::WriteError),
            (81, 0) => Some(AdditionalSenseCode::EraseFailure),
            (33, 0) => Some(AdditionalSenseCode::LogicalBlockAddressOutOfRange),
            _ => None,
        }
    }

    /// No two reasons share a pair.
    pub proof fn lemma_pair_is_injective()
        ensures
            forall|a: AdditionalSenseCode, b: AdditionalSenseCode|
                a.spec_pair() == b.spec_pair() ==> a == b,
    {
    }

    /// The mapping runs both ways: the pair of a reason resolves to the
    /// reason, a pair that resolves to a reason is the pair of that reason,
    /// and a pair that resolves to none is the pair of none.
    pub proof fn lemma_lookup_inverts_pair(code: AdditionalSenseCode, asc: u8, ascq: u8)
        ensures
            Self::spec_from(code.spec_pair().0, code.spec_pair().1) == Some(code),
            Self::spec_from(asc, ascq) == Some(code) <==> code.spec_pair() == (asc, ascq),
            Self::spec_from(asc, ascq) is None ==> code.spec_pair() != (asc, ascq),
    {
    }
}

impl Default for AdditionalSenseCode {
    fn default() -> (r: Self)
        ensures
            r == AdditionalSenseCode::NoAdditionalSenseInformation,
    {
        AdditionalSenseCode::NoAdditionalSenseInformation
    }
}

impl TryFrom<u16> for AdditionalSenseCode {
    type Error = AdditionalSenseCodeError;

    /// Reads the ASC from the high byte and the ASCQ from the low byte.
    fn try_from(value: u16) -> (r: Result<Self, Self::Error>) {
        let asc = (value / 256) as u8;
        let ascq = (value % 256) as u8;
        match Self::from(asc, ascq) {
            Some(code) => Ok(code),
            None => Err(AdditionalSenseCodeError::InvalidEnumDiscriminant),
        }
    }
}

impl TryFromSpecImpl<u16> for AdditionalSenseCode {
    open spec fn obeys_try_from_spec() -> bool {
        true
    }

    open spec fn try_from_spec(value: u16) -> Result<Self, Self::Error> {
        match Self::spec_from((value / 256) as u8, (value % 256) as u8) {
            Some(code) => Ok(code),
            None => Err(AdditionalSenseCodeError::InvalidEnumDiscriminant),
        }
    }
}

} // verus!
