//! The command decoder: from the bytes of a command descriptor block to one
//! canonical command.

use crate::scsi::commands::inquiry::InquiryCommand;
use crate::scsi::commands::read::{Read10Command, Read12Command, Read6Command, ReadXCommand};
use crate::scsi::packing::PackingError;
use vstd::prelude::*;

verus! {

/// The operation code of TEST UNIT READY.
pub const TEST_UNIT_READY: u8 = 0x00;

/// The operation code of REQUEST SENSE.
pub const REQUEST_SENSE: u8 = 0x03;

/// The operation code of READ (6).
pub const READ_6: u8 = 0x08;

/// The operation code of WRITE (6).
pub const WRITE_6: u8 = 0x0A;

/// The operation code of INQUIRY.
pub const INQUIRY: u8 = 0x12;

/// The operation code of MODE SENSE (6).
pub const MODE_SENSE_6: u8 = 0x1A;

/// The operation code of READ FORMAT CAPACITIES.
pub const READ_FORMAT_CAPACITIES: u8 = 0x23;

/// The operation code of READ CAPACITY (10).
pub const READ_CAPACITY_10: u8 = 0x25;

/// The operation code of READ (10).
pub const READ_10: u8 = 0x28;

/// The operation code of WRITE (10).
pub const WRITE_10: u8 = 0x2A;

/// The operation code of MODE SENSE (10).
pub const MODE_SENSE_10: u8 = 0x5A;

/// The operation code of READ CAPACITY (16).
pub const READ_CAPACITY_16: u8 = 0x9E;

/// The operation code of READ (12).
pub const READ_12: u8 = 0xA8;

/// The operation code of WRITE (12).
pub const WRITE_12: u8 = 0xAA;

/// What a command asks for. The six-, ten- and twelve-byte reads are one
/// `Read`, and likewise the writes.
#[derive(Clone, Copy, Debug, PartialEq, Eq, Structural)]
pub enum ScsiCommand {
    /// An operation code outside the supported set, as it came.
    Unknown(u8),
    TestUnitReady,
    Inquiry,
    RequestSense,
    ReadCapacity10,
    ReadCapacity16,
    ReadFormatCapacities,
    /// Read `len` blocks, the first of them at `lba`.
    Read { lba: u32, len: u32 },
    /// Write `len` blocks, the first of them at `lba`.
    Write { lba: u32, len: u32 },
    ModeSense6,
    ModeSense10,
}

/// A decoded command and the logical unit it is for.
#[derive(Clone, Copy, Debug, PartialEq, Eq, Structural)]
pub struct Command {
    /// The logical unit the command is for.
    pub lun: u8,
    /// What the command asks for.
    pub kind: ScsiCommand,
}

/// The descriptor block is empty, or shorter than the commands of its
/// operation code are.
#[derive(Clone, Copy, Debug, PartialEq, Eq, Structural)]
pub enum CdbError {
    Malformed,
}

/// The length of the commands of a supported operation code.
pub open spec fn spec_cdb_len(op_code: u8) -> Option<nat> {
    if op_code == TEST_UNIT_READY || op_code == REQUEST_SENSE || op_code == INQUIRY || op_code
        == MODE_SENSE_6 || op_code == READ_6 || op_code == WRITE_6 {
        Some(6)
    } else if op_code == READ_FORMAT_CAPACITIES || op_code == READ_CAPACITY_10 || op_code
        == MODE_SENSE_10 || op_code == READ_10 || op_code == WRITE_10 {
        Some(10)
    } else if op_code == READ_12 || op_code == WRITE_12 {
        Some(12)
    } else if op_code == READ_CAPACITY_16 {
        Some(16)
    } else {
        None
    }
}

/// The address and the length of a read or write of six, ten or twelve
/// bytes, in the one shape they share. A six-byte command addresses blocks
/// below `2^21` and moves 1 to 256 blocks, where the wire says 0 for 256; a
/// ten-byte command moves up to 65535 blocks; a twelve-byte command has 32
/// bits for both.
pub open spec fn spec_read_x(cdb: Seq<u8>) -> ReadXCommand {
    if cdb[0] == READ_6 || cdb[0] == WRITE_6 {
        let c = Read6Command::unpacked(cdb)->Ok_0;
        ReadXCommand {
            lba: c.lba,
            transfer_length: if c.transfer_length == 0 {
                256
            } else {
                c.transfer_length as u32
            },
        }
    } else if cdb[0] == READ_10 || cdb[0] == WRITE_10 {
        let c = Read10Command::unpacked(cdb)->Ok_0;
        ReadXCommand { lba: c.lba, transfer_length: c.transfer_length as u32 }
    } else {
        let c = Read12Command::unpacked(cdb)->Ok_0;
        ReadXCommand { lba: c.lba, transfer_length: c.transfer_length }
    }
}

/// What a descriptor block of a supported operation code, and of that
/// code's length at least, asks for.
pub open spec fn spec_kind(cdb: Seq<u8>) -> ScsiCommand {
    let op_code = cdb[0];
    if op_code == TEST_UNIT_READY {
        ScsiCommand::TestUnitReady
    } else if op_code == INQUIRY {
        ScsiCommand::Inquiry
    } else if op_code == REQUEST_SENSE {
        ScsiCommand::RequestSense
    } else if op_code == READ_CAPACITY_10 {
        ScsiCommand::ReadCapacity10
    } else if op_code == READ_CAPACITY_16 {
        ScsiCommand::ReadCapacity16
    } else if op_code == READ_FORMAT_CAPACITIES {
        ScsiCommand::ReadFormatCapacities
    } else if op_code == MODE_SENSE_6 {
        ScsiCommand::ModeSense6
    } else if op_code == MODE_SENSE_10 {
        ScsiCommand::ModeSense10
    } else if op_code == READ_6 || op_code == READ_10 || op_code == READ_12 {
        ScsiCommand::Read { lba: spec_read_x(cdb).lba, len: spec_read_x(cdb).transfer_length }
    } else {
        ScsiCommand::Write { lba: spec_read_x(cdb).lba, len: spec_read_x(cdb).transfer_length }
    }
}

/// What decoding a descriptor block gives. The first byte is the operation
/// code. A code outside the supported set gives `Unknown`, which is no
/// error. A block that is empty, or shorter than the commands of its code
/// are, is malformed.
pub open spec fn spec_decode(cdb: Seq<u8>, lun: u8) -> Result<Command, CdbError> {
    if cdb.len() == 0 {
        Err(CdbError::Malformed)
    } else {
        match spec_cdb_len(cdb[0]) {
            None => Ok(Command { lun, kind: ScsiCommand::Unknown(cdb[0]) }),
            Some(len) => if cdb.len() < len {
                Err(CdbError::Malformed)
            } else {
                Ok(Command { lun, kind: spec_kind(cdb) })
            },
        }
    }
}

/// The length of the commands of an operation code, `None` for a code
/// outside the supported set.
pub fn cdb_len(op_code: u8) -> (r: Option<usize>)
    ensures
        match r {
            Some(n) => spec_cdb_len(op_code) == Some(n as nat),
            None => spec_cdb_len(op_code) is None,
        },
{
    match op_code {
        TEST_UNIT_READY | REQUEST_SENSE | INQUIRY | MODE_SENSE_6 | READ_6 | WRITE_6 => Some(6),
        READ_FORMAT_CAPACITIES | READ_CAPACITY_10 | MODE_SENSE_10 | READ_10 | WRITE_10 => Some(10),
        READ_12 | WRITE_12 => Some(12),
        READ_CAPACITY_16 => Some(16),
        _ => None,
    }
}

/// Reads the address and the length of a read or write command.
fn read_x(cdb: &[u8]) -> (r: Result<ReadXCommand, PackingError>)
    requires
        cdb@.len() > 0,
        cdb@[0] == READ_6 || cdb@[0] == WRITE_6 || cdb@[0] == READ_10 || cdb@[0] == WRITE_10
            || cdb@[0] == READ_12 || cdb@[0] == WRITE_12,
    ensures
        r is Err <==> cdb@.len() < spec_cdb_len(cdb@[0])->0,
        r matches Ok(x) ==> x == spec_read_x(cdb@),
{
    let op_code = cdb[0];
    if op_code == READ_6 || op_code == WRITE_6 {
        match Read6Command::unpack(cdb) {
            Ok(c) => Ok(ReadXCommand::from(c)),
            Err(e) => Err(e),
        }
    } else if op_code == READ_10 || op_code == WRITE_10 {
        match Read10Command::unpack(cdb) {
            Ok(c) => Ok(ReadXCommand::from(c)),
            Err(e) => Err(e),
        }
    } else {
        match Read12Command::unpack(cdb) {
            Ok(c) => Ok(ReadXCommand::from(c)),
            Err(e) => Err(e),
        }
    }
}

/// Decodes a descriptor block and pairs the command with its logical unit.
pub fn decode(cdb: &[u8], lun: u8) -> (r: Result<Command, CdbError>)
    ensures
        r == spec_decode(cdb@, lun),
{
    if cdb.len() == 0 {
        return Err(CdbError::Malformed);
    }
    let op_code = cdb[0];
    let len = match cdb_len(op_code) {
        Some(len) => len,
        None => {
            return Ok(Command { lun, kind: ScsiCommand::Unknown(op_code) });
        },
    };
    if cdb.len() < len {
        return Err(CdbError::Malformed);
    }
    let kind = match op_code {
        TEST_UNIT_READY => ScsiCommand::TestUnitReady,
        INQUIRY => {
            match InquiryCommand::unpack(cdb) {
                Ok(_) => ScsiCommand::Inquiry,
                Err(_) => {
                    return Err(CdbError::Malformed);
                },
            }
        },
        REQUEST_SENSE => ScsiCommand::RequestSense,
        READ_CAPACITY_10 => ScsiCommand::ReadCapacity10,
        READ_CAPACITY_16 => ScsiCommand::ReadCapacity16,
        READ_FORMAT_CAPACITIES => ScsiCommand::ReadFormatCapacities,
        MODE_SENSE_6 => ScsiCommand::ModeSense6,
        MODE_SENSE_10 => ScsiCommand::ModeSense10,
        READ_6 | READ_10 | READ_12 => {
            match read_x(cdb) {
                Ok(x) => ScsiCommand::Read { lba: x.lba, len: x.transfer_length },
                Err(_) => {
                    return Err(CdbError::Malformed);
                },
            }
        },
        _ => {
            match read_x(cdb) {
                Ok(x) => ScsiCommand::Write { lba: x.lba, len: x.transfer_length },
                Err(_) => {
                    return Err(CdbError::Malformed);
                },
            }
        },
    };
    Ok(Command { lun, kind })
}

/// The limits of each wire shape carry over to the decoded command: a
/// six-byte read or write addresses a block below `2^21` and moves 1 to 256
/// blocks, and a ten-byte one moves at most 65535 blocks.
pub proof fn lemma_read_x_ranges(cdb: Seq<u8>)
    requires
        cdb.len() > 0,
        spec_cdb_len(cdb[0]) matches Some(len) && cdb.len() >= len,
    ensures
        cdb[0] == READ_6 || cdb[0] == WRITE_6 ==> spec_read_x(cdb).lba < 0x20_0000 && 1
            <= spec_read_x(cdb).transfer_length <= 256,
        cdb[0] == READ_10 || cdb[0] == WRITE_10 ==> spec_read_x(cdb).transfer_length <= 65535,
{
    if cdb[0] == READ_6 || cdb[0] == WRITE_6 {
        let fields = Read6Command::spec_fields();
        assert(fields[1].wf());
        fields[1].lemma_value_fits(cdb);
        vstd::arithmetic::power2::lemma2_to64();
    }
}

} // verus!
