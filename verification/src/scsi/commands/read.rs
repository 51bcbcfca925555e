//! The READ (6), READ (10) and READ (12) command descriptor blocks, and the
//! one shape that all three are brought to. The WRITE commands of the same
//! lengths lay out their address and length in the same way.

use crate::scsi::packing::{
    layout_wf,
    lemma_pack_then_unpack,
    pack_fields,
    packed_fields,
    unpack_fields,
    unpacked_fields,
    values_fit,
    Field,
    PackingError,
};
use vstd::arithmetic::power2::{lemma2_to64, pow2};
use vstd::prelude::*;
use vstd::std_specs::convert::FromSpecImpl;

verus! {

/// A read or write request, whatever its length on the wire: the first block
/// and the number of blocks.
#[derive(Clone, Copy, Eq, PartialEq, Debug, Structural)]
pub struct ReadXCommand {
    /// The address of the first block.
    pub lba: u32,
    /// The number of blocks.
    pub transfer_length: u32,
}

/// READ (6): a 21-bit block address and an 8-bit block count, where a count
/// of zero asks for 256 blocks.
#[derive(Clone, Copy, Eq, PartialEq, Debug, Structural)]
pub struct Read6Command {
    /// Byte 0.
    pub op_code: u8,
    /// Bits 4 to 0 of byte 1, then bytes 2 and 3: below `2^21`.
    pub lba: u32,
    /// Byte 4. Zero stands for 256 blocks.
    pub transfer_length: u8,
    /// Byte 5.
    pub control: u8,
}

impl Read6Command {
    /// The length of the command on the wire.
    pub open spec fn spec_len() -> nat {
        6
    }

    /// The table of the command's fields, in the order of the struct.
    pub open spec fn spec_fields() -> Seq<Field> {
        seq![
            Field { first_byte: 0, last_byte: 0, msb: 7, lsb: 0 },
            Field { first_byte: 1, last_byte: 3, msb: 4, lsb: 0 },
            Field { first_byte: 4, last_byte: 4, msb: 7, lsb: 0 },
            Field { first_byte: 5, last_byte: 5, msb: 7, lsb: 0 },
        ]
    }

    /// The values of the fields, in the order of the table.
    pub open spec fn values(self) -> Seq<u32> {
        seq![
            self.op_code as u32,
            self.lba,
            self.transfer_length as u32,
            self.control as u32,
        ]
    }

    /// The command that holds the given field values.
    pub open spec fn from_values(v: Seq<u32>) -> Self {
        Read6Command {
            op_code: v[0] as u8,
            lba: v[1],
            transfer_length: v[2] as u8,
            control: v[3] as u8,
        }
    }

    /// Every field holds a value that its bits on the wire can carry.
    pub open spec fn fits(self) -> bool {
        &&& self.lba < 0x200000
    }

    /// What decoding a buffer gives.
    pub open spec fn unpacked(bytes: Seq<u8>) -> Result<Self, PackingError> {
        match unpacked_fields(Self::spec_len(), Self::spec_fields(), bytes) {
            Ok(v) => Ok(Self::from_values(v)),
            Err(e) => Err(e),
        }
    }

    /// The bytes of the command, with zero in every bit outside its fields.
    pub open spec fn packed(self) -> Seq<u8> {
        packed_fields(Self::spec_len(), Self::spec_fields(), self.values())
    }

    /// The table of the command's fields.
    pub fn fields() -> (r: Vec<Field>)
        ensures
            r@ == Self::spec_fields(),
            layout_wf(Self::spec_len(), r@),
    {
        let r = vec![
            Field { first_byte: 0, last_byte: 0, msb: 7, lsb: 0 },
            Field { first_byte: 1, last_byte: 3, msb: 4, lsb: 0 },
            Field { first_byte: 4, last_byte: 4, msb: 7, lsb: 0 },
            Field { first_byte: 5, last_byte: 5, msb: 7, lsb: 0 },
        ];
        proof {
            assert(r@ =~= Self::spec_fields());
            Self::lemma_layout_is_sound();
        }
        r
    }

    /// Whether every field holds a value that its bits on the wire can carry.
    pub fn in_range(&self) -> (r: bool)
        ensures
            r == self.fits(),
    {
        self.lba < 0x200000
    }

    /// Decodes the command from a buffer. Fails when the buffer holds fewer
    /// bytes than the command has.
    pub fn unpack(bytes: &[u8]) -> (r: Result<Self, PackingError>)
        ensures
            r == Self::unpacked(bytes@),
            r is Err <==> bytes@.len() < 6,
            r matches Ok(c) ==> c.fits(),
    {
        let fields = Self::fields();
        match unpack_fields(6, fields.as_slice(), bytes) {
            Ok(v) => {
                proof {
                    lemma2_to64();
                    assert(forall|i: int|
                        0 <= i < 4 ==> (#[trigger] v@[i]) < pow2(fields@[i].width()));
                    assert(v@[0] < 0x100);
                    assert(v@[1] < 0x200000);
                    assert(v@[2] < 0x100);
                    assert(v@[3] < 0x100);
                }
                Ok(
                    Read6Command {
                        op_code: v[0] as u8,
                        lba: v[1],
                        transfer_length: v[2] as u8,
                        control: v[3] as u8,
                    },
                )
            },
            Err(e) => Err(e),
        }
    }

    /// Encodes the command. No field may hold more than its bits on the wire
    /// can carry: nothing is cut off.
    pub fn pack(&self) -> (r: Vec<u8>)
        requires
            self.fits(),
        ensures
            r@ == self.packed(),
            r@.len() == 6,
    {
        let fields = Self::fields();
        let values = vec![
            self.op_code as u32,
            self.lba,
            self.transfer_length as u32,
            self.control as u32,
        ];
        proof {
            assert(values@ =~= self.values());
            self.lemma_values_fit();
        }
        pack_fields(6, fields.as_slice(), values.as_slice())
    }

    /// The table is sound: its fields lie inside the command and share no bit.
    pub proof fn lemma_layout_is_sound()
        ensures
            layout_wf(Self::spec_len(), Self::spec_fields()),
    {
    }

    /// The values of a command that fits are within the widths of the table.
    pub proof fn lemma_values_fit(self)
        requires
            self.fits(),
        ensures
            values_fit(Self::spec_fields(), self.values()),
    {
        lemma2_to64();
    }

    /// Encoding a command and decoding the bytes gives the command back,
    /// for every command whose fields are within their widths.
    pub proof fn lemma_pack_then_unpack(self)
        requires
            self.fits(),
        ensures
            self.packed().len() == 6,
            Self::unpacked(self.packed()) == Ok::<Self, PackingError>(self),
    {
        Self::lemma_layout_is_sound();
        self.lemma_values_fit();
        lemma_pack_then_unpack(Self::spec_len(), Self::spec_fields(), self.values());
        assert(Self::from_values(self.values()) == self);
    }
}

impl From<Read6Command> for ReadXCommand {
    /// The address as it is; the count as it is, but 256 where the wire says zero.
    fn from(r: Read6Command) -> (x: Self) {
        let transfer_length: u32 = if r.transfer_length == 0 {
            256
        } else {
            r.transfer_length as u32
        };
        ReadXCommand { lba: r.lba, transfer_length }
    }
}

impl FromSpecImpl<Read6Command> for ReadXCommand {
    open spec fn obeys_from_spec() -> bool {
        true
    }

    open spec fn from_spec(r: Read6Command) -> Self {
        ReadXCommand {
            lba: r.lba,
            transfer_length: if r.transfer_length == 0 {
                256u32
            } else {
                r.transfer_length as u32
            },
        }
    }
}

/// READ (10): a 32-bit block address and a 16-bit block count.
#[derive(Clone, Copy, Eq, PartialEq, Debug, Structural)]
pub struct Read10Command {
    /// Byte 0.
    pub op_code: u8,
    /// Bits 7 to 5 of byte 1.
    pub rd_protect: u8,
    /// Bit 4 of byte 1.
    pub dpo: bool,
    /// Bit 3 of byte 1.
    pub fua: bool,
    /// Bit 1 of byte 1.
    pub fua_nv: bool,
    /// Bytes 2 to 5.
    pub lba: u32,
    /// Bits 4 to 0 of byte 6.
    pub group_number: u8,
    /// Bytes 7 and 8: at most 65535 blocks.
    pub transfer_length: u16,
    /// Byte 9.
    pub control: u8,
}

impl Read10Command {
    /// The length of the command on the wire.
    pub open spec fn spec_len() -> nat {
        10
    }

    /// The table of the command's fields, in the order of the struct.
    pub open spec fn spec_fields() -> Seq<Field> {
        seq![
            Field { first_byte: 0, last_byte: 0, msb: 7, lsb: 0 },
            Field { first_byte: 1, last_byte: 1, msb: 7, lsb: 5 },
            Field { first_byte: 1, last_byte: 1, msb: 4, lsb: 4 },
            Field { first_byte: 1, last_byte: 1, msb: 3, lsb: 3 },
            Field { first_byte: 1, last_byte: 1, msb: 1, lsb: 1 },
            Field { first_byte: 2, last_byte: 5, msb: 7, lsb: 0 },
            Field { first_byte: 6, last_byte: 6, msb: 4, lsb: 0 },
            Field { first_byte: 7, last_byte: 8, msb: 7, lsb: 0 },
            Field { first_byte: 9, last_byte: 9, msb: 7, lsb: 0 },
        ]
    }

    /// The values of the fields, in the order of the table.
    pub open spec fn values(self) -> Seq<u32> {
        seq![
            self.op_code as u32,
            self.rd_protect as u32,
            if self.dpo { 1u32 } else { 0u32 },
            if self.fua { 1u32 } else { 0u32 },
            if self.fua_nv { 1u32 } else { 0u32 },
            self.lba,
            self.group_number as u32,
            self.transfer_length as u32,
            self.control as u32,
        ]
    }

    /// The command that holds the given field values.
    pub open spec fn from_values(v: Seq<u32>) -> Self {
        Read10Command {
            op_code: v[0] as u8,
            rd_protect: v[1] as u8,
            dpo: v[2] != 0,
            fua: v[3] != 0,
            fua_nv: v[4] != 0,
            lba: v[5],
            group_number: v[6] as u8,
            transfer_length: v[7] as u16,
            control: v[8] as u8,
        }
    }

    /// Every field holds a value that its bits on the wire can carry.
    pub open spec fn fits(self) -> bool {
        &&& self.rd_protect < 0x8
        &&& self.group_number < 0x20
    }

    /// What decoding a buffer gives.
    pub open spec fn unpacked(bytes: Seq<u8>) -> Result<Self, PackingError> {
        match unpacked_fields(Self::spec_len(), Self::spec_fields(), bytes) {
            Ok(v) => Ok(Self::from_values(v)),
            Err(e) => Err(e),
        }
    }

    /// The bytes of the command, with zero in every bit outside its fields.
    pub open spec fn packed(self) -> Seq<u8> {
        packed_fields(Self::spec_len(), Self::spec_fields(), self.values())
    }

    /// The table of the command's fields.
    pub fn fields() -> (r: Vec<Field>)
        ensures
            r@ == Self::spec_fields(),
            layout_wf(Self::spec_len(), r@),
    {
        let r = vec![
            Field { first_byte: 0, last_byte: 0, msb: 7, lsb: 0 },
            Field { first_byte: 1, last_byte: 1, msb: 7, lsb: 5 },
            Field { first_byte: 1, last_byte: 1, msb: 4, lsb: 4 },
            Field { first_byte: 1, last_byte: 1, msb: 3, lsb: 3 },
            Field { first_byte: 1, last_byte: 1, msb: 1, lsb: 1 },
            Field { first_byte: 2, last_byte: 5, msb: 7, lsb: 0 },
            Field { first_byte: 6, last_byte: 6, msb: 4, lsb: 0 },
            Field { first_byte: 7, last_byte: 8, msb: 7, lsb: 0 },
            Field { first_byte: 9, last_byte: 9, msb: 7, lsb: 0 },
        ];
        proof {
            assert(r@ =~= Self::spec_fields());
            Self::lemma_layout_is_sound();
        }
        r
    }

    /// Whether every field holds a value that its bits on the wire can carry.
    pub fn in_range(&self) -> (r: bool)
        ensures
            r == self.fits(),
    {
        self.rd_protect < 0x8 && self.group_number < 0x20
    }

    /// Decodes the command from a buffer. Fails when the buffer holds fewer
    /// bytes than the command has.
    pub fn unpack(bytes: &[u8]) -> (r: Result<Self, PackingError>)
        ensures
            r == Self::unpacked(bytes@),
            r is Err <==> bytes@.len() < 10,
            r matches Ok(c) ==> c.fits(),
    {
        let fields = Self::fields();
        match unpack_fields(10, fields.as_slice(), bytes) {
            Ok(v) => {
                proof {
                    lemma2_to64();
                    assert(forall|i: int|
                        0 <= i < 9 ==> (#[trigger] v@[i]) < pow2(fields@[i].width()));
                    assert(v@[0] < 0x100);
                    assert(v@[1] < 0x8);
                    assert(v@[2] < 0x2);
                    assert(v@[3] < 0x2);
                    assert(v@[4] < 0x2);
                    assert(v@[6] < 0x20);
                    assert(v@[7] < 0x10000);
                    assert(v@[8] < 0x100);
                }
                Ok(
                    Read10Command {
                        op_code: v[0] as u8,
                        rd_protect: v[1] as u8,
                        dpo: v[2] != 0,
                        fua: v[3] != 0,
                        fua_nv: v[4] != 0,
                        lba: v[5],
                        group_number: v[6] as u8,
                        transfer_length: v[7] as u16,
                        control: v[8] as u8,
                    },
                )
            },
            Err(e) => Err(e),
        }
    }

    /// Encodes the command. No field may hold more than its bits on the wire
    /// can carry: nothing is cut off.
    pub fn pack(&self) -> (r: Vec<u8>)
        requires
            self.fits(),
        ensures
            r@ == self.packed(),
            r@.len() == 10,
    {
        let fields = Self::fields();
        let values = vec![
            self.op_code as u32,
            self.rd_protect as u32,
            if self.dpo { 1u32 } else { 0u32 },
            if self.fua { 1u32 } else { 0u32 },
            if self.fua_nv { 1u32 } else { 0u32 },
            self.lba,
            self.group_number as u32,
            self.transfer_length as u32,
            self.control as u32,
        ];
        proof {
            assert(values@ =~= self.values());
            self.lemma_values_fit();
        }
        pack_fields(10, fields.as_slice(), values.as_slice())
    }

    /// The table is sound: its fields lie inside the command and share no bit.
    pub proof fn lemma_layout_is_sound()
        ensures
            layout_wf(Self::spec_len(), Self::spec_fields()),
    {
    }

    /// The values of a command that fits are within the widths of the table.
    pub proof fn lemma_values_fit(self)
        requires
            self.fits(),
        ensures
            values_fit(Self::spec_fields(), self.values()),
    {
        lemma2_to64();
    }

    /// Encoding a command and decoding the bytes gives the command back,
    /// for every command whose fields are within their widths.
    pub proof fn lemma_pack_then_unpack(self)
        requires
            self.fits(),
        ensures
            self.packed().len() == 10,
            Self::unpacked(self.packed()) == Ok::<Self, PackingError>(self),
    {
        Self::lemma_layout_is_sound();
        self.lemma_values_fit();
        lemma_pack_then_unpack(Self::spec_len(), Self::spec_fields(), self.values());
        assert(Self::from_values(self.values()) == self);
    }
}

impl From<Read10Command> for ReadXCommand {
    /// The address and the count as they are.
    fn from(r: Read10Command) -> (x: Self) {
        ReadXCommand { lba: r.lba, transfer_length: r.transfer_length as u32 }
    }
}

impl FromSpecImpl<Read10Command> for ReadXCommand {
    open spec fn obeys_from_spec() -> bool {
        true
    }

    open spec fn from_spec(r: Read10Command) -> Self {
        ReadXCommand { lba: r.lba, transfer_length: r.transfer_length as u32 }
    }
}

/// READ (12): a 32-bit block address and a 32-bit block count.
#[derive(Clone, Copy, Eq, PartialEq, Debug, Structural)]
pub struct Read12Command {
    /// Byte 0.
    pub op_code: u8,
    /// Bits 7 to 5 of byte 1.
    pub rd_protect: u8,
    /// Bit 4 of byte 1.
    pub dpo: bool,
    /// Bit 3 of byte 1.
    pub fua: bool,
    /// Bit 1 of byte 1.
    pub fua_nv: bool,
    /// Bytes 2 to 5.
    pub lba: u32,
    /// Bytes 6 to 9.
    pub transfer_length: u32,
    /// Bits 4 to 0 of byte 10.
    pub group_number: u8,
    /// Byte 11.
    pub control: u8,
}

impl Read12Command {
    /// The length of the command on the wire.
    pub open spec fn spec_len() -> nat {
        12
    }

    /// The table of the command's fields, in the order of the struct.
    pub open spec fn spec_fields() -> Seq<Field> {
        seq![
            Field { first_byte: 0, last_byte: 0, msb: 7, lsb: 0 },
            Field { first_byte: 1, last_byte: 1, msb: 7, lsb: 5 },
            Field { first_byte: 1, last_byte: 1, msb: 4, lsb: 4 },
            Field { first_byte: 1, last_byte: 1, msb: 3, lsb: 3 },
            Field { first_byte: 1, last_byte: 1, msb: 1, lsb: 1 },
            Field { first_byte: 2, last_byte: 5, msb: 7, lsb: 0 },
            Field { first_byte: 6, last_byte: 9, msb: 7, lsb: 0 },
            Field { first_byte: 10, last_byte: 10, msb: 4, lsb: 0 },
            Field { first_byte: 11, last_byte: 11, msb: 7, lsb: 0 },
        ]
    }

    /// The values of the fields, in the order of the table.
    pub open spec fn values(self) -> Seq<u32> {
        seq![
            self.op_code as u32,
            self.rd_protect as u32,
            if self.dpo { 1u32 } else { 0u32 },
            if self.fua { 1u32 } else { 0u32 },
            if self.fua_nv { 1u32 } else { 0u32 },
            self.lba,
            self.transfer_length,
            self.group_number as u32,
            self.control as u32,
        ]
    }

    /// The command that holds the given field values.
    pub open spec fn from_values(v: Seq<u32>) -> Self {
        Read12Command {
            op_code: v[0] as u8,
            rd_protect: v[1] as u8,
            dpo: v[2] != 0,
            fua: v[3] != 0,
            fua_nv: v[4] != 0,
            lba: v[5],
            transfer_length: v[6],
            group_number: v[7] as u8,
            control: v[8] as u8,
        }
    }

    /// Every field holds a value that its bits on the wire can carry.
    pub open spec fn fits(self) -> bool {
        &&& self.rd_protect < 0x8
        &&& self.group_number < 0x20
    }

    /// What decoding a buffer gives.
    pub open spec fn unpacked(bytes: Seq<u8>) -> Result<Self, PackingError> {
        match unpacked_fields(Self::spec_len(), Self::spec_fields(), bytes) {
            Ok(v) => Ok(Self::from_values(v)),
            Err(e) => Err(e),
        }
    }

    /// The bytes of the command, with zero in every bit outside its fields.
    pub open spec fn packed(self) -> Seq<u8> {
        packed_fields(Self::spec_len(), Self::spec_fields(), self.values())
    }

    /// The table of the command's fields.
    pub fn fields() -> (r: Vec<Field>)
        ensures
            r@ == Self::spec_fields(),
            layout_wf(Self::spec_len(), r@),
    {
        let r = vec![
            Field { first_byte: 0, last_byte: 0, msb: 7, lsb: 0 },
            Field { first_byte: 1, last_byte: 1, msb: 7, lsb: 5 },
            Field { first_byte: 1, last_byte: 1, msb: 4, lsb: 4 },
            Field { first_byte: 1, last_byte: 1, msb: 3, lsb: 3 },
            Field { first_byte: 1, last_byte: 1, msb: 1, lsb: 1 },
            Field { first_byte: 2, last_byte: 5, msb: 7, lsb: 0 },
            Field { first_byte: 6, last_byte: 9, msb: 7, lsb: 0 },
            Field { first_byte: 10, last_byte: 10, msb: 4, lsb: 0 },
            Field { first_byte: 11, last_byte: 11, msb: 7, lsb: 0 },
        ];
        proof {
            assert(r@ =~= Self::spec_fields());
            Self::lemma_layout_is_sound();
        }
        r
    }

    /// Whether every field holds a value that its bits on the wire can carry.
    pub fn in_range(&self) -> (r: bool)
        ensures
            r == self.fits(),
    {
        self.rd_protect < 0x8 && self.group_number < 0x20
    }

    /// Decodes the command from a buffer. Fails when the buffer holds fewer
    /// bytes than the command has.
    pub fn unpack(bytes: &[u8]) -> (r: Result<Self, PackingError>)
        ensures
            r == Self::unpacked(bytes@),
            r is Err <==> bytes@.len() < 12,
            r matches Ok(c) ==> c.fits(),
    {
        let fields = Self::fields();
        match unpack_fields(12, fields.as_slice(), bytes) {
            Ok(v) => {
                proof {
                    lemma2_to64();
                    assert(forall|i: int|
                        0 <= i < 9 ==> (#[trigger] v@[i]) < pow2(fields@[i].width()));
                    assert(v@[0] < 0x100);
                    assert(v@[1] < 0x8);
                    assert(v@[2] < 0x2);
                    assert(v@[3] < 0x2);
                    assert(v@[4] < 0x2);
                    assert(v@[7] < 0x20);
                    assert(v@[8] < 0x100);
                }
                Ok(
                    Read12Command {
                        op_code: v[0] as u8,
                        rd_protect: v[1] as u8,
                        dpo: v[2] != 0,
                        fua: v[3] != 0,
                        fua_nv: v[4] != 0,
                        lba: v[5],
                        transfer_length: v[6],
                        group_number: v[7] as u8,
                        control: v[8] as u8,
                    },
                )
            },
            Err(e) => Err(e),
        }
    }

    /// Encodes the command. No field may hold more than its bits on the wire
    /// can carry: nothing is cut off.
    pub fn pack(&self) -> (r: Vec<u8>)
        requires
            self.fits(),
        ensures
            r@ == self.packed(),
            r@.len() == 12,
    {
        let fields = Self::fields();
        let values = vec![
            self.op_code as u32,
            self.rd_protect as u32,
            if self.dpo { 1u32 } else { 0u32 },
            if self.fua { 1u32 } else { 0u32 },
            if self.fua_nv { 1u32 } else { 0u32 },
            self.lba,
            self.transfer_length,
            self.group_number as u32,
            self.control as u32,
        ];
        proof {
            assert(values@ =~= self.values());
            self.lemma_values_fit();
        }
        pack_fields(12, fields.as_slice(), values.as_slice())
    }

    /// The table is sound: its fields lie inside the command and share no bit.
    pub proof fn lemma_layout_is_sound()
        ensures
            layout_wf(Self::spec_len(), Self::spec_fields()),
    {
    }

    /// The values of a command that fits are within the widths of the table.
    pub proof fn lemma_values_fit(self)
        requires
            self.fits(),
        ensures
            values_fit(Self::spec_fields(), self.values()),
    {
        lemma2_to64();
    }

    /// Encoding a command and decoding the bytes gives the command back,
    /// for every command whose fields are within their widths.
    pub proof fn lemma_pack_then_unpack(self)
        requires
            self.fits(),
        ensures
            self.packed().len() == 12,
            Self::unpacked(self.packed()) == Ok::<Self, PackingError>(self),
    {
        Self::lemma_layout_is_sound();
        self.lemma_values_fit();
        lemma_pack_then_unpack(Self::spec_len(), Self::spec_fields(), self.values());
        assert(Self::from_values(self.values()) == self);
    }
}

impl From<Read12Command> for ReadXCommand {
    /// The address and the count as they are.
    fn from(r: Read12Command) -> (x: Self) {
        ReadXCommand { lba: r.lba, transfer_length: r.transfer_length }
    }
}

impl FromSpecImpl<Read12Command> for ReadXCommand {
    open spec fn obeys_from_spec() -> bool {
        true
    }

    open spec fn from_spec(r: Read12Command) -> Self {
        ReadXCommand { lba: r.lba, transfer_length: r.transfer_length }
    }
}

} // verus!
