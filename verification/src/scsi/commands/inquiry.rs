//! The INQUIRY command descriptor block.

use crate::scsi::packing::{
    layout_wf,
    lemma_pack_then_unpack,
    pack_fields,
    packed_fields,
    unpack_fields,
    unpacked_fields,
    values_fit,
    Field,
    PackingError,
};
use vstd::arithmetic::power2::{lemma2_to64, pow2};
use vstd::prelude::*;

verus! {

/// The fields of an INQUIRY command, six bytes on the wire.
#[derive(Clone, Copy, Eq, PartialEq, Debug, Structural)]
pub struct InquiryCommand {
    /// Byte 0.
    pub op_code: u8,
    /// If set, return vital data related to the page_code field. Bit 0 of
    /// byte 1.
    pub enable_vital_product_data: bool,
    /// What kind of vital data to return. Byte 2.
    pub page_code: u8,
    /// The room the host has for the answer. Bytes 3 and 4.
    pub allocation_length: u16,
    /// Byte 5.
    pub control: u8,
}

impl InquiryCommand {
    /// The length of the command on the wire.
    pub open spec fn spec_len() -> nat {
        6
    }

    /// The table of the command's fields, in the order of the struct.
    pub open spec fn spec_fields() -> Seq<Field> {
        seq![
            Field { first_byte: 0, last_byte: 0, msb: 7, lsb: 0 },
            Field { first_byte: 1, last_byte: 1, msb: 0, lsb: 0 },
            Field { first_byte: 2, last_byte: 2, msb: 7, lsb: 0 },
            Field { first_byte: 3, last_byte: 4, msb: 7, lsb: 0 },
            Field { first_byte: 5, last_byte: 5, msb: 7, lsb: 0 },
        ]
    }

    /// The values of the fields, in the order of the table.
    pub open spec fn values(self) -> Seq<u32> {
        seq![
            self.op_code as u32,
            if self.enable_vital_product_data { 1u32 } else { 0u32 },
            self.page_code as u32,
            self.allocation_length as u32,
            self.control as u32,
        ]
    }

    /// The command that holds the given field values.
    pub open spec fn from_values(v: Seq<u32>) -> Self {
        InquiryCommand {
            op_code: v[0] as u8,
            enable_vital_product_data: v[1] != 0,
            page_code: v[2] as u8,
            allocation_length: v[3] as u16,
            control: v[4] as u8,
        }
    }

    /// What decoding a buffer gives.
    pub open spec fn unpacked(bytes: Seq<u8>) -> Result<Self, PackingError> {
        match unpacked_fields(Self::spec_len(), Self::spec_fields(), bytes) {
            Ok(v) => Ok(Self::from_values(v)),
            Err(e) => Err(e),
        }
    }

    /// The six bytes of the command.
    pub open spec fn packed(self) -> Seq<u8> {
        packed_fields(Self::spec_len(), Self::spec_fields(), self.values())
    }

    /// The table of the command's fields.
    pub fn fields() -> (r: Vec<Field>)
        ensures
            r@ == Self::spec_fields(),
            layout_wf(Self::spec_len(), r@),
    {
        let r = vec![
            Field { first_byte: 0, last_byte: 0, msb: 7, lsb: 0 },
            Field { first_byte: 1, last_byte: 1, msb: 0, lsb: 0 },
            Field { first_byte: 2, last_byte: 2, msb: 7, lsb: 0 },
            Field { first_byte: 3, last_byte: 4, msb: 7, lsb: 0 },
            Field { first_byte: 5, last_byte: 5, msb: 7, lsb: 0 },
        ];
        proof {
            assert(r@ =~= Self::spec_fields());
            Self::lemma_layout_is_sound();
        }
        r
    }

    /// Decodes the command from a buffer. Fails when the buffer holds fewer
    /// than six bytes.
    pub fn unpack(bytes: &[u8]) -> (r: Result<Self, PackingError>)
        ensures
            r == Self::unpacked(bytes@),
            r is Err <==> bytes@.len() < 6,
    {
        let fields = Self::fields();
        match unpack_fields(6, fields.as_slice(), bytes) {
            Ok(v) => {
                proof {
                    lemma2_to64();
                    assert(forall|i: int|
                        0 <= i < 5 ==> (#[trigger] v@[i]) < pow2(fields@[i].width()));
                    assert(v@[0] < 256 && v@[2] < 256 && v@[3] < 65536 && v@[4] < 256);
                }
                Ok(
                    InquiryCommand {
                        op_code: v[0] as u8,
                        enable_vital_product_data: v[1] != 0,
                        page_code: v[2] as u8,
                        allocation_length: v[3] as u16,
                        control: v[4] as u8,
                    },
                )
            },
            Err(e) => Err(e),
        }
    }

    /// Encodes the command into six bytes.
    pub fn pack(&self) -> (r: Vec<u8>)
        ensures
            r@ == self.packed(),
            r@.len() == 6,
    {
        let fields = Self::fields();
        let values = vec![
            self.op_code as u32,
            if self.enable_vital_product_data { 1u32 } else { 0u32 },
            self.page_code as u32,
            self.allocation_length as u32,
            self.control as u32,
        ];
        proof {
            assert(values@ =~= self.values());
            self.lemma_values_fit();
        }
        pack_fields(6, fields.as_slice(), values.as_slice())
    }

    /// The table is sound: its fields lie inside six bytes and share no bit.
    pub proof fn lemma_layout_is_sound()
        ensures
            layout_wf(Self::spec_len(), Self::spec_fields()),
    {
    }

    /// Every field of a command fits its width: the types of the struct are
    /// as wide as the fields on the wire.
    pub proof fn lemma_values_fit(self)
        ensures
            values_fit(Self::spec_fields(), self.values()),
    {
        lemma2_to64();
    }

    /// Encoding a command and decoding the bytes gives the command back.
    pub proof fn lemma_pack_then_unpack(self)
        ensures
            self.packed().len() == 6,
            Self::unpacked(self.packed()) == Ok::<Self, PackingError>(self),
    {
        Self::lemma_layout_is_sound();
        self.lemma_values_fit();
        lemma_pack_then_unpack(Self::spec_len(), Self::spec_fields(), self.values());
        assert(Self::from_values(self.values()) == self);
    }
}

impl Default for InquiryCommand {
    /// The command with zero in every field.
    fn default() -> (r: Self)
        ensures
            r == (InquiryCommand {
                op_code: 0,
                enable_vital_product_data: false,
                page_code: 0,
                allocation_length: 0,
                control: 0,
            }),
    {
        InquiryCommand {
            op_code: 0,
            enable_vital_product_data: false,
            page_code: 0,
            allocation_length: 0,
            control: 0,
        }
    }
}

} // verus!
