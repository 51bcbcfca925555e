//! The fixed answers of the device: what it says of itself and of its
//! capacity.

use crate::config::{BLOCKS, BLOCK_SIZE};
use crate::scsi::bits::be_bytes;
use vstd::prelude::*;

verus! {

/// The four bytes of a number, most significant byte first.
pub open spec fn be32(x: u32) -> Seq<u8> {
    be_bytes(x as nat, 4)
}

/// Appends the four bytes of a number, most significant byte first.
fn push_be32(out: &mut Vec<u8>, x: u32)
    ensures
        final(out)@ == old(out)@ + be32(x),
        be32(x).len() == 4,
{
    out.push((x / 16777216) as u8);
    out.push(((x / 65536) % 256) as u8);
    out.push(((x / 256) % 256) as u8);
    out.push((x % 256) as u8);
    proof {
        reveal_with_fuel(be_bytes, 5);
        let n = x as nat;
        assert(n / 256 / 256 == n / 65536);
        assert(n / 256 / 256 / 256 == n / 16777216);
        assert(be32(x) =~= seq![
            (x / 16777216) as u8,
            ((x / 65536) % 256) as u8,
            ((x / 256) % 256) as u8,
            (x % 256) as u8,
        ]);
        assert(out@ =~= old(out)@ + be32(x));
    }
}

/// The standard INQUIRY data, 36 bytes: a direct-access device with
/// removable media, then the vendor `CHRISP  `, the product
/// `100k of your fin` and the revision `1.23`.
pub open spec fn spec_inquiry() -> Seq<u8> {
    seq![
        0x00u8, 0x80u8, 0x04u8, 0x02u8, 0x20u8, 0x00u8, 0x00u8, 0x00u8,
        0x43u8, 0x48u8, 0x52u8, 0x49u8, 0x53u8, 0x50u8, 0x20u8, 0x20u8,
        0x31u8, 0x30u8, 0x30u8, 0x6Bu8, 0x20u8, 0x6Fu8, 0x66u8, 0x20u8,
        0x79u8, 0x6Fu8, 0x75u8, 0x72u8, 0x20u8, 0x66u8, 0x69u8, 0x6Eu8,
        0x31u8, 0x2Eu8, 0x32u8, 0x33u8,
    ]
}

/// The standard INQUIRY data.
pub fn inquiry() -> (r: Vec<u8>)
    ensures
        r@ == spec_inquiry(),
        r@.len() == 36,
{
    let r = vec![
        0x00u8, // peripheral qualifier, peripheral device type
        0x80u8, // removable
        0x04u8, // version
        0x02u8, // response data format
        0x20u8, // additional length
        0x00u8, 0x00u8, 0x00u8, // reserved
        0x43u8, 0x48u8, 0x52u8, 0x49u8, 0x53u8, 0x50u8, 0x20u8, 0x20u8, // vendor
        0x31u8, 0x30u8, 0x30u8, 0x6Bu8, 0x20u8, 0x6Fu8, 0x66u8, 0x20u8, // product
        0x79u8, 0x6Fu8, 0x75u8, 0x72u8, 0x20u8, 0x66u8, 0x69u8, 0x6Eu8,
        0x31u8, 0x2Eu8, 0x32u8, 0x33u8, // revision
    ];
    assert(r@ =~= spec_inquiry());
    r
}

/// The fixed-format sense data, 18 bytes: response code 0x70 for current
/// errors, the key in byte 2, the code in byte 12 and the qualifier in
/// byte 13.
pub open spec fn spec_request_sense(sense: (u8, u8, u8)) -> Seq<u8> {
    seq![
        0x70u8, 0x00u8, sense.0, 0x00u8, 0x00u8, 0x00u8, 0x00u8, 0x00u8, 0x00u8,
        0x00u8, 0x00u8, 0x00u8, sense.1, sense.2, 0x00u8, 0x00u8, 0x00u8, 0x00u8,
    ]
}

/// The fixed-format sense data for a key, a code and a qualifier.
pub fn request_sense(sense: (u8, u8, u8)) -> (r: Vec<u8>)
    ensures
        r@ == spec_request_sense(sense),
        r@.len() == 18,
{
    let r = vec![
        0x70u8, // response code: current errors
        0x00u8,
        sense.0, // sense key
        0x00u8, 0x00u8, 0x00u8, 0x00u8, // information
        0x00u8, // additional sense length
        0x00u8, 0x00u8, 0x00u8, 0x00u8, // command-specific information
        sense.1, // additional sense code
        sense.2, // additional sense code qualifier
        0x00u8, 0x00u8, 0x00u8, 0x00u8,
    ];
    assert(r@ =~= spec_request_sense(sense));
    r
}

/// The answer to READ CAPACITY (10), 8 bytes: the address of the last
/// block, then the block size, both most significant byte first.
pub open spec fn spec_read_capacity10() -> Seq<u8> {
    be32((BLOCKS - 1) as u32) + be32(BLOCK_SIZE)
}

/// The answer to READ CAPACITY (10).
pub fn read_capacity10() -> (r: Vec<u8>)
    ensures
        r@ == spec_read_capacity10(),
        r@.len() == 8,
{
    let mut r: Vec<u8> = Vec::new();
    push_be32(&mut r, BLOCKS - 1);
    push_be32(&mut r, BLOCK_SIZE);
    r
}

/// The answer to READ CAPACITY (16), 16 bytes: the address of the last
/// block in 8 bytes, the block size in 4, and 4 bytes of zero.
pub open spec fn spec_read_capacity16() -> Seq<u8> {
    be32(0) + be32((BLOCKS - 1) as u32) + be32(BLOCK_SIZE) + be32(0)
}

/// The answer to READ CAPACITY (16).
pub fn read_capacity16() -> (r: Vec<u8>)
    ensures
        r@ == spec_read_capacity16(),
        r@.len() == 16,
{
    let mut r: Vec<u8> = Vec::new();
    push_be32(&mut r, 0);
    push_be32(&mut r, BLOCKS - 1);
    push_be32(&mut r, BLOCK_SIZE);
    push_be32(&mut r, 0);
    r
}

/// The answer to READ FORMAT CAPACITIES, 12 bytes: a list header that
/// announces 8 bytes, the number of blocks, the descriptor code 1, and the
/// block size in 3 bytes.
pub open spec fn spec_read_format_capacities() -> Seq<u8> {
    seq![0x00u8, 0x00u8, 0x00u8, 0x08u8] + be32(BLOCKS) + seq![0x01u8] + be32(BLOCK_SIZE).subrange(
        1,
        4,
    )
}

/// The answer to READ FORMAT CAPACITIES.
pub fn read_format_capacities() -> (r: Vec<u8>)
    ensures
        r@ == spec_read_format_capacities(),
        r@.len() == 12,
{
    let mut r: Vec<u8> = Vec::new();
    r.push(0x00);
    r.push(0x00);
    r.push(0x00);
    r.push(0x08);
    push_be32(&mut r, BLOCKS);
    r.push(0x01);
    let mut block_size: Vec<u8> = Vec::new();
    push_be32(&mut block_size, BLOCK_SIZE);
    r.push(block_size[1]);
    r.push(block_size[2]);
    r.push(block_size[3]);
    assert(block_size@ =~= be32(BLOCK_SIZE));
    assert(r@ =~= spec_read_format_capacities());
    r
}

/// The answer to MODE SENSE (6), 4 bytes: three bytes follow, the medium
/// is not write-protected, and there are no block descriptors.
pub open spec fn spec_mode_sense6() -> Seq<u8> {
    seq![0x03u8, 0x00u8, 0x00u8, 0x00u8]
}

/// The answer to MODE SENSE (6).
pub fn mode_sense6() -> (r: Vec<u8>)
    ensures
        r@ == spec_mode_sense6(),
        r@.len() == 4,
{
    let r = vec![0x03u8, 0x00u8, 0x00u8, 0x00u8];
    assert(r@ =~= spec_mode_sense6());
    r
}

/// The answer to MODE SENSE (10), 8 bytes: six bytes follow, all zero.
pub open spec fn spec_mode_sense10() -> Seq<u8> {
    seq![0x00u8, 0x06u8, 0x00u8, 0x00u8, 0x00u8, 0x00u8, 0x00u8, 0x00u8]
}

/// The answer to MODE SENSE (10).
pub fn mode_sense10() -> (r: Vec<u8>)
    ensures
        r@ == spec_mode_sense10(),
        r@.len() == 8,
{
    let r = vec![0x00u8, 0x06u8, 0x00u8, 0x00u8, 0x00u8, 0x00u8, 0x00u8, 0x00u8];
    assert(r@ =~= spec_mode_sense10());
    r
}

} // verus!
