//! The field codec: bit-packed fields inside fixed-length byte buffers.
//!
//! A field is described by the bytes it spans and by the bit at which it
//! starts in the first of them and the bit at which it ends in the last. Bit 7
//! is the most significant bit of a byte, and a field that spans several bytes
//! is read most significant byte first.

use crate::scsi::bits::{
    be_bytes,
    be_value,
    bit_slice,
    lemma_be_bytes_of_be_value,
    lemma_be_value_bound,
    lemma_be_value_of_be_bytes,
    lemma_be_value_prepend,
    lemma_be_value_push,
    lemma_high_bits_agree,
    lemma_high_part_of_low_byte,
    lemma_low_bits_agree,
    lemma_low_part_of_two_digits,
    lemma_slice_bounds,
    lemma_slice_written,
    lemma_two_digits,
    with_bit_slice,
};
use vstd::arithmetic::div_mod::lemma_div_denominator;
use vstd::arithmetic::power2::{
    lemma2_to64,
    lemma2_to64_rest,
    lemma_pow2_adds,
    lemma_pow2_pos,
    lemma_pow2_strictly_increases,
    pow2,
};
use vstd::bits::{lemma_u64_pow2_no_overflow, lemma_u64_shl_is_mul};
use vstd::prelude::*;

verus! {

/// Why a buffer could not be decoded or encoded.
#[derive(Clone, Copy, Debug, PartialEq, Eq, Structural)]
pub enum PackingError {
    /// The buffer ends before the last byte that the layout reads.
    InsufficientBytes,
}

/// Where a field lies in a buffer.
#[derive(Clone, Copy, Debug, PartialEq, Eq, Structural)]
pub struct Field {
    /// Index of the byte in which the field starts.
    pub first_byte: usize,
    /// Index of the byte in which the field ends.
    pub last_byte: usize,
    /// The field's most significant bit, as a bit of the first byte.
    pub msb: u8,
    /// The field's least significant bit, as a bit of the last byte.
    pub lsb: u8,
}

impl Field {
    /// The number of bytes that the field touches.
    pub open spec fn span(self) -> nat {
        (self.last_byte - self.first_byte + 1) as nat
    }

    /// The number of bits in the field.
    pub open spec fn width(self) -> nat {
        (8 * (self.last_byte - self.first_byte) + self.msb + 1 - self.lsb) as nat
    }

    /// A descriptor is well formed when its bits are bits of a byte, it holds
    /// at least one bit and at most 32, and it touches no more than five
    /// bytes.
    pub open spec fn wf(self) -> bool {
        &&& self.first_byte <= self.last_byte
        &&& self.last_byte - self.first_byte <= 4
        &&& self.msb <= 7
        &&& self.lsb <= 7
        &&& self.first_byte == self.last_byte ==> self.lsb <= self.msb
        &&& self.width() <= 32
    }

    /// The bytes of a buffer that the field touches.
    pub open spec fn window(self, bytes: Seq<u8>) -> Seq<u8> {
        bytes.subrange(self.first_byte as int, self.last_byte + 1)
    }

    /// The value of the field in a buffer that reaches its last byte.
    pub open spec fn value(self, bytes: Seq<u8>) -> nat {
        bit_slice(be_value(self.window(bytes)), self.lsb as nat, self.width())
    }

    /// The buffer with the field set to `v` and every other bit as it was.
    pub open spec fn written(self, bytes: Seq<u8>, v: nat) -> Seq<u8> {
        bytes.subrange(0, self.first_byte as int) + be_bytes(
            with_bit_slice(be_value(self.window(bytes)), self.lsb as nat, self.width(), v),
            self.span(),
        ) + bytes.subrange(self.last_byte + 1, bytes.len() as int)
    }

    /// What reading the field from a buffer gives: the value, or an error
    /// when the buffer ends before the field does.
    pub open spec fn decoded(self, bytes: Seq<u8>) -> Result<u32, PackingError> {
        if bytes.len() <= self.last_byte {
            Err(PackingError::InsufficientBytes)
        } else {
            Ok(self.value(bytes) as u32)
        }
    }

    /// What writing the field into a buffer gives: nothing to report, or an
    /// error when the buffer ends before the field does.
    pub open spec fn encoded(self, bytes: Seq<u8>) -> Result<(), PackingError> {
        if bytes.len() <= self.last_byte {
            Err(PackingError::InsufficientBytes)
        } else {
            Ok(())
        }
    }

    /// The place of the field's first bit in the buffer, where bit 7 of
    /// byte 0 has place 0 and bit 0 of byte 0 has place 7.
    pub open spec fn first_bit(self) -> nat {
        (8 * self.first_byte + 7 - self.msb) as nat
    }

    /// The place of the field's last bit in the buffer.
    pub open spec fn last_bit(self) -> nat {
        (8 * self.last_byte + 7 - self.lsb) as nat
    }

    /// Two fields share no bit: one ends before the other starts.
    pub open spec fn apart_from(self, other: Field) -> bool {
        self.last_bit() < other.first_bit() || other.last_bit() < self.first_bit()
    }

    /// Reads the field from a buffer. Fails when the buffer ends before the
    /// field does.
    pub fn decode(&self, bytes: &[u8]) -> (r: Result<u32, PackingError>)
        requires
            self.wf(),
        ensures
            r == self.decoded(bytes@),
            r matches Ok(v) ==> v == self.value(bytes@),
    {
        if bytes.len() <= self.last_byte {
            return Err(PackingError::InsufficientBytes);
        }
        let acc = self.read_window(bytes);
        let width: u8 = self.bit_width();
        let low: u64 = pow2_u64(self.lsb);
        let base: u64 = pow2_u64(width);
        let v: u64 = (acc / low) % base;
        proof {
            lemma2_to64();
            if width < 32 {
                lemma_pow2_strictly_increases(width as nat, 32);
            }
        }
        Ok(v as u32)
    }

    /// Writes `value` into the field and leaves the rest of the buffer as it
    /// was. Fails, and changes nothing, when the buffer ends before the field
    /// does. The value must fit the field's width.
    pub fn encode(&self, bytes: &mut Vec<u8>, value: u32) -> (r: Result<(), PackingError>)
        requires
            self.wf(),
            value < pow2(self.width()),
        ensures
            r == self.encoded(old(bytes)@),
            final(bytes)@ == if r is Ok {
                self.written(old(bytes)@, value as nat)
            } else {
                old(bytes)@
            },
    {
        if bytes.len() <= self.last_byte {
            return Err(PackingError::InsufficientBytes);
        }
        let acc = self.read_window(bytes.as_slice());
        let width: u8 = self.bit_width();
        let low: u64 = pow2_u64(self.lsb);
        let base: u64 = pow2_u64(width);
        let cur: u64 = (acc / low) % base;
        proof {
            lemma_be_value_bound(self.window(bytes@));
            lemma_slice_written(
                acc as nat,
                self.lsb as nat,
                width as nat,
                value as nat,
                8 * self.span(),
            );
            lemma2_to64();
            lemma2_to64_rest();
            lemma_pow2_strictly_increases(8 * self.span(), 41);
            let m = with_bit_slice(acc as nat, self.lsb as nat, width as nat, value as nat);
            assert(cur * low <= acc);
            assert(value * low == m - acc + cur * low);
        }
        let updated: u64 = acc - cur * low + (value as u64) * low;
        let ghost before = bytes@;
        let count: usize = self.last_byte - self.first_byte + 1;
        let mut rem: u64 = updated;
        let mut done: usize = 0;
        while done < count
            invariant
                self.wf(),
                count == self.span(),
                done <= count,
                before.len() > self.last_byte,
                bytes@.len() == before.len(),
                bytes@.subrange(0, self.first_byte as int) == before.subrange(
                    0,
                    self.first_byte as int,
                ),
                bytes@.subrange(self.last_byte + 1, before.len() as int) == before.subrange(
                    self.last_byte + 1,
                    before.len() as int,
                ),
                be_bytes(updated as nat, count as nat) == be_bytes(
                    rem as nat,
                    (count - done) as nat,
                ) + bytes@.subrange(self.last_byte + 1 - done, self.last_byte + 1),
            decreases count - done,
        {
            let at: usize = self.last_byte - done;
            let ghost prev = bytes@;
            bytes.set(at, (rem % 256) as u8);
            proof {
                let tail = prev.subrange(self.last_byte + 1 - done, self.last_byte + 1);
                let new_tail = bytes@.subrange(at as int, self.last_byte + 1);
                assert(new_tail =~= seq![(rem % 256) as u8] + tail);
                assert(be_bytes(rem as nat, (count - done) as nat) == be_bytes(
                    rem as nat / 256,
                    (count - done - 1) as nat,
                ).push((rem % 256) as u8));
                assert(be_bytes(rem as nat, (count - done) as nat) + tail =~= be_bytes(
                    rem as nat / 256,
                    (count - done - 1) as nat,
                ) + new_tail);
                assert(bytes@.subrange(0, self.first_byte as int) =~= before.subrange(
                    0,
                    self.first_byte as int,
                ));
                assert(bytes@.subrange(self.last_byte + 1, before.len() as int)
                    =~= before.subrange(self.last_byte + 1, before.len() as int));
            }
            rem = rem / 256;
            done = done + 1;
        }
        proof {
            assert(be_bytes(rem as nat, 0) =~= Seq::<u8>::empty());
            assert(bytes@.subrange(self.first_byte as int, self.last_byte + 1) =~= be_bytes(
                updated as nat,
                count as nat,
            ));
            assert(bytes@ =~= bytes@.subrange(0, self.first_byte as int) + bytes@.subrange(
                self.first_byte as int,
                self.last_byte + 1,
            ) + bytes@.subrange(self.last_byte + 1, before.len() as int));
        }
        Ok(())
    }

    /// The number of bits in the field.
    fn bit_width(&self) -> (w: u8)
        requires
            self.wf(),
        ensures
            w == self.width(),
            1 <= w <= 32,
    {
        let bytes_between: usize = self.last_byte - self.first_byte;
        let full: u8 = (8 * bytes_between) as u8;
        full + self.msb + 1 - self.lsb
    }

    /// The number that the bytes of the field's window spell.
    fn read_window(&self, bytes: &[u8]) -> (acc: u64)
        requires
            self.wf(),
            bytes@.len() > self.last_byte,
        ensures
            acc == be_value(self.window(bytes@)),
            acc < pow2(8 * self.span()),
    {
        let mut acc: u64 = 0;
        let mut i: usize = self.first_byte;
        proof {
            lemma2_to64();
            assert(bytes@.subrange(self.first_byte as int, i as int) =~= Seq::<u8>::empty());
        }
        while i <= self.last_byte
            invariant
                self.wf(),
                bytes@.len() > self.last_byte,
                self.first_byte <= i <= self.last_byte + 1,
                acc == be_value(bytes@.subrange(self.first_byte as int, i as int)),
                acc < pow2((8 * (i - self.first_byte)) as nat),
            decreases self.last_byte + 1 - i,
        {
            proof {
                let seen = bytes@.subrange(self.first_byte as int, i as int);
                lemma_be_value_push(seen, bytes@[i as int]);
                assert(seen.push(bytes@[i as int]) =~= bytes@.subrange(
                    self.first_byte as int,
                    i + 1,
                ));
                lemma_be_value_bound(seen.push(bytes@[i as int]));
                lemma2_to64();
                lemma_pow2_strictly_increases((8 * (i - self.first_byte)) as nat, 33);
                if i < self.last_byte {
                    lemma_pow2_strictly_increases((8 * (i + 1 - self.first_byte)) as nat, 33);
                }
            }
            acc = acc * 256 + bytes[i] as u64;
            i = i + 1;
        }
        acc
    }

    /// The value of a field is below two to the power of its width.
    pub proof fn lemma_value_fits(self, bytes: Seq<u8>)
        requires
            self.wf(),
        ensures
            self.value(bytes) < pow2(self.width()),
            self.value(bytes) <= u32::MAX,
    {
        lemma_pow2_pos(self.width());
        vstd::arithmetic::div_mod::lemma_mod_bound(
            (be_value(self.window(bytes)) / pow2(self.lsb as nat)) as int,
            pow2(self.width()) as int,
        );
        lemma2_to64();
        if self.width() < 32 {
            lemma_pow2_strictly_increases(self.width(), 32);
        }
    }

    /// If one field lies apart from another, the other lies apart from it.
    pub proof fn lemma_apart_is_mutual(self, other: Field)
        ensures
            self.apart_from(other) == other.apart_from(self),
    {
    }

    /// Writing a field and reading it back gives the value written, for every
    /// value that fits the field's width.
    pub proof fn lemma_written_then_read(self, bytes: Seq<u8>, v: nat)
        requires
            self.wf(),
            bytes.len() > self.last_byte,
            v < pow2(self.width()),
        ensures
            self.written(bytes, v).len() == bytes.len(),
            self.value(self.written(bytes, v)) == v,
    {
        let n = be_value(self.window(bytes));
        let m = with_bit_slice(n, self.lsb as nat, self.width(), v);
        lemma_be_value_bound(self.window(bytes));
        lemma_slice_written(n, self.lsb as nat, self.width(), v, 8 * self.span());
        lemma_be_value_of_be_bytes(m, self.span());
        assert(self.window(self.written(bytes, v)) =~= be_bytes(m, self.span()));
    }

    /// Reading a field and writing the value back leaves the buffer as it
    /// was.
    pub proof fn lemma_read_then_written(self, bytes: Seq<u8>)
        requires
            self.wf(),
            bytes.len() > self.last_byte,
        ensures
            self.written(bytes, self.value(bytes)) == bytes,
    {
        let window = self.window(bytes);
        let n = be_value(window);
        lemma_be_value_bound(window);
        lemma_pow2_pos(self.lsb as nat);
        lemma_pow2_pos(self.width());
        lemma_slice_bounds(n, self.lsb as nat, self.width());
        assert(with_bit_slice(n, self.lsb as nat, self.width(), self.value(bytes)) == n);
        lemma_be_bytes_of_be_value(window);
        assert(self.written(bytes, self.value(bytes)) =~= bytes);
    }

    /// Writing a field leaves the value of every field apart from it as it
    /// was.
    pub proof fn lemma_written_keeps_other(self, other: Field, bytes: Seq<u8>, v: nat)
        requires
            self.wf(),
            other.wf(),
            self.apart_from(other),
            bytes.len() > self.last_byte,
            bytes.len() > other.last_byte,
            v < pow2(self.width()),
        ensures
            other.value(self.written(bytes, v)) == other.value(bytes),
    {
        if self.last_byte < other.first_byte || other.last_byte < self.first_byte {
            self.lemma_written_then_read(bytes, v);
            assert(other.window(self.written(bytes, v)) =~= other.window(bytes));
        } else if self.last_bit() < other.first_bit() {
            self.lemma_written_keeps_later(other, bytes, v);
        } else {
            self.lemma_written_keeps_earlier(other, bytes, v);
        }
    }

    /// Writing a field leaves a field as it was that starts in the byte in
    /// which the written one ends, below its last bit.
    proof fn lemma_written_keeps_later(self, other: Field, bytes: Seq<u8>, v: nat)
        requires
            self.wf(),
            other.wf(),
            self.last_byte == other.first_byte,
            other.msb < self.lsb,
            bytes.len() > other.last_byte,
            v < pow2(self.width()),
        ensures
            other.value(self.written(bytes, v)) == other.value(bytes),
    {
        let after = self.written(bytes, v);
        let window = self.window(bytes);
        let n = be_value(window);
        let m = with_bit_slice(n, self.lsb as nat, self.width(), v);
        lemma_be_value_bound(window);
        lemma_slice_written(n, self.lsb as nat, self.width(), v, 8 * self.span());
        lemma_be_value_of_be_bytes(m, self.span());
        lemma2_to64();
        // the byte that the two fields share, before and after
        let old_byte = bytes[self.last_byte as int];
        let new_byte = after[self.last_byte as int];
        assert(window.last() == old_byte);
        assert(be_bytes(m, self.span()).last() == (m % 256) as u8);
        assert(new_byte == (m % 256) as u8);
        lemma_two_digits(be_value(window.drop_last()), 256, old_byte as nat);
        // below the written field the shared byte is as it was
        let k = (other.msb + 1) as nat;
        lemma_low_bits_agree(m, n, k, self.lsb as nat);
        vstd::arithmetic::div_mod::lemma_mod_twice(m as int, 256);
        vstd::arithmetic::div_mod::lemma_mod_twice(n as int, 256);
        lemma_low_bits_agree(m % 256, m, k, 8);
        lemma_low_bits_agree(n % 256, n, k, 8);
        assert(new_byte as nat % pow2(k) == old_byte as nat % pow2(k));
        // the other field's window is the shared byte and bytes that stayed
        let rest = bytes.subrange(other.first_byte + 1, other.last_byte + 1);
        assert(other.window(bytes) =~= seq![old_byte] + rest);
        assert(other.window(after) =~= seq![new_byte] + rest);
        lemma_be_value_prepend(old_byte, rest);
        lemma_be_value_prepend(new_byte, rest);
        lemma_be_value_bound(rest);
        let shift = pow2(8 * rest.len());
        lemma_low_part_of_two_digits(
            new_byte as nat,
            old_byte as nat,
            k,
            shift,
            be_value(rest),
        );
        lemma_pow2_adds(k, 8 * rest.len());
        lemma_pow2_adds(other.lsb as nat, other.width());
        assert(other.lsb + other.width() == k + 8 * rest.len());
        lemma_pow2_pos(other.lsb as nat);
        lemma_pow2_pos(other.width());
        assert(pow2(k) * shift == pow2(other.lsb as nat) * pow2(other.width()) * 1) by {
            vstd::arithmetic::mul::lemma_mul_basics((pow2(k) * shift) as int);
        };
        crate::scsi::bits::lemma_slice_of_low_part(
            be_value(other.window(after)) as int,
            be_value(other.window(bytes)) as int,
            pow2(other.lsb as nat) as int,
            pow2(other.width()) as int,
            1,
        );
    }

    /// Writing a field leaves a field as it was that ends in the byte in
    /// which the written one starts, above its first bit.
    proof fn lemma_written_keeps_earlier(self, other: Field, bytes: Seq<u8>, v: nat)
        requires
            self.wf(),
            other.wf(),
            other.last_byte == self.first_byte,
            self.msb < other.lsb,
            bytes.len() > self.last_byte,
            v < pow2(self.width()),
        ensures
            other.value(self.written(bytes, v)) == other.value(bytes),
    {
        let after = self.written(bytes, v);
        let window = self.window(bytes);
        let n = be_value(window);
        let m = with_bit_slice(n, self.lsb as nat, self.width(), v);
        lemma_be_value_bound(window);
        lemma_slice_written(n, self.lsb as nat, self.width(), v, 8 * self.span());
        lemma_be_value_of_be_bytes(m, self.span());
        lemma2_to64();
        // the byte that the two fields share, before and after
        let old_byte = bytes[self.first_byte as int];
        let new_byte = after[self.first_byte as int];
        let new_window = be_bytes(m, self.span());
        let old_rest = window.subrange(1, window.len() as int);
        let new_rest = new_window.subrange(1, new_window.len() as int);
        assert(window =~= seq![old_byte] + old_rest);
        assert(new_window =~= seq![new_byte] + new_rest);
        lemma_be_value_prepend(old_byte, old_rest);
        lemma_be_value_prepend(new_byte, new_rest);
        lemma_be_value_bound(old_rest);
        lemma_be_value_bound(new_rest);
        let shift = pow2(8 * old_rest.len());
        lemma_pow2_pos(8 * old_rest.len());
        lemma_two_digits(old_byte as nat, shift, be_value(old_rest));
        lemma_two_digits(new_byte as nat, shift, be_value(new_rest));
        // above the written field the shared byte is as it was
        let k = (self.msb + 1) as nat;
        lemma_pow2_pos(k);
        lemma_pow2_adds(8 * old_rest.len(), k);
        assert(self.lsb + self.width() == 8 * old_rest.len() + k);
        lemma_div_denominator(m as int, shift as int, pow2(k) as int);
        lemma_div_denominator(n as int, shift as int, pow2(k) as int);
        assert(new_byte as nat / pow2(k) == old_byte as nat / pow2(k));
        // the other field's window is bytes that stayed and the shared byte
        let front = bytes.subrange(other.first_byte as int, other.last_byte as int);
        assert(other.window(bytes).drop_last() =~= front);
        assert(other.window(after).drop_last() =~= front);
        assert(other.window(bytes).last() == old_byte);
        assert(other.window(after).last() == new_byte);
        lemma_high_part_of_low_byte(be_value(front), new_byte as nat, old_byte as nat, k);
        lemma_high_bits_agree(
            be_value(other.window(after)),
            be_value(other.window(bytes)),
            k,
            other.lsb as nat,
        );
    }
}

/// A layout is sound when its fields are well formed, lie inside its length
/// and share no bit with one another.
pub open spec fn layout_wf(len: nat, fields: Seq<Field>) -> bool {
    &&& forall|i: int|
        0 <= i < fields.len() ==> (#[trigger] fields[i]).wf() && fields[i].last_byte < len
    &&& forall|i: int, j: int|
        0 <= i < j < fields.len() ==> (#[trigger] fields[i]).apart_from(#[trigger] fields[j])
}

/// Each value fits the width of the field at its index.
pub open spec fn values_fit(fields: Seq<Field>, values: Seq<u32>) -> bool {
    &&& values.len() == fields.len()
    &&& forall|i: int| 0 <= i < fields.len() ==> (#[trigger] values[i]) < pow2(fields[i].width())
}

/// The values of a layout's fields in a buffer, in the order of the table;
/// an error when the buffer is shorter than the layout.
pub open spec fn unpacked_fields(len: nat, fields: Seq<Field>, bytes: Seq<u8>) -> Result<
    Seq<u32>,
    PackingError,
> {
    if bytes.len() < len {
        Err(PackingError::InsufficientBytes)
    } else {
        Ok(Seq::new(fields.len(), |i: int| fields[i].value(bytes) as u32))
    }
}

/// A buffer after the fields of a table were written into it one by one.
pub open spec fn written_fields(bytes: Seq<u8>, fields: Seq<Field>, values: Seq<u32>) -> Seq<u8>
    decreases fields.len(),
{
    if fields.len() == 0 {
        bytes
    } else {
        fields.last().written(
            written_fields(bytes, fields.drop_last(), values.drop_last()),
            values.last() as nat,
        )
    }
}

/// The buffer of a layout that holds the given values and zero in every
/// other bit.
pub open spec fn packed_fields(len: nat, fields: Seq<Field>, values: Seq<u32>) -> Seq<u8> {
    written_fields(Seq::new(len, |i: int| 0u8), fields, values)
}

/// Reads every field of a layout from a buffer. Fails when the buffer is
/// shorter than the layout's length.
pub fn unpack_fields(len: usize, fields: &[Field], bytes: &[u8]) -> (r: Result<
    Vec<u32>,
    PackingError,
>)
    requires
        layout_wf(len as nat, fields@),
    ensures
        match r {
            Ok(values) => unpacked_fields(len as nat, fields@, bytes@) == Ok::<
                Seq<u32>,
                PackingError,
            >(values@) && values_fit(fields@, values@),
            Err(e) => unpacked_fields(len as nat, fields@, bytes@) == Err::<
                Seq<u32>,
                PackingError,
            >(e),
        },
{
    if bytes.len() < len {
        return Err(PackingError::InsufficientBytes);
    }
    let mut values: Vec<u32> = Vec::new();
    let mut i: usize = 0;
    while i < fields.len()
        invariant
            layout_wf(len as nat, fields@),
            bytes@.len() >= len,
            i <= fields@.len(),
            values@.len() == i,
            forall|k: int| 0 <= k < i ==> (#[trigger] values@[k]) == fields@[k].value(bytes@),
            forall|k: int| 0 <= k < i ==> (#[trigger] values@[k]) < pow2(fields@[k].width()),
        decreases fields@.len() - i,
    {
        let field = &fields[i];
        assert(fields@[i as int].wf());
        match field.decode(bytes) {
            Ok(v) => {
                proof {
                    field.lemma_value_fits(bytes@);
                }
                values.push(v);
            },
            Err(e) => {
                return Err(e);
            },
        }
        i = i + 1;
    }
    assert(values@ =~= Seq::new(fields@.len(), |i: int| fields@[i].value(bytes@) as u32));
    Ok(values)
}

/// Builds the buffer of a layout from the values of its fields. Each value
/// must fit the width of its field.
pub fn pack_fields(len: usize, fields: &[Field], values: &[u32]) -> (r: Vec<u8>)
    requires
        layout_wf(len as nat, fields@),
        values_fit(fields@, values@),
    ensures
        r@ == packed_fields(len as nat, fields@, values@),
        r@.len() == len,
{
    let mut bytes: Vec<u8> = Vec::new();
    let mut n: usize = 0;
    while n < len
        invariant
            n <= len,
            bytes@ == Seq::new(n as nat, |i: int| 0u8),
        decreases len - n,
    {
        bytes.push(0u8);
        n = n + 1;
        assert(bytes@ =~= Seq::new(n as nat, |i: int| 0u8));
    }
    let ghost blank = bytes@;
    let mut i: usize = 0;
    assert(fields@.take(0) =~= Seq::<Field>::empty());
    while i < fields.len()
        invariant
            layout_wf(len as nat, fields@),
            values_fit(fields@, values@),
            i <= fields@.len(),
            bytes@.len() == len,
            bytes@ == written_fields(blank, fields@.take(i as int), values@.take(i as int)),
        decreases fields@.len() - i,
    {
        let field = &fields[i];
        let ghost prev = bytes@;
        assert(fields@[i as int].wf());
        assert((#[trigger] values@[i as int]) < pow2(fields@[i as int].width()));
        let _ = field.encode(&mut bytes, values[i]);
        proof {
            field.lemma_written_then_read(prev, values@[i as int] as nat);
            assert(fields@.take(i + 1).drop_last() =~= fields@.take(i as int));
            assert(values@.take(i + 1).drop_last() =~= values@.take(i as int));
        }
        i = i + 1;
    }
    proof {
        assert(fields@.take(i as int) =~= fields@);
        assert(values@.take(i as int) =~= values@);
    }
    bytes
}

/// Writing the fields of a table keeps the length of the buffer.
pub proof fn lemma_written_fields_len(bytes: Seq<u8>, fields: Seq<Field>, values: Seq<u32>)
    requires
        layout_wf(bytes.len(), fields),
        values_fit(fields, values),
    ensures
        written_fields(bytes, fields, values).len() == bytes.len(),
    decreases fields.len(),
{
    if fields.len() > 0 {
        lemma_values_fit_prefix(bytes.len(), fields, values);
        lemma_written_fields_len(bytes, fields.drop_last(), values.drop_last());
        assert(fields.last() == fields[fields.len() - 1]);
        assert(values.last() == values[values.len() - 1]);
        fields.last().lemma_written_then_read(
            written_fields(bytes, fields.drop_last(), values.drop_last()),
            values.last() as nat,
        );
    }
}

/// A sound layout without its last field is sound, and values that fit the
/// whole table fit the shorter one.
pub proof fn lemma_values_fit_prefix(len: nat, fields: Seq<Field>, values: Seq<u32>)
    requires
        layout_wf(len, fields),
        values_fit(fields, values),
        fields.len() > 0,
    ensures
        layout_wf(len, fields.drop_last()),
        values_fit(fields.drop_last(), values.drop_last()),
{
    let f = fields.drop_last();
    let v = values.drop_last();
    assert forall|i: int| 0 <= i < f.len() implies (#[trigger] f[i]).wf() && f[i].last_byte
        < len by {
        assert(f[i] == fields[i]);
    }
    assert forall|i: int, j: int| 0 <= i < j < f.len() implies (#[trigger] f[i]).apart_from(
        #[trigger] f[j],
    ) by {
        assert(f[i] == fields[i] && f[j] == fields[j]);
    }
    assert forall|i: int| 0 <= i < f.len() implies (#[trigger] v[i]) < pow2(f[i].width()) by {
        assert(v[i] == values[i] && f[i] == fields[i]);
    }
}

/// After the fields of a sound layout were written, each of them holds the
/// value written for it.
pub proof fn lemma_written_fields_hold(
    bytes: Seq<u8>,
    fields: Seq<Field>,
    values: Seq<u32>,
    k: int,
)
    requires
        layout_wf(bytes.len(), fields),
        values_fit(fields, values),
        0 <= k < fields.len(),
    ensures
        fields[k].value(written_fields(bytes, fields, values)) == values[k],
    decreases fields.len(),
{
    let shorter = written_fields(bytes, fields.drop_last(), values.drop_last());
    let last = fields.last();
    lemma_values_fit_prefix(bytes.len(), fields, values);
    lemma_written_fields_len(bytes, fields.drop_last(), values.drop_last());
    assert(last == fields[fields.len() - 1]);
    assert(values.last() == values[values.len() - 1]);
    assert(last.wf());
    if k == fields.len() - 1 {
        last.lemma_written_then_read(shorter, values.last() as nat);
    } else {
        lemma_written_fields_hold(bytes, fields.drop_last(), values.drop_last(), k);
        assert(fields.drop_last()[k] == fields[k]);
        assert(values.drop_last()[k] == values[k]);
        assert(fields[k].apart_from(last));
        assert(fields[k].wf());
        last.lemma_apart_is_mutual(fields[k]);
        last.lemma_written_keeps_other(fields[k], shorter, values.last() as nat);
    }
}

/// Packing the values of a sound layout and unpacking the result gives the
/// values back, for all values that fit the widths of their fields.
pub proof fn lemma_pack_then_unpack(len: nat, fields: Seq<Field>, values: Seq<u32>)
    requires
        layout_wf(len, fields),
        values_fit(fields, values),
    ensures
        packed_fields(len, fields, values).len() == len,
        unpacked_fields(len, fields, packed_fields(len, fields, values)) == Ok::<
            Seq<u32>,
            PackingError,
        >(values),
{
    let blank = Seq::new(len, |i: int| 0u8);
    let packed = packed_fields(len, fields, values);
    lemma_written_fields_len(blank, fields, values);
    assert forall|k: int| 0 <= k < fields.len() implies fields[k].value(packed) as u32
        == values[k] by {
        lemma_written_fields_hold(blank, fields, values, k);
    }
    assert(Seq::new(fields.len(), |i: int| fields[i].value(packed) as u32) =~= values);
}

/// Two to the power `e`.
fn pow2_u64(e: u8) -> (r: u64)
    requires
        e < 64,
    ensures
        r == pow2(e as nat),
        r > 0,
{
    proof {
        lemma_u64_pow2_no_overflow(e as nat);
        lemma_u64_shl_is_mul(1, e as u64);
    }
    1u64 << (e as u64)
}

} // verus!
