//! Numbers as rows of bits: the arithmetic that the field codec rests on.
//!
//! A run of bytes is read as one big-endian number. A field is a slice of
//! that number's bits; to write a field is to replace the slice and leave
//! every other bit alone.

use vstd::arithmetic::div_mod::{
    lemma_breakdown,
    lemma_div_denominator,
    lemma_fundamental_div_mod,
    lemma_fundamental_div_mod_converse,
    lemma_mod_mod,
};
use vstd::arithmetic::power2::{lemma_pow2_adds, lemma_pow2_pos, pow2};
use vstd::prelude::*;

verus! {

/// The `width` bits of `n` that start `low` bits above its lowest bit.
pub open spec fn bit_slice(n: nat, low: nat, width: nat) -> nat {
    (n / pow2(low)) % pow2(width)
}

/// `n` with the `width` bits that start at bit `low` replaced by `v`.
pub open spec fn with_bit_slice(n: nat, low: nat, width: nat, v: nat) -> nat {
    (n - bit_slice(n, low, width) * pow2(low) + v * pow2(low)) as nat
}

/// The number that a run of bytes spells, most significant byte first.
pub open spec fn be_value(s: Seq<u8>) -> nat
    decreases s.len(),
{
    if s.len() == 0 {
        0
    } else {
        be_value(s.drop_last()) * 256 + (s.last() as nat)
    }
}

/// The lowest `count` bytes of `n`, most significant byte first.
pub open spec fn be_bytes(n: nat, count: nat) -> Seq<u8>
    decreases count,
{
    if count == 0 {
        Seq::empty()
    } else {
        be_bytes(n / 256, (count - 1) as nat).push((n % 256) as u8)
    }
}

/// Replacing one digit of a number in mixed radix: with `a` the weight of the
/// digit and `b` its base, the new digit is `v`, and the digits above and
/// below it stay. A bound `a * b * c` on the number is kept.
pub proof fn lemma_replace_digit(n: int, a: int, b: int, c: int, v: int)
    requires
        0 <= n < a * b * c,
        0 < a,
        0 < b,
        0 < c,
        0 <= v < b,
    ensures
        0 <= ((n / a) % b) * a <= n,
        ({
            let m = n - ((n / a) % b) * a + v * a;
            &&& 0 <= m < a * b * c
            &&& (m / a) % b == v
            &&& m / (a * b) == n / (a * b)
            &&& m % a == n % a
        }),
{
    let q = n / a;
    let r = n % a;
    let h = q / b;
    let d = q % b;
    let m = n - d * a + v * a;
    lemma_fundamental_div_mod(n, a);
    lemma_fundamental_div_mod(q, b);
    assert(0 <= r < a);
    assert(0 <= d < b);
    assert(q >= 0) by (nonlinear_arith)
        requires
            n == a * q + r,
            0 <= r < a,
            0 < a,
            0 <= n,
    ;
    assert(h >= 0) by (nonlinear_arith)
        requires
            q == b * h + d,
            0 <= d < b,
            0 < b,
            0 <= q,
    ;
    assert(0 <= d * a <= n) by (nonlinear_arith)
        requires
            n == a * q + r,
            q == b * h + d,
            0 <= r,
            0 <= d,
            0 <= h,
            0 < a,
            0 < b,
    ;
    assert(m == (h * b + v) * a + r) by (nonlinear_arith)
        requires
            m == n - d * a + v * a,
            n == a * q + r,
            q == b * h + d,
    ;
    lemma_fundamental_div_mod_converse(m, a, h * b + v, r);
    lemma_fundamental_div_mod_converse(h * b + v, b, h, v);
    assert(0 <= m) by (nonlinear_arith)
        requires
            m == (h * b + v) * a + r,
            0 <= h,
            0 <= v,
            0 <= r,
            0 < a,
            0 < b,
    ;
    lemma_div_denominator(m, a, b);
    lemma_div_denominator(n, a, b);
    assert(h < c) by (nonlinear_arith)
        requires
            n == a * q + r,
            q == b * h + d,
            0 <= r,
            0 <= d,
            0 < a,
            0 < b,
            n < a * b * c,
    ;
    assert(m < a * b * c) by (nonlinear_arith)
        requires
            m == (h * b + v) * a + r,
            h + 1 <= c,
            v + 1 <= b,
            r < a,
            0 < a,
            0 < b,
    ;
}

/// A slice of bits depends only on the part of the number below its top.
pub proof fn lemma_slice_of_low_part(x: int, y: int, d: int, e: int, f: int)
    requires
        0 <= x,
        0 <= y,
        0 < d,
        0 < e,
        0 < f,
        x % (d * e * f) == y % (d * e * f),
    ensures
        (x / d) % e == (y / d) % e,
{
    assert(d * e > 0 && e * f > 0) by (nonlinear_arith)
        requires
            0 < d,
            0 < e,
            0 < f,
    ;
    assert(d * e * f == d * (e * f)) by (nonlinear_arith);
    lemma_mod_mod(x, d * e, f);
    lemma_mod_mod(y, d * e, f);
    lemma_mod_mod(x, d, e * f);
    lemma_mod_mod(y, d, e * f);
    lemma_breakdown(x, d, e);
    lemma_breakdown(y, d, e);
    let sx = (x / d) % e;
    let sy = (y / d) % e;
    assert(sx == sy) by (nonlinear_arith)
        requires
            d * sx == d * sy,
            0 < d,
    ;
}

/// A slice is below two to the power of its width, and, put back in its
/// place, it is no more than the number it was cut from.
pub proof fn lemma_slice_bounds(n: nat, low: nat, width: nat)
    ensures
        bit_slice(n, low, width) < pow2(width),
        bit_slice(n, low, width) * pow2(low) <= n,
{
    lemma_pow2_pos(low);
    lemma_pow2_pos(width);
    let a = pow2(low) as int;
    let b = pow2(width) as int;
    let q = n as int / a;
    lemma_fundamental_div_mod(n as int, a);
    lemma_fundamental_div_mod(q, b);
    assert(q >= 0) by (nonlinear_arith)
        requires
            n == a * q + (n as int % a),
            0 <= n as int % a < a,
            0 < a,
    ;
    let h = q / b;
    assert(h >= 0) by (nonlinear_arith)
        requires
            q == b * h + q % b,
            0 <= q % b < b,
            0 < b,
            0 <= q,
    ;
    assert((q % b) * a <= n) by (nonlinear_arith)
        requires
            n == a * q + (n as int % a),
            q == b * h + q % b,
            0 <= n as int % a,
            0 <= q % b,
            0 <= h,
            0 < a,
            0 < b,
    ;
}

/// Writing a slice and reading it back gives what was written.
pub proof fn lemma_slice_written(n: nat, low: nat, width: nat, v: nat, top: nat)
    requires
        n < pow2(top),
        low + width <= top,
        v < pow2(width),
    ensures
        bit_slice(n, low, width) * pow2(low) <= n,
        with_bit_slice(n, low, width, v) < pow2(top),
        with_bit_slice(n, low, width, v) == n - bit_slice(n, low, width) * pow2(low) + v * pow2(
            low,
        ),
        bit_slice(with_bit_slice(n, low, width, v), low, width) == v,
        with_bit_slice(n, low, width, v) % pow2(low) == n % pow2(low),
        with_bit_slice(n, low, width, v) / pow2(low + width) == n / pow2(low + width),
{
    let rest = (top - low - width) as nat;
    lemma_pow2_pos(low);
    lemma_pow2_pos(width);
    lemma_pow2_pos(rest);
    lemma_pow2_adds(low, width);
    lemma_pow2_adds(low + width, rest);
    assert(low + width + rest == top);
    lemma_replace_digit(
        n as int,
        pow2(low) as int,
        pow2(width) as int,
        pow2(rest) as int,
        v as int,
    );
}

/// Two numbers that agree below bit `big` agree below every lower bit.
pub proof fn lemma_low_bits_agree(x: nat, y: nat, small: nat, big: nat)
    requires
        small <= big,
        x % pow2(big) == y % pow2(big),
    ensures
        x % pow2(small) == y % pow2(small),
{
    let gap = (big - small) as nat;
    lemma_pow2_pos(small);
    lemma_pow2_pos(gap);
    lemma_pow2_adds(small, gap);
    assert(small + gap == big);
    lemma_mod_mod(x as int, pow2(small) as int, pow2(gap) as int);
    lemma_mod_mod(y as int, pow2(small) as int, pow2(gap) as int);
}

/// Two numbers that agree from bit `small` up agree from every higher bit
/// up.
pub proof fn lemma_high_bits_agree(x: nat, y: nat, small: nat, big: nat)
    requires
        small <= big,
        x / pow2(small) == y / pow2(small),
    ensures
        x / pow2(big) == y / pow2(big),
{
    let gap = (big - small) as nat;
    lemma_pow2_pos(small);
    lemma_pow2_pos(gap);
    lemma_pow2_adds(small, gap);
    assert(small + gap == big);
    lemma_div_denominator(x as int, pow2(small) as int, pow2(gap) as int);
    lemma_div_denominator(y as int, pow2(small) as int, pow2(gap) as int);
}

/// With `r` below `m`, the number `b * m + r` has `r` in its low part and
/// `b` above it.
pub proof fn lemma_two_digits(b: nat, m: nat, r: nat)
    requires
        r < m,
    ensures
        (b * m + r) / m == b,
        (b * m + r) % m == r,
{
    lemma_fundamental_div_mod_converse((b * m + r) as int, m as int, b as int, r as int);
}

/// Below the top of its low digit and `k` more bits, the number
/// `b * m + r` depends on `b` only through the low `k` bits of `b`.
pub proof fn lemma_low_part_of_two_digits(b: nat, c: nat, k: nat, m: nat, r: nat)
    requires
        r < m,
        b % pow2(k) == c % pow2(k),
    ensures
        (b * m + r) % (pow2(k) * m) == (c * m + r) % (pow2(k) * m),
{
    lemma_pow2_pos(k);
    let p = pow2(k) as int;
    let low = b as int % p;
    lemma_fundamental_div_mod(b as int, p);
    lemma_fundamental_div_mod(c as int, p);
    let hb = b as int / p;
    let hc = c as int / p;
    let rest = low * m + r;
    assert(0 <= rest < p * m) by (nonlinear_arith)
        requires
            rest == low * m + r,
            0 <= low,
            low + 1 <= p,
            0 <= r < m,
    ;
    assert(b * m + r == hb * (p * m) + rest) by (nonlinear_arith)
        requires
            b == p * hb + low,
            rest == low * m + r,
    ;
    assert(c * m + r == hc * (p * m) + rest) by (nonlinear_arith)
        requires
            c == p * hc + low,
            rest == low * m + r,
    ;
    lemma_fundamental_div_mod_converse((b * m + r) as int, p * m, hb, rest);
    lemma_fundamental_div_mod_converse((c * m + r) as int, p * m, hc, rest);
}

/// From bit `k` up, for `k` at most 8, the number `f * 256 + b` depends on
/// the byte `b` only through the bits of `b` from `k` up.
pub proof fn lemma_high_part_of_low_byte(f: nat, b: nat, c: nat, k: nat)
    requires
        k <= 8,
        b < 256,
        c < 256,
        b / pow2(k) == c / pow2(k),
    ensures
        (f * 256 + b) / pow2(k) == (f * 256 + c) / pow2(k),
{
    let gap = (8 - k) as nat;
    lemma_pow2_pos(k);
    lemma_pow2_pos(gap);
    lemma_pow2_adds(k, gap);
    vstd::arithmetic::power2::lemma2_to64();
    let p = pow2(k) as int;
    let j = pow2(gap) as int;
    assert(p * j == 256);
    lemma_fundamental_div_mod(b as int, p);
    lemma_fundamental_div_mod(c as int, p);
    let hb = b as int / p;
    assert(f * 256 + b == (f * j + hb) * p + b as int % p) by (nonlinear_arith)
        requires
            p * j == 256,
            b == p * hb + b as int % p,
    ;
    assert(f * 256 + c == (f * j + hb) * p + c as int % p) by (nonlinear_arith)
        requires
            p * j == 256,
            c == p * hb + c as int % p,
    ;
    lemma_fundamental_div_mod_converse((f * 256 + b) as int, p, f * j + hb, b as int % p);
    lemma_fundamental_div_mod_converse((f * 256 + c) as int, p, f * j + hb, c as int % p);
}

/// Putting a byte in front of a run adds the byte, shifted up by the
/// length of the run.
pub proof fn lemma_be_value_prepend(b: u8, rest: Seq<u8>)
    ensures
        be_value(seq![b] + rest) == b * pow2(8 * rest.len()) + be_value(rest),
    decreases rest.len(),
{
    let s = seq![b] + rest;
    vstd::arithmetic::power2::lemma2_to64();
    assert(s.len() == rest.len() + 1);
    if rest.len() == 0 {
        assert(s.drop_last() =~= Seq::<u8>::empty());
        assert(be_value(s.drop_last()) == 0);
        assert(s.last() == b);
        assert(be_value(s) == b);
        assert(be_value(rest) == 0);
        assert(b * pow2(0) == b);
    } else {
        let shorter = rest.drop_last();
        assert(s.drop_last() =~= seq![b] + shorter);
        assert(s.last() == rest.last());
        lemma_be_value_prepend(b, shorter);
        lemma_pow2_adds(8 * shorter.len(), 8);
        assert(8 * shorter.len() + 8 == 8 * rest.len());
        let p = pow2(8 * shorter.len());
        let hi = be_value(shorter);
        let last = rest.last() as nat;
        assert(pow2(8 * rest.len()) == p * 256);
        assert(be_value(rest) == hi * 256 + last);
        assert(be_value(s) == (b * p + hi) * 256 + last);
        assert((b * p + hi) * 256 + last == b * (p * 256) + (hi * 256 + last))
            by (nonlinear_arith);
    }
}

/// Appending a byte shifts the number up by eight bits and adds the byte.
pub proof fn lemma_be_value_push(s: Seq<u8>, b: u8)
    ensures
        be_value(s.push(b)) == be_value(s) * 256 + (b as nat),
{
    assert(s.push(b).drop_last() =~= s);
}

/// A run of `len` bytes spells a number below `2^(8 * len)`.
pub proof fn lemma_be_value_bound(s: Seq<u8>)
    ensures
        be_value(s) < pow2(8 * s.len()),
    decreases s.len(),
{
    if s.len() == 0 {
        lemma_pow2_pos(0);
    } else {
        lemma_be_value_bound(s.drop_last());
        lemma_pow2_adds(8 * s.drop_last().len(), 8);
        vstd::arithmetic::power2::lemma2_to64();
        assert(8 * s.drop_last().len() + 8 == 8 * s.len());
        let hi = be_value(s.drop_last());
        let p = pow2(8 * s.drop_last().len());
        assert(hi * 256 + (s.last() as nat) < p * 256) by (nonlinear_arith)
            requires
                hi < p,
                s.last() < 256,
        ;
    }
}

/// Spelling a number in bytes and reading the bytes back gives the number.
pub proof fn lemma_be_value_of_be_bytes(n: nat, count: nat)
    requires
        n < pow2(8 * count),
    ensures
        be_bytes(n, count).len() == count,
        be_value(be_bytes(n, count)) == n,
    decreases count,
{
    if count == 0 {
        vstd::arithmetic::power2::lemma2_to64();
    } else {
        let rest = (count - 1) as nat;
        lemma_pow2_adds(8 * rest, 8);
        vstd::arithmetic::power2::lemma2_to64();
        assert(8 * rest + 8 == 8 * count);
        let p = pow2(8 * rest);
        assert(n / 256 < p) by (nonlinear_arith)
            requires
                n < p * 256,
        ;
        lemma_be_value_of_be_bytes(n / 256, rest);
        lemma_be_value_push(be_bytes(n / 256, rest), (n % 256) as u8);
    }
}

/// Reading bytes as a number and spelling the number gives the bytes.
pub proof fn lemma_be_bytes_of_be_value(s: Seq<u8>)
    ensures
        be_bytes(be_value(s), s.len()) == s,
    decreases s.len(),
{
    if s.len() == 0 {
        assert(be_bytes(be_value(s), 0) =~= s);
    } else {
        let n = be_value(s);
        let hi = be_value(s.drop_last());
        lemma_be_bytes_of_be_value(s.drop_last());
        assert(n / 256 == hi && n % 256 == s.last()) by {
            lemma_fundamental_div_mod_converse(n as int, 256, hi as int, s.last() as int);
        }
        assert(be_bytes(n, s.len()) =~= s);
    }
}

} // verus!
