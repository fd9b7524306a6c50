//! Single bits: reading and replacing the low bit of a carrier byte, and
//! moving a number's binary digits into and out of a run of carrier bytes.

use vstd::arithmetic::div_mod::lemma_breakdown;
use vstd::arithmetic::power2::{
    lemma2_to64, lemma_pow2_pos, lemma_pow2_strictly_increases, lemma_pow2_unfold, pow2,
};
use vstd::bits::{lemma_u64_shl_is_mul, lemma_u64_shr_is_div};
use vstd::prelude::*;

use crate::error::StegError;

verus! {

/// The least significant bit of `b`, as 0 or 1.
pub open spec fn lsb(b: u8) -> u8 {
    b & 1
}

/// `b` with its least significant bit cleared and `v` put in its place.
/// The upper seven bits of `b` are kept.
pub open spec fn with_lsb(b: u8, v: u8) -> u8 {
    (b & 0xFE) | v
}

/// Binary digit `k` of `x`; digit 0 is the least significant one.
pub open spec fn bit_at(x: nat, k: nat) -> u8 {
    ((x / pow2(k)) % 2) as u8
}

/// The number whose binary digits 0 to `n - 1` are the low bits of
/// `s[start]` to `s[start + n - 1]`, in this order.
pub open spec fn lsb_value(s: Seq<u8>, start: int, n: nat) -> nat
    decreases n,
{
    if n == 0 {
        0
    } else {
        lsb_value(s, start, (n - 1) as nat) + lsb(s[start + n - 1]) as nat * pow2((n - 1) as nat)
    }
}

/// `s` after the low bits of `s[start]` to `s[start + n - 1]` have been
/// replaced by the binary digits 0 to `n - 1` of `value`. All other bytes,
/// and the upper seven bits of the bytes in that range, are those of `s`.
pub open spec fn with_lsbs(s: Seq<u8>, start: int, value: nat, n: nat) -> Seq<u8> {
    Seq::new(
        s.len(),
        |i: int|
            if start <= i < start + n {
                with_lsb(s[i], bit_at(value, (i - start) as nat))
            } else {
                s[i]
            },
    )
}

/// The low bit of a byte is 0 or 1, and is the byte's remainder modulo 2.
pub proof fn lemma_lsb(b: u8)
    ensures
        lsb(b) <= 1,
        lsb(b) == b % 2,
{
    assert(b & 1 == b % 2) by (bit_vector);
}

/// Storing a bit makes it the low bit of the byte, leaves the other seven
/// bits alone, and does not depend on the bit that was there before.
pub proof fn lemma_with_lsb(b: u8, v: u8)
    requires
        v <= 1,
    ensures
        lsb(with_lsb(b, v)) == v,
        with_lsb(b, v) >> 1 == b >> 1,
        with_lsb(b, v) == with_lsb(b ^ 1, v),
{
    assert(((b & 0xFE) | v) & 1 == v) by (bit_vector)
        requires
            v <= 1,
    ;
    assert(((b & 0xFE) | v) >> 1 == b >> 1) by (bit_vector)
        requires
            v <= 1,
    ;
    assert((b & 0xFE) | v == ((b ^ 1) & 0xFE) | v) by (bit_vector);
}

/// The value read from a run of bytes depends on the low bits in that run
/// only.
pub proof fn lemma_lsb_value_same_bits(a: Seq<u8>, b: Seq<u8>, start: int, n: nat)
    requires
        forall|k: int| 0 <= k < n ==> lsb(#[trigger] a[start + k]) == lsb(b[start + k]),
    ensures
        lsb_value(a, start, n) == lsb_value(b, start, n),
    decreases n,
{
    if n > 0 {
        lemma_lsb_value_same_bits(a, b, start, (n - 1) as nat);
    }
}

/// Reading back the low bits of a run that holds the binary digits of `x`
/// gives the `n` lowest digits of `x`, that is `x` modulo `2^n`.
pub proof fn lemma_lsb_value_of_digits(s: Seq<u8>, start: int, n: nat, x: nat)
    requires
        forall|k: int| 0 <= k < n ==> lsb(#[trigger] s[start + k]) == bit_at(x, k as nat),
    ensures
        lsb_value(s, start, n) == x % pow2(n),
    decreases n,
{
    if n == 0 {
        lemma2_to64();
    } else {
        let m = (n - 1) as nat;
        lemma_lsb_value_of_digits(s, start, m, x);
        lemma_pow2_pos(m);
        lemma_pow2_unfold(n);
        lemma_breakdown(x as int, pow2(m) as int, 2);
        assert(pow2(m) * ((x / pow2(m)) % 2) == ((x / pow2(m)) % 2) * pow2(m))
            by (nonlinear_arith);
    }
}

/// Below `2^k`, putting a bit at position `k` with `|` adds `bit * 2^k`.
proof fn lemma_or_is_plus(acc: u64, bit: u64, k: u64)
    requires
        k < 64,
        acc < pow2(k as nat),
        bit <= 1,
    ensures
        acc | (bit << k) == acc + bit * pow2(k as nat),
        acc + bit * pow2(k as nat) < 2 * pow2(k as nat),
{
    lemma2_to64();
    lemma_pow2_strictly_increases(k as nat, 64);
    lemma_u64_shl_is_mul(1, k);
    let weight: u64 = 1u64 << k;
    assert(acc | (bit << k) == acc + bit * weight) by (bit_vector)
        requires
            k < 64,
            weight == 1u64 << k,
            acc < weight,
            bit <= 1,
    ;
    assert(bit * weight <= weight) by (nonlinear_arith)
        requires
            bit <= 1,
    ;
}

/// The substitution step for a bit that is known to be 0 or 1: clears the
/// low bit of `host_byte`, then puts `bit` there.
fn set_lsb(host_byte: u8, bit: u8) -> (stored: u8)
    requires
        bit <= 1,
    ensures
        stored == with_lsb(host_byte, bit),
{
    (host_byte & 0xFE) | bit
}

/// Replaces the least significant bit of `host_byte` by `new_bit`.
///
/// `new_bit` has to be 0 or 1; any other value is refused with
/// `InvalidBitValue`.
pub fn update_host_byte(host_byte: u8, new_bit: u8) -> (r: Result<u8, StegError>)
    ensures
        new_bit <= 1 ==> r == Ok::<u8, StegError>(with_lsb(host_byte, new_bit)),
        new_bit > 1 ==> r == Err::<u8, StegError>(StegError::InvalidBitValue),
{
    if new_bit > 1 {
        return Err(StegError::InvalidBitValue);
    }
    Ok(set_lsb(host_byte, new_bit))
}

/// Stores the `n` lowest binary digits of `value` in the low bits of
/// `bytes[start]` to `bytes[start + n - 1]`, least significant digit first.
pub fn write_bits(bytes: &mut Vec<u8>, start: usize, value: u64, n: usize)
    requires
        n <= 64,
        start + n <= old(bytes).len(),
    ensures
        final(bytes)@ == with_lsbs(old(bytes)@, start as int, value as nat, n as nat),
{
    let mut k: usize = 0;
    while k < n
        invariant
            k <= n <= 64,
            start + n <= bytes.len(),
            bytes@ == with_lsbs(old(bytes)@, start as int, value as nat, k as nat),
        decreases n - k,
    {
        let digit: u64 = (value >> k) & 1;
        proof {
            lemma_u64_shr_is_div(value, k as u64);
            let shifted = value >> k;
            assert(shifted & 1 == shifted % 2) by (bit_vector);
        }
        let stored: u8 = set_lsb(bytes[start + k], digit as u8);
        bytes.set(start + k, stored);
        k += 1;
    }
}

/// Reads the low bits of `bytes[start]` to `bytes[start + n - 1]` as the
/// binary digits of a number, least significant digit first.
pub fn read_bits(bytes: &Vec<u8>, start: usize, n: usize) -> (value: u64)
    requires
        n <= 64,
        start + n <= bytes.len(),
    ensures
        value == lsb_value(bytes@, start as int, n as nat),
        value < pow2(n as nat),
{
    let mut value: u64 = 0;
    let mut k: usize = 0;
    proof {
        lemma2_to64();
    }
    while k < n
        invariant
            k <= n <= 64,
            start + n <= bytes.len(),
            value == lsb_value(bytes@, start as int, k as nat),
            value < pow2(k as nat),
        decreases n - k,
    {
        let bit: u64 = (bytes[start + k] & 1) as u64;
        proof {
            let b = bytes[start + k as int];
            lemma_lsb(b);
            lemma_pow2_unfold((k + 1) as nat);
            lemma_or_is_plus(value, bit, k as u64);
        }
        value = value | (bit << k);
        k += 1;
    }
    value
}

} // verus!
