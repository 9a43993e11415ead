//! Alignment arithmetic: powers of two, their exponents, and padding.

use vstd::prelude::*;
use vstd::arithmetic::power2::{
    lemma2_to64,
    lemma2_to64_rest,
    lemma_pow2_pos,
    lemma_pow2_strictly_increases,
    lemma_pow2_unfold,
    pow2,
};

verus! {

/// `a` is a power of two that fits in 64 bits.
pub open spec fn is_align(a: u64) -> bool {
    exists|k: nat| k < 64 && pow2(k) == a
}

/// The exponent `k` with `2^k == a`, for an alignment `a`.
pub open spec fn align_exp_of(a: u64) -> nat {
    choose|k: nat| k < 64 && pow2(k) == a
}

/// The number of bytes that bring `offset` up to the next multiple of `2^exp`.
pub open spec fn pad_to(offset: int, exp: nat) -> int {
    let a = pow2(exp) as int;
    if offset % a == 0 {
        0
    } else {
        a - offset % a
    }
}

/// Two exponents with the same power of two are the same exponent.
pub proof fn lemma_pow2_injective(j: nat, k: nat)
    requires
        pow2(j) == pow2(k),
    ensures
        j == k,
{
    if j < k {
        lemma_pow2_strictly_increases(j, k);
    } else if k < j {
        lemma_pow2_strictly_increases(k, j);
    }
}

/// Every power of two below `2^64` is an alignment.
pub proof fn lemma_pow2_fits(k: nat)
    requires
        k < 64,
    ensures
        0 < pow2(k) <= 0x8000_0000_0000_0000,
{
    lemma_pow2_pos(k);
    if k < 63 {
        lemma_pow2_strictly_increases(k, 63);
    }
    lemma2_to64_rest();
}

/// The exponent of the alignment `2^k` is `k`.
pub proof fn lemma_align_exp_of_pow2(k: nat)
    requires
        k < 64,
    ensures
        is_align(pow2(k) as u64),
        align_exp_of(pow2(k) as u64) == k,
{
    lemma_pow2_fits(k);
    let a = pow2(k) as u64;
    assert(k < 64 && pow2(k) == a);
    let j = align_exp_of(a);
    lemma_pow2_injective(j, k);
}

/// The exponent of the alignment `1 << k` is `k`.
pub proof fn lemma_align_exp_of_shift(k: u64)
    requires
        k < 64,
    ensures
        is_align(1u64 << k),
        align_exp_of(1u64 << k) == k,
{
    lemma_pow2_fits(k as nat);
    vstd::bits::lemma_u64_shl_is_mul(1u64, k);
    lemma_align_exp_of_pow2(k as nat);
}

/// The padding after `offset` is shorter than the alignment and completes a multiple of it.
pub proof fn lemma_pad_to(offset: int, exp: nat)
    requires
        0 <= offset,
    ensures
        0 <= pad_to(offset, exp) < pow2(exp),
        (offset + pad_to(offset, exp)) % (pow2(exp) as int) == 0,
{
    lemma_pow2_pos(exp);
    let a = pow2(exp) as int;
    let p = pad_to(offset, exp);
    assert(0 <= p < a && (offset + p) % a == 0) by (nonlinear_arith)
        requires
            a > 0,
            offset >= 0,
            p == if offset % a == 0 {
                0
            } else {
                a - offset % a
            },
    ;
}

/// The base-2 logarithm of an alignment.
pub fn align_to_align_exp(align: u64) -> (exp: u64)
    requires
        is_align(align),
    ensures
        exp < 64,
        pow2(exp as nat) == align,
        exp == align_exp_of(align),
{
    let ghost k = align_exp_of(align);
    let mut exp: u64 = 0;
    let mut power: u64 = 1;
    proof {
        lemma2_to64();
        lemma_pow2_pos(k);
    }
    while power != align
        invariant
            k < 64,
            pow2(k) == align,
            exp <= k,
            power == pow2(exp as nat),
        decreases k - exp,
    {
        proof {
            if exp == k {
                assert(false);
            }
            lemma_pow2_unfold((exp + 1) as nat);
            if exp + 1 < k {
                lemma_pow2_strictly_increases((exp + 1) as nat, k);
            }
        }
        power = power * 2;
        exp = exp + 1;
    }
    proof {
        lemma_pow2_injective(exp as nat, k);
    }
    exp
}

/// `2^exp` as a machine integer.
pub fn pow2_u64(exp: u64) -> (power: u64)
    requires
        exp < 64,
    ensures
        power == pow2(exp as nat),
{
    let mut i: u64 = 0;
    let mut power: u64 = 1;
    proof {
        lemma2_to64();
    }
    while i < exp
        invariant
            i <= exp < 64,
            power == pow2(i as nat),
        decreases exp - i,
    {
        proof {
            lemma_pow2_unfold((i + 1) as nat);
            lemma_pow2_fits((i + 1) as nat);
        }
        power = power * 2;
        i = i + 1;
    }
    power
}

/// The padding that aligns `offset` to `2^exp`.
pub fn align_pad(offset: u64, exp: u64) -> (pad: u64)
    requires
        exp < 64,
    ensures
        pad == pad_to(offset as int, exp as nat),
{
    let a = pow2_u64(exp);
    proof {
        lemma_pow2_pos(exp as nat);
    }
    let rem = offset % a;
    if rem == 0 {
        0
    } else {
        a - rem
    }
}


/// Whether `align` is a power of two.
pub fn is_power_of_two(align: u64) -> (ok: bool)
    ensures
        ok == is_align(align),
{
    let mut exp: u64 = 0;
    let mut power: u64 = 1;
    proof {
        lemma2_to64();
    }
    while exp < 63
        invariant
            exp <= 63,
            power == pow2(exp as nat),
            forall|k: nat| k < exp ==> pow2(k) != align,
        decreases 63 - exp,
    {
        if power == align {
            assert(exp < 64 && pow2(exp as nat) == align);
            return true;
        }
        proof {
            lemma_pow2_unfold((exp + 1) as nat);
            lemma_pow2_fits((exp + 1) as nat);
        }
        power = power * 2;
        exp = exp + 1;
    }
    if power == align {
        assert(63 < 64 && pow2(63) == align);
        true
    } else {
        assert forall|k: nat| k < 64 implies pow2(k) != align by {
            if k == 63 {
            }
        }
        false
    }
}

} // verus!
