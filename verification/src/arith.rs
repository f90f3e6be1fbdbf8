//! Alignment rounding and power-of-two exponent search: the two arithmetic
//! primitives that the layout engine is built on.

use vstd::arithmetic::div_mod::lemma_fundamental_div_mod;
use vstd::arithmetic::div_mod::lemma_mod_multiples_basic;
use vstd::arithmetic::power2::lemma2_to64;
use vstd::arithmetic::power2::lemma_pow2_strictly_increases;
use vstd::arithmetic::power2::lemma_pow2_unfold;
use vstd::arithmetic::power2::pow2;
use vstd::prelude::*;

verus! {

/// The smallest exponent `q` with `p <= q` and `pow2(q) >= n`, capped at 64.
pub open spec fn pow2_exponent_from(n: nat, p: nat) -> nat
    decreases 64 - p,
{
    if p >= 64 {
        64
    } else if pow2(p) >= n {
        p
    } else {
        pow2_exponent_from(n, p + 1)
    }
}

/// The smallest exponent `p` with `pow2(p) >= n`, capped at 64.
pub open spec fn spec_pow2_exponent(n: nat) -> nat {
    pow2_exponent_from(n, 0)
}

proof fn lemma_pow2_exponent_from(n: nat, p: nat)
    requires
        p <= 64,
    ensures
        p <= pow2_exponent_from(n, p) <= 64,
        pow2_exponent_from(n, p) < 64 ==> pow2(pow2_exponent_from(n, p)) >= n,
        forall|q: nat| p <= q < pow2_exponent_from(n, p) ==> pow2(q) < n,
    decreases 64 - p,
{
    if p < 64 && pow2(p) < n {
        lemma_pow2_exponent_from(n, p + 1);
    }
}

/// The exponent chosen for `n` is at most 64; `pow2` of it reaches `n`
/// whenever it is below the cap (and also at the cap, for any `n` that fits
/// in 64 bits); and it is minimal: every smaller exponent falls short of `n`.
pub proof fn lemma_pow2_exponent(n: nat)
    ensures
        spec_pow2_exponent(n) <= 64,
        spec_pow2_exponent(n) < 64 ==> pow2(spec_pow2_exponent(n)) >= n,
        n <= u64::MAX ==> pow2(spec_pow2_exponent(n)) >= n,
        forall|q: nat| q < spec_pow2_exponent(n) ==> pow2(q) < n,
{
    lemma_pow2_exponent_from(n, 0);
    if spec_pow2_exponent(n) == 64 {
        lemma2_to64();
    }
}

/// The smallest power `p` (capped at 64) such that `2^p >= num_bits`; the
/// number of bits needed to index the bits of a `num_bits`-wide value, or
/// equivalently the rounding of `num_bits` up to a power of two, in exponent
/// form.
pub fn power_of_2_greater_than(num_bits: u64) -> (power: u64)
    ensures
        power == spec_pow2_exponent(num_bits as nat),
{
    let mut power: u64 = 0;
    let mut cap: u64 = 1;
    proof {
        lemma2_to64();
    }
    while power < 64 && cap < num_bits
        invariant
            power <= 64,
            power < 64 ==> cap == pow2(power as nat),
            spec_pow2_exponent(num_bits as nat) == pow2_exponent_from(
                num_bits as nat,
                power as nat,
            ),
        decreases 64 - power,
    {
        power = power + 1;
        if power < 64 {
            proof {
                lemma_pow2_unfold(power as nat);
                lemma_pow2_strictly_increases(power as nat, 64);
                lemma2_to64();
            }
            cap = cap * 2;
        }
    }
    power
}

/// `size` rounded up to the nearest multiple of `align`; an alignment of 0
/// imposes no requirement and leaves `size` unchanged.
pub open spec fn spec_align_to(size: nat, align: nat) -> nat {
    if align == 0 {
        size
    } else if size % align == 0 {
        size
    } else {
        (size + (align - size % align)) as nat
    }
}

/// Rounding up never shrinks a size, whatever the alignment.
pub proof fn lemma_align_to_ge(size: nat, align: nat)
    ensures
        spec_align_to(size, align) >= size,
{
}

/// Rounding up to a positive alignment lands on a multiple of the alignment
/// and adds strictly less than one alignment unit of padding.
pub proof fn lemma_align_to_properties(size: nat, align: nat)
    requires
        align > 0,
    ensures
        spec_align_to(size, align) >= size,
        spec_align_to(size, align) % align == 0,
        spec_align_to(size, align) - size < align,
{
    let m = size % align;
    if m == 0 {
        assert(spec_align_to(size, align) == size);
    } else {
        lemma_fundamental_div_mod(size as int, align as int);
        let d = size as int / align as int;
        assert((d + 1) * align == d * align + align) by (nonlinear_arith);
        assert(spec_align_to(size, align) == (d + 1) * align);
        lemma_mod_multiples_basic(d + 1, align as int);
    }
}

/// Rounds `size` up to the next multiple of `align`, treating an alignment
/// of 0 as "no alignment requirement".
pub fn align_to(size: u64, align: u64) -> (aligned: u64)
    requires
        spec_align_to(size as nat, align as nat) <= u64::MAX,
    ensures
        aligned == spec_align_to(size as nat, align as nat),
{
    if align == 0 {
        size
    } else {
        let rem: u64 = size % align;
        if rem == 0 {
            size
        } else {
            size + (align - rem)
        }
    }
}

} // verus!
