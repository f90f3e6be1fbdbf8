//! Primitive scalar kinds — fixed-width integers, floats and arbitrary-width
//! bit values — and their byte and bit sizes.

use crate::arith::lemma_pow2_exponent;
use crate::arith::power_of_2_greater_than;
use crate::arith::spec_pow2_exponent;
use vstd::arithmetic::power2::lemma2_to64;
use vstd::arithmetic::power2::lemma_pow2_adds;
use vstd::arithmetic::power2::lemma_pow2_strictly_increases;
use vstd::arithmetic::power2::pow2;
use vstd::prelude::*;

verus! {

/// Width of a fixed-width integer.
pub enum IntWidth {
    Int8,
    Int16,
    Int32,
    Int64,
}

impl IntWidth {
    /// Byte size of an integer of this width.
    pub open spec fn spec_sizeof(self) -> nat {
        match self {
            IntWidth::Int8 => 1,
            IntWidth::Int16 => 2,
            IntWidth::Int32 => 4,
            IntWidth::Int64 => 8,
        }
    }

    /// Byte size of an integer of this width: 1, 2, 4 or 8.
    pub fn sizeof(&self) -> (size: u64)
        ensures
            size == self.spec_sizeof(),
    {
        match self {
            IntWidth::Int8 => 1,
            IntWidth::Int16 => 2,
            IntWidth::Int32 => 4,
            IntWidth::Int64 => 8,
        }
    }
}

/// Signedness of an integer; carried for a future encode/decode layer, it
/// does not affect any size.
pub enum Sign {
    Signed,
    Unsigned,
}

/// Kind of an IEEE floating-point scalar.
pub enum Float {
    Float,
    Double,
}

impl Float {
    /// Byte size of a float of this kind.
    pub open spec fn spec_sizeof(self) -> nat {
        match self {
            Float::Float => 4,
            Float::Double => 8,
        }
    }

    /// Byte size of a float of this kind: 4 or 8.
    pub fn sizeof(&self) -> (size: u64)
        ensures
            size == self.spec_sizeof(),
    {
        match self {
            Float::Float => 4,
            Float::Double => 8,
        }
    }
}

/// A primitive scalar type: a fixed-width integer, a float, or an
/// arbitrary-width bit value of exactly `n` bits.
pub enum PrimType {
    Int(IntWidth, Sign),
    Flt(Float),
    Bits(u8),
}

/// The smallest power-of-two byte count whose bit capacity reaches `n` bits:
/// 1 byte for `n <= 8` (a bit value occupies at least one byte), and
/// `pow2(p - 3)` bytes otherwise, where `p` is the smallest exponent with
/// `pow2(p) >= n` — eight times that byte count is `pow2(p)`, which reaches
/// `n`.
pub open spec fn spec_bits_sizeof(n: nat) -> nat {
    if spec_pow2_exponent(n) <= 3 {
        1
    } else {
        pow2((spec_pow2_exponent(n) - 3) as nat)
    }
}

/// The byte size of a `Bits(n)` value is at least one byte, is a power of
/// two, holds at least `n` bits, and is minimal: half as many bytes would
/// hold fewer than `n` bits.
pub proof fn lemma_bits_sizeof(n: u8)
    ensures
        spec_bits_sizeof(n as nat) >= 1,
        exists|k: nat| spec_bits_sizeof(n as nat) == pow2(k),
        8 * spec_bits_sizeof(n as nat) >= n,
        spec_bits_sizeof(n as nat) > 1 ==> 4 * spec_bits_sizeof(n as nat) < n,
{
    let p = spec_pow2_exponent(n as nat);
    lemma_pow2_exponent(n as nat);
    lemma2_to64();
    if p <= 3 {
        assert(spec_bits_sizeof(n as nat) == pow2(0));
        if p < 3 {
            lemma_pow2_strictly_increases(p, 3);
        }
        assert(pow2(p) <= 8);
    } else {
        let b = (p - 3) as nat;
        assert(spec_bits_sizeof(n as nat) == pow2(b));
        lemma_pow2_adds(3, b);
        assert(8 * pow2(b) == pow2(p));
        lemma_pow2_adds(2, b);
        assert(4 * pow2(b) == pow2((p - 1) as nat));
        assert(pow2((p - 1) as nat) < n);
    }
}

impl PrimType {
    /// Byte size of the scalar. A `Bits(n)` value occupies the smallest
    /// power-of-two number of bytes that can hold `n` bits.
    pub open spec fn spec_sizeof(self) -> nat {
        match self {
            PrimType::Int(width, _) => width.spec_sizeof(),
            PrimType::Flt(float) => float.spec_sizeof(),
            PrimType::Bits(num_bits) => spec_bits_sizeof(num_bits as nat),
        }
    }

    /// Bit size of the scalar: exactly `n` for `Bits(n)`, and eight times the
    /// byte size for every other kind.
    pub open spec fn spec_size_bits(self) -> nat {
        match self {
            PrimType::Bits(num_bits) => num_bits as nat,
            _ => self.spec_sizeof() * 8,
        }
    }

    /// Byte size of the scalar.
    pub fn sizeof(&self) -> (size: u64)
        ensures
            size == self.spec_sizeof(),
    {
        match self {
            PrimType::Int(width, _) => width.sizeof(),
            PrimType::Flt(float) => float.sizeof(),
            PrimType::Bits(num_bits) => {
                let power = power_of_2_greater_than(*num_bits as u64);
                proof {
                    lemma_pow2_exponent(*num_bits as nat);
                    lemma2_to64();
                    // a u8 bit count is below pow2(8), so the minimal
                    // exponent is at most 8
                    assert(power <= 8) by {
                        if power > 8 {
                            assert(pow2(8) < *num_bits as nat);
                        }
                    }
                }
                if power <= 3 {
                    1
                } else if power == 4 {
                    2
                } else if power == 5 {
                    4
                } else if power == 6 {
                    8
                } else if power == 7 {
                    16
                } else {
                    32
                }
            },
        }
    }

    /// Bit size of the scalar.
    pub fn size_bits(&self) -> (bits: u64)
        ensures
            bits == self.spec_size_bits(),
    {
        match self {
            PrimType::Bits(num_bits) => *num_bits as u64,
            prim => prim.sizeof() * 8,
        }
    }
}

/// Every fixed-width primitive (anything but `Bits`) has a bit size of
/// exactly eight times its byte size.
pub proof fn lemma_prim_size_bits_eight_times(typ: PrimType)
    requires
        !(typ is Bits),
    ensures
        typ.spec_size_bits() == 8 * typ.spec_sizeof(),
{
}

/// Byte order of a primitive field; carried for a future encode/decode
/// layer, it does not affect any size.
pub enum Endianness {
    Little,
    Big,
}

/// A named scalar leaf of a layout tree.
pub struct PrimField {
    pub name: String,
    pub typ: PrimType,
    pub endianness: Endianness,
}

} // verus!
