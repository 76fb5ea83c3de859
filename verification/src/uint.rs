//! A 256-bit unsigned word held as four little-endian 64-bit limbs.
//!
//! Arithmetic is carried out by `alloy_primitives::U256`; each call goes
//! through a small trusted wrapper whose contract states the result over the
//! word's numeric value.
use vstd::prelude::*;
use vstd::arithmetic::power2::*;
use vstd::arithmetic::power::pow;

verus! {

/// 2^64 as a mathematical integer.
pub open spec fn two_pow_64() -> nat {
    0x1_0000_0000_0000_0000nat
}

/// 2^128 as a mathematical integer.
pub open spec fn two_pow_128() -> nat {
    0x1_0000_0000_0000_0000_0000_0000_0000_0000nat
}

/// 2^192 as a mathematical integer.
pub open spec fn two_pow_192() -> nat {
    0x1_0000_0000_0000_0000_0000_0000_0000_0000_0000_0000_0000_0000nat
}

/// 2^256, the number of distinct 256-bit words.
pub open spec fn word_modulus() -> nat {
    0x1_0000_0000_0000_0000_0000_0000_0000_0000_0000_0000_0000_0000_0000_0000_0000_0000nat
}

/// The number denoted by four little-endian 64-bit limbs.
pub open spec fn limbs_value(l: Seq<u64>) -> nat {
    (l[0] as nat) + (l[1] as nat) * two_pow_64() + (l[2] as nat) * two_pow_128() + (l[3] as nat)
        * two_pow_192()
}

/// Bitwise AND of two naturals, bit by bit from the least significant end.
pub open spec fn and_nat(a: nat, b: nat) -> nat
    decreases a,
{
    if a == 0 || b == 0 {
        0
    } else {
        (if a % 2 == 1 && b % 2 == 1 { 1nat } else { 0nat }) + 2 * and_nat(a / 2, b / 2)
    }
}

/// Bitwise exclusive OR of two naturals.
pub open spec fn xor_nat(a: nat, b: nat) -> nat
    decreases a + b,
{
    if a == 0 {
        b
    } else if b == 0 {
        a
    } else {
        (if a % 2 != b % 2 { 1nat } else { 0nat }) + 2 * xor_nat(a / 2, b / 2)
    }
}

/// The number denoted by a big-endian byte string.
pub open spec fn be_value(s: Seq<u8>) -> nat
    decreases s.len(),
{
    if s.len() == 0 {
        0
    } else {
        be_value(s.drop_last()) * 256 + s.last() as nat
    }
}

/// A 256-bit unsigned integer; its view is the number it denotes.
#[derive(Clone, Copy, Debug, PartialEq, Eq)]
pub struct U256 {
    pub limbs: [u64; 4],
}

impl View for U256 {
    type V = nat;

    open spec fn view(&self) -> nat {
        limbs_value(self.limbs@)
    }
}

/// `pow2(256)` and the literal modulus agree.
pub proof fn lemma_word_modulus()
    ensures
        pow2(256) == word_modulus(),
        pow2(128) == two_pow_128(),
        pow2(64) == two_pow_64(),
{
    lemma2_to64();
    lemma_pow2_adds(64, 64);
    lemma_pow2_adds(128, 128);
    assert(pow2(128) == two_pow_128());
    assert(two_pow_128() * two_pow_128() == word_modulus()) by (nonlinear_arith);
}

impl U256 {
    /// Every word denotes a number below 2^256.
    pub proof fn lemma_bounded(self)
        ensures
            self@ < word_modulus(),
    {
        assert(self.limbs@.len() == 4);
        let l0 = self.limbs@[0] as nat;
        let l1 = self.limbs@[1] as nat;
        let l2 = self.limbs@[2] as nat;
        let l3 = self.limbs@[3] as nat;
        assert(l1 * two_pow_64() <= (two_pow_64() - 1) * two_pow_64()) by (nonlinear_arith)
            requires l1 < two_pow_64();
        assert(l2 * two_pow_128() <= (two_pow_64() - 1) * two_pow_128()) by (nonlinear_arith)
            requires l2 < two_pow_64();
        assert(l3 * two_pow_192() <= (two_pow_64() - 1) * two_pow_192()) by (nonlinear_arith)
            requires l3 < two_pow_64();
    }

    /// The word with the given little-endian limbs.
    pub fn from_limbs(limbs: [u64; 4]) -> (r: U256)
        ensures
            r@ == limbs_value(limbs@),
    {
        U256 { limbs }
    }

    /// The word holding `v`.
    pub fn from_u128(v: u128) -> (r: U256)
        ensures
            r@ == v,
    {
        let lo = v as u64;
        let hi = (v >> 64u32) as u64;
        assert(lo + hi * 0x1_0000_0000_0000_0000u128 == v) by (bit_vector)
            requires
                lo == v as u64,
                hi == (v >> 64u32) as u64,
        ;
        U256 { limbs: [lo, hi, 0, 0] }
    }
    /// Sum modulo 2^256, by `alloy_primitives::U256`'s `+` (a wrapping add).
    #[verifier::external_body]
    pub(crate) fn wrapping_add(self, other: U256) -> (r: U256)
        ensures
            r@ == (self@ + other@) % word_modulus(),
    {
        let a = alloy_primitives::U256::from_limbs(self.limbs);
        let b = alloy_primitives::U256::from_limbs(other.limbs);
        U256 { limbs: (a + b).into_limbs() }
    }

    /// Difference modulo 2^256, by `alloy_primitives::U256`'s `-` (a wrapping subtract).
    #[verifier::external_body]
    pub(crate) fn wrapping_sub(self, other: U256) -> (r: U256)
        ensures
            r@ == (if self@ >= other@ { self@ - other@ } else { self@ + word_modulus() - other@ }),
    {
        let a = alloy_primitives::U256::from_limbs(self.limbs);
        let b = alloy_primitives::U256::from_limbs(other.limbs);
        U256 { limbs: (a - b).into_limbs() }
    }

    /// Product modulo 2^256, by `alloy_primitives::U256`'s `*` (a wrapping multiply).
    #[verifier::external_body]
    pub(crate) fn wrapping_mul(self, other: U256) -> (r: U256)
        ensures
            r@ == (self@ * other@) % word_modulus(),
    {
        let a = alloy_primitives::U256::from_limbs(self.limbs);
        let b = alloy_primitives::U256::from_limbs(other.limbs);
        U256 { limbs: (a * b).into_limbs() }
    }

    /// Power modulo 2^256, by `alloy_primitives::U256::pow` (documented as
    /// wrapping around on overflow).
    #[verifier::external_body]
    pub(crate) fn wrapping_pow(self, exp: U256) -> (r: U256)
        ensures
            r@ as int == pow(self@ as int, exp@) % (word_modulus() as int),
    {
        let a = alloy_primitives::U256::from_limbs(self.limbs);
        let e = alloy_primitives::U256::from_limbs(exp.limbs);
        U256 { limbs: a.pow(e).into_limbs() }
    }

    /// Floor quotient, by `alloy_primitives::U256`'s `/`, which panics on a
    /// zero divisor.
    #[verifier::external_body]
    pub(crate) fn div(self, other: U256) -> (r: U256)
        requires
            other@ != 0,
        ensures
            r@ == self@ / other@,
    {
        let a = alloy_primitives::U256::from_limbs(self.limbs);
        let b = alloy_primitives::U256::from_limbs(other.limbs);
        U256 { limbs: (a / b).into_limbs() }
    }

    /// Remainder, by `alloy_primitives::U256`'s `%`, which panics on a zero
    /// divisor.
    #[verifier::external_body]
    pub(crate) fn rem(self, other: U256) -> (r: U256)
        requires
            other@ != 0,
        ensures
            r@ == self@ % other@,
    {
        let a = alloy_primitives::U256::from_limbs(self.limbs);
        let b = alloy_primitives::U256::from_limbs(other.limbs);
        U256 { limbs: (a % b).into_limbs() }
    }

    /// Left shift by `n` bits, by `alloy_primitives::U256`'s `<<`: the value
    /// times 2^n, modulo 2^256.
    #[verifier::external_body]
    pub(crate) fn shl(self, n: usize) -> (r: U256)
        ensures
            r@ == (self@ * pow2(n as nat)) % word_modulus(),
    {
        let a = alloy_primitives::U256::from_limbs(self.limbs);
        U256 { limbs: (a << n).into_limbs() }
    }

    /// Right shift by `n` bits, by `alloy_primitives::U256`'s `>>`: the floor
    /// of the value over 2^n.
    #[verifier::external_body]
    pub(crate) fn shr(self, n: usize) -> (r: U256)
        ensures
            r@ == self@ / pow2(n as nat),
    {
        let a = alloy_primitives::U256::from_limbs(self.limbs);
        U256 { limbs: (a >> n).into_limbs() }
    }

    /// Bitwise AND, by `alloy_primitives::U256`'s `&`.
    #[verifier::external_body]
    pub(crate) fn bitand(self, other: U256) -> (r: U256)
        ensures
            r@ == and_nat(self@, other@),
    {
        let a = alloy_primitives::U256::from_limbs(self.limbs);
        let b = alloy_primitives::U256::from_limbs(other.limbs);
        U256 { limbs: (a & b).into_limbs() }
    }

    /// Bitwise exclusive OR, by `alloy_primitives::U256`'s `^`.
    #[verifier::external_body]
    pub(crate) fn bitxor(self, other: U256) -> (r: U256)
        ensures
            r@ == xor_nat(self@, other@),
    {
        let a = alloy_primitives::U256::from_limbs(self.limbs);
        let b = alloy_primitives::U256::from_limbs(other.limbs);
        U256 { limbs: (a ^ b).into_limbs() }
    }

    /// Bitwise complement, by `alloy_primitives::U256`'s `!`: every one of the
    /// 256 bits flipped.
    #[verifier::external_body]
    pub(crate) fn bitnot(self) -> (r: U256)
        ensures
            r@ == word_modulus() - 1 - self@,
    {
        let a = alloy_primitives::U256::from_limbs(self.limbs);
        U256 { limbs: (!a).into_limbs() }
    }

    /// Numeric `<`, by `alloy_primitives::U256`'s ordering.
    #[verifier::external_body]
    pub(crate) fn less_than(self, other: U256) -> (r: bool)
        ensures
            r == (self@ < other@),
    {
        alloy_primitives::U256::from_limbs(self.limbs) < alloy_primitives::U256::from_limbs(
            other.limbs,
        )
    }

    /// Numeric equality, by `alloy_primitives::U256`'s `==`.
    #[verifier::external_body]
    pub(crate) fn equals(self, other: U256) -> (r: bool)
        ensures
            r == (self@ == other@),
    {
        alloy_primitives::U256::from_limbs(self.limbs) == alloy_primitives::U256::from_limbs(
            other.limbs,
        )
    }

    /// The value as a `u128`, by `alloy_primitives::U256::to`, which panics
    /// when the value does not fit.
    #[verifier::external_body]
    pub(crate) fn to_u128(self) -> (r: u128)
        requires
            self@ < two_pow_128(),
        ensures
            r == self@,
    {
        alloy_primitives::U256::from_limbs(self.limbs).to::<u128>()
    }

    /// The 32 big-endian bytes of the value, by
    /// `alloy_primitives::U256::to_be_bytes::<32>`.
    #[verifier::external_body]
    pub(crate) fn to_be_bytes(self) -> (r: [u8; 32])
        ensures
            be_value(r@) == self@,
    {
        alloy_primitives::U256::from_limbs(self.limbs).to_be_bytes::<32>()
    }

    /// The word whose 32 big-endian bytes are given, by
    /// `alloy_primitives::U256::from_be_bytes::<32>`.
    #[verifier::external_body]
    pub(crate) fn from_be_bytes(bytes: [u8; 32]) -> (r: U256)
        ensures
            r@ == be_value(bytes@),
    {
        U256 { limbs: alloy_primitives::U256::from_be_bytes::<32>(bytes).into_limbs() }
    }
}

} // verus!
