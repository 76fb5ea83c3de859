//! Position of the most and of the least significant set bit of a word.
use vstd::prelude::*;
use vstd::arithmetic::power2::*;
use vstd::arithmetic::div_mod::*;
use crate::uint::{U256, and_nat, xor_nat, lemma_word_modulus, word_modulus};

verus! {

/// The index of the most significant set bit of a positive number
/// (`floor(log2(x))`); 0 for 0 and 1.
pub open spec fn floor_log2(x: nat) -> nat
    decreases x,
{
    if x < 2 {
        0
    } else {
        1 + floor_log2(x / 2)
    }
}

/// The index of the least significant set bit of a positive number (the
/// number of trailing zero bits); 0 for 0.
pub open spec fn lowest_set_bit(x: nat) -> nat
    decreases x,
{
    if x == 0 || x % 2 == 1 {
        0
    } else {
        1 + lowest_set_bit(x / 2)
    }
}

/// `floor_log2` is the unique `r` with `2^r <= x < 2^(r+1)`.
pub proof fn lemma_floor_log2_bounds(x: nat)
    requires
        x >= 1,
    ensures
        pow2(floor_log2(x)) <= x < pow2(floor_log2(x) + 1),
    decreases x,
{
    lemma2_to64();
    if x >= 2 {
        lemma_floor_log2_bounds(x / 2);
        lemma_pow2_unfold(floor_log2(x));
        lemma_pow2_unfold(floor_log2(x) + 1);
    }
}

/// Dividing by `2^k` lowers `floor_log2` by `k` while the quotient stays
/// positive.
pub proof fn lemma_floor_log2_shift(x: nat, k: nat)
    requires
        x >= pow2(k),
    ensures
        x / pow2(k) >= 1,
        floor_log2(x) == k + floor_log2(x / pow2(k)),
    decreases k,
{
    lemma_pow2_pos(k);
    if k == 0 {
        lemma2_to64();
    } else {
        lemma_pow2_unfold(k);
        let p = pow2((k - 1) as nat);
        lemma_pow2_pos((k - 1) as nat);
        assert(x >= 2);
        assert(x / 2 >= p) by {
            lemma_div_is_ordered((2 * p) as int, x as int, 2);
            lemma_div_multiples_vanish(p as int, 2);
        }
        lemma_floor_log2_shift(x / 2, (k - 1) as nat);
        lemma_div_denominator(x as int, 2, p as int);
    }
}

/// A number below `2^k` has `floor_log2` below `k`.
pub proof fn lemma_floor_log2_below(x: nat, k: nat)
    requires
        x < pow2(k),
        k >= 1,
    ensures
        floor_log2(x) < k,
{
    if x >= 1 {
        lemma_floor_log2_bounds(x);
        if floor_log2(x) >= k {
            if floor_log2(x) > k {
                lemma_pow2_strictly_increases(k, floor_log2(x));
            }
        }
    }
}

/// Masking with `2^k - 1` keeps the low `k` bits: it is the remainder by `2^k`.
pub proof fn lemma_and_low_mask(a: nat, k: nat)
    ensures
        and_nat(a, (pow2(k) - 1) as nat) == a % pow2(k),
    decreases k,
{
    lemma_pow2_pos(k);
    if k == 0 {
        lemma2_to64();
    } else {
        lemma_pow2_unfold(k);
        let p = pow2((k - 1) as nat);
        lemma_pow2_pos((k - 1) as nat);
        let m = (pow2(k) - 1) as nat;
        assert(m % 2 == 1 && m / 2 == p - 1);
        if a != 0 {
            lemma_and_low_mask(a / 2, (k - 1) as nat);
            lemma_mod_breakdown(a as int, 2, p as int);
        }
    }
}

/// The least significant set bit lies below `k` exactly when some of the low
/// `k` bits is set.
pub proof fn lemma_lowest_set_bit_low(x: nat, k: nat)
    requires
        x % pow2(k) != 0,
    ensures
        lowest_set_bit(x) < k,
    decreases k,
{
    lemma_pow2_pos(k);
    if k == 0 {
        lemma2_to64();
    } else if x % 2 == 0 {
        lemma_pow2_unfold(k);
        let p = pow2((k - 1) as nat);
        lemma_pow2_pos((k - 1) as nat);
        lemma_mod_breakdown(x as int, 2, p as int);
        lemma_lowest_set_bit_low(x / 2, (k - 1) as nat);
    }
}

/// When the low `k` bits are all clear, shifting them out lowers the index of
/// the least significant set bit by `k`.
pub proof fn lemma_lowest_set_bit_shift(x: nat, k: nat)
    requires
        x > 0,
        x % pow2(k) == 0,
    ensures
        x / pow2(k) > 0,
        lowest_set_bit(x) == k + lowest_set_bit(x / pow2(k)),
    decreases k,
{
    lemma_pow2_pos(k);
    if k == 0 {
        lemma2_to64();
    } else {
        lemma_pow2_unfold(k);
        let p = pow2((k - 1) as nat);
        lemma_pow2_pos((k - 1) as nat);
        lemma_mod_breakdown(x as int, 2, p as int);
        assert(x % 2 == 0 && (x / 2) % p == 0) by {
            lemma_mod_bound(x as int, 2);
            lemma_mod_bound((x / 2) as int, p as int);
        }
        assert(x / 2 > 0);
        lemma_lowest_set_bit_shift(x / 2, (k - 1) as nat);
        lemma_div_denominator(x as int, 2, p as int);
    }
}

/// Masking a number below `2^n` with `2^n - 2^k` clears its low `k` bits.
pub proof fn lemma_and_high_mask(a: nat, k: nat, n: nat)
    requires
        k <= n,
        a < pow2(n),
    ensures
        and_nat(a, (pow2(n) - pow2(k)) as nat) == a - a % pow2(k),
    decreases k,
{
    lemma_pow2_pos(k);
    lemma_pow2_pos(n);
    if k == 0 {
        lemma2_to64();
        lemma_and_low_mask(a, n);
        lemma_small_mod(a, pow2(n));
    } else if k == n {
        lemma_small_mod(a, pow2(n));
    } else {
        lemma_pow2_unfold(k);
        lemma_pow2_unfold(n);
        let pk = pow2((k - 1) as nat);
        let pn = pow2((n - 1) as nat);
        lemma_pow2_strictly_increases(k, n);
        let m = (pow2(n) - pow2(k)) as nat;
        assert(m % 2 == 0 && m / 2 == pn - pk);
        if a != 0 {
            lemma_and_high_mask(a / 2, (k - 1) as nat, (n - 1) as nat);
            lemma_mod_breakdown(a as int, 2, pk as int);
            lemma_fundamental_div_mod(a as int, 2);
        }
    }
}

/// When the low `k` bits of a positive number are clear, its least
/// significant set bit is at index `k` or above.
pub proof fn lemma_lowest_set_bit_at_least(x: nat, k: nat)
    requires
        x > 0,
        x % pow2(k) == 0,
    ensures
        lowest_set_bit(x) >= k,
{
    lemma_lowest_set_bit_shift(x, k);
}

/// Bit `i` of `x`.
pub open spec fn bit_of(x: nat, i: nat) -> bool {
    (x / pow2(i)) % 2 == 1
}

/// Bit `i + 1` of `x` is bit `i` of `x / 2`.
pub proof fn lemma_bit_of_step(x: nat, i: nat)
    ensures
        bit_of(x, i + 1) == bit_of(x / 2, i),
        bit_of(x, 0) == (x % 2 == 1),
{
    lemma2_to64();
    lemma_pow2_unfold(i + 1);
    lemma_pow2_pos(i);
    lemma_div_denominator(x as int, 2, pow2(i) as int);
}

/// Bit `i` of a power of two `2^b` is set exactly when `i == b`.
pub proof fn lemma_bit_of_pow2(b: nat, i: nat)
    ensures
        bit_of(pow2(b), i) == (i == b),
    decreases i,
{
    lemma2_to64();
    if i == 0 {
        lemma_bit_of_step(pow2(b), 0);
        if b > 0 {
            lemma_pow2_unfold(b);
        }
    } else {
        lemma_bit_of_step(pow2(b), (i - 1) as nat);
        if b > 0 {
            lemma_pow2_unfold(b);
            lemma_bit_of_pow2((b - 1) as nat, (i - 1) as nat);
        } else {
            assert(pow2(0) / 2 == 0);
            lemma_pow2_pos((i - 1) as nat);
            lemma_div_of0(pow2((i - 1) as nat) as int);
        }
    }
}

/// Bit `i` of zero is clear.
pub proof fn lemma_bit_of_zero(i: nat)
    ensures
        !bit_of(0, i),
{
    lemma_pow2_pos(i);
    lemma_div_of0(pow2(i) as int);
}

/// Bits of an exclusive OR are the exclusive OR of the bits.
pub proof fn lemma_bit_of_xor(a: nat, c: nat, i: nat)
    ensures
        bit_of(xor_nat(a, c), i) == (bit_of(a, i) != bit_of(c, i)),
    decreases i,
{
    if a == 0 {
        lemma_bit_of_zero(i);
    } else if c == 0 {
        lemma_bit_of_zero(i);
    } else {
        let d: nat = if a % 2 != c % 2 { 1 } else { 0 };
        let x = xor_nat(a, c);
        assert(x == d + 2 * xor_nat(a / 2, c / 2));
        assert(x / 2 == xor_nat(a / 2, c / 2) && x % 2 == d);
        if i == 0 {
            lemma_bit_of_step(x, 0);
            lemma_bit_of_step(a, 0);
            lemma_bit_of_step(c, 0);
        } else {
            let j = (i - 1) as nat;
            lemma_bit_of_step(x, j);
            lemma_bit_of_step(a, j);
            lemma_bit_of_step(c, j);
            lemma_bit_of_xor(a / 2, c / 2, j);
        }
    }
}

/// Exclusive OR with a number is undone by a second exclusive OR with it.
pub proof fn lemma_xor_twice(a: nat, c: nat)
    ensures
        xor_nat(xor_nat(a, c), c) == a,
    decreases a + c,
{
    if a == 0 {
        lemma_xor_self(c);
    } else if c == 0 {
    } else {
        let d: nat = if a % 2 != c % 2 { 1 } else { 0 };
        let x = xor_nat(a, c);
        assert(x == d + 2 * xor_nat(a / 2, c / 2));
        assert(x / 2 == xor_nat(a / 2, c / 2) && x % 2 == d);
        lemma_xor_twice(a / 2, c / 2);
        if x == 0 {
            assert(xor_nat(0, c / 2) == c / 2);
            assert(a == c);
        }
    }
}

/// A number exclusive-ORed with itself is zero.
pub proof fn lemma_xor_self(c: nat)
    ensures
        xor_nat(c, c) == 0,
    decreases c,
{
    if c != 0 {
        lemma_xor_self(c / 2);
    }
}

/// Below bit `k`, a number and its remainder by `2^k` have the same bits.
pub proof fn lemma_bit_of_mod(x: nat, k: nat, j: nat)
    requires
        j < k,
    ensures
        bit_of(x % pow2(k), j) == bit_of(x, j),
    decreases j,
{
    lemma_pow2_unfold(k);
    let p = pow2((k - 1) as nat);
    lemma_pow2_pos((k - 1) as nat);
    lemma_mod_breakdown(x as int, 2, p as int);
    lemma_mod_bound((x / 2) as int, p as int);
    let y = x % pow2(k);
    assert(y == 2 * ((x / 2) % p) + x % 2);
    lemma_bit_of_step(y, 0);
    lemma_bit_of_step(x, 0);
    if j > 0 {
        lemma_bit_of_step(y, (j - 1) as nat);
        lemma_bit_of_step(x, (j - 1) as nat);
        assert(y / 2 == (x / 2) % p);
        lemma_bit_of_mod(x / 2, (k - 1) as nat, (j - 1) as nat);
    }
}

/// A number below `2^j` has bit `j` clear.
pub proof fn lemma_bit_of_small(x: nat, j: nat)
    requires
        x < pow2(j),
    ensures
        !bit_of(x, j),
{
    lemma_pow2_pos(j);
    lemma_div_of0(pow2(j) as int);
    vstd::arithmetic::div_mod::lemma_basic_div(x as int, pow2(j) as int);
}

/// The most significant set bit of a positive number is set, and every
/// higher bit is clear.
pub proof fn lemma_bit_of_floor_log2(x: nat, j: nat)
    requires
        x >= 1,
    ensures
        bit_of(x, floor_log2(x)),
        j > floor_log2(x) ==> !bit_of(x, j),
{
    let f = floor_log2(x);
    lemma_floor_log2_bounds(x);
    lemma_pow2_unfold(f + 1);
    lemma_pow2_pos(f);
    assert(x / pow2(f) == 1) by {
        lemma_div_is_ordered(pow2(f) as int, x as int, pow2(f) as int);
        lemma_div_by_self(pow2(f) as int);
        lemma_multiply_divide_lt(x as int, pow2(f) as int, 2);
    }
    if j > f {
        if j > f + 1 {
            lemma_pow2_strictly_increases(f + 1, j);
        }
        lemma_bit_of_small(x, j);
    }
}

/// The least significant set bit of a positive number is set, and every
/// lower bit is clear.
pub proof fn lemma_bit_of_lowest(x: nat, j: nat)
    requires
        x >= 1,
    ensures
        bit_of(x, lowest_set_bit(x)),
        j < lowest_set_bit(x) ==> !bit_of(x, j),
    decreases x,
{
    lemma_bit_of_step(x, 0);
    if x % 2 == 0 {
        let l = lowest_set_bit(x);
        assert(x / 2 >= 1);
        lemma_bit_of_step(x, (l - 1) as nat);
        if j > 0 {
            lemma_bit_of_step(x, (j - 1) as nat);
            lemma_bit_of_lowest(x / 2, (j - 1) as nat);
        } else {
            lemma_bit_of_lowest(x / 2, 0);
        }
    }
}

/// Bits of `q * 2^b`: clear below `b`, the bits of `q` from `b` on.
pub proof fn lemma_bit_of_shifted(q: nat, b: nat, j: nat)
    ensures
        bit_of(q * pow2(b), j) == (j >= b && bit_of(q, (j - b) as nat)),
    decreases b,
{
    lemma2_to64();
    if b == 0 {
        assert(q * 1 == q);
    } else {
        lemma_pow2_unfold(b);
        let y = q * pow2((b - 1) as nat);
        assert(q * pow2(b) == 2 * y) by (nonlinear_arith)
            requires
                pow2(b) == 2 * pow2((b - 1) as nat),
                y == q * pow2((b - 1) as nat),
        ;
        lemma_bit_of_step(2 * y, 0);
        if j > 0 {
            lemma_bit_of_step(2 * y, (j - 1) as nat);
            lemma_bit_of_shifted(q, (b - 1) as nat, (j - 1) as nat);
        }
    }
}

/// From bit `b` on, the bits of `x` are those of `x / 2^b`.
pub proof fn lemma_bit_of_quotient(x: nat, b: nat, j: nat)
    requires
        j >= b,
    ensures
        bit_of(x / pow2(b), (j - b) as nat) == bit_of(x, j),
{
    lemma_pow2_pos(b);
    lemma_pow2_pos((j - b) as nat);
    lemma_pow2_adds(b, (j - b) as nat);
    lemma_div_denominator(x as int, pow2(b) as int, pow2((j - b) as nat) as int);
}

/// Clearing the low `b` bits: `x - x mod 2^b` has bit `j` set exactly when
/// `j >= b` and `x` has it.
pub proof fn lemma_bit_of_high_part(x: nat, b: nat, j: nat)
    ensures
        bit_of((x - x % pow2(b)) as nat, j) == (j >= b && bit_of(x, j)),
{
    lemma_pow2_pos(b);
    lemma_fundamental_div_mod(x as int, pow2(b) as int);
    let q = x / pow2(b);
    let r = x % pow2(b);
    let p = pow2(b);
    assert(x - r == q * p) by (nonlinear_arith)
        requires
            x == p * q + r,
    ;
    lemma_bit_of_shifted(q, b, j);
    if j >= b {
        lemma_bit_of_quotient(x, b, j);
    }
}

/// Index of the most significant set bit of `x`; `Err("ZeroValue")` for zero.
pub fn most_significant_bit(x: U256) -> (r: Result<u8, &'static str>)
    ensures
        x@ == 0 ==> r == Err::<u8, &'static str>("ZeroValue"),
        x@ != 0 ==> r == Ok::<u8, &'static str>(floor_log2(x@) as u8) && floor_log2(x@) < 256,
{
    proof {
        x.lemma_bounded();
        lemma_word_modulus();
    }
    let ghost orig = x@;
    let mut x = x;
    let mut r: u8 = 0;
    if x.is_zero() {
        return Err("ZeroValue");
    }
    let mut k: usize = 128;
    let mut half = U256::from_limbs([0, 0, 1, 0]);
    assert(pow2(256) == pow2(128) * pow2(128)) by { lemma_pow2_adds(128, 128); }
    // Each halving step: the word is below 2^(2k); test it against 2^k.
    while k > 0
        invariant
            k == 128 || k == 64 || k == 32 || k == 16 || k == 8 || k == 4 || k == 2 || k == 1
                || k == 0,
            k > 0 ==> half@ == pow2(k as nat) && x@ < pow2(k as nat) * pow2(k as nat),
            k == 0 ==> x@ < 2,
            1 <= x@,
            r as nat + 2 * k <= 256,
            floor_log2(orig) == r + floor_log2(x@),
        decreases k,
    {
        if !x.less_than(half) {
            proof {
                lemma_floor_log2_shift(x@, k as nat);
                lemma_pow2_pos(k as nat);
                lemma_multiply_divide_lt(x@ as int, pow2(k as nat) as int, pow2(k as nat) as int);
            }
            x = x.shr(k);
            r = r + k as u8;
        }
        let next = k / 2;
        if next > 0 {
            proof {
                lemma_pow2_adds(next as nat, next as nat);
            }
            half = half.shr(next);
            proof {
                lemma_pow2_adds(next as nat, next as nat);
                lemma_pow2_pos(next as nat);
                lemma_div_multiples_vanish(pow2(next as nat) as int, pow2(next as nat) as int);
            }
        } else {
            proof {
                lemma2_to64();
                assert(x@ < 2);
            }
        }
        k = next;
    }
    proof {
        lemma2_to64();
        assert(x@ == 1);
        assert(floor_log2(orig) == r);
    }
    Ok(r)
}

/// Index of the least significant set bit of `x`; `Err("ZeroValue")` for zero.
pub fn least_significant_bit(x: U256) -> (r: Result<u8, &'static str>)
    ensures
        x@ == 0 ==> r == Err::<u8, &'static str>("ZeroValue"),
        x@ != 0 ==> r == Ok::<u8, &'static str>(lowest_set_bit(x@) as u8) && lowest_set_bit(x@)
            < 256,
{
    proof {
        x.lemma_bounded();
        lemma_word_modulus();
    }
    let ghost orig = x@;
    let mut x = x;
    if x.is_zero() {
        return Err("ZeroValue");
    }
    let mut r: u8 = 255;
    let ghost mut consumed: nat = 0;
    let zero = U256::zero();
    let one = U256::one();
    let mut k: usize = 128;
    proof {
        lemma_lowest_set_bit_low(x@, 256);
        lemma_small_mod(x@, pow2(256));
    }
    // Each step: either some of the low k bits is set, or they are shifted out.
    while k > 0
        invariant
            k == 128 || k == 64 || k == 32 || k == 16 || k == 8 || k == 4 || k == 2 || k == 1
                || k == 0,
            zero@ == 0,
            one@ == 1,
            0 < x@ < word_modulus(),
            lowest_set_bit(orig) == consumed + lowest_set_bit(x@),
            k > 0 ==> lowest_set_bit(x@) < 2 * k && r as nat == consumed + 2 * k - 1,
            k == 0 ==> lowest_set_bit(x@) == 0 && r as nat == consumed,
        decreases k,
    {
        proof {
            lemma_word_modulus();
            lemma_pow2_strictly_increases(k as nat, 256);
            lemma_pow2_pos(k as nat);
            lemma_small_mod(pow2(k as nat), pow2(256));
        }
        let mask = one.shl(k).wrapping_sub(one);
        let masked = x.bitand(mask);
        proof {
            lemma_and_low_mask(x@, k as nat);
        }
        if zero.less_than(masked) {
            proof {
                lemma_lowest_set_bit_low(x@, k as nat);
            }
            r = r - k as u8;
        } else {
            proof {
                lemma_lowest_set_bit_shift(x@, k as nat);
                lemma_div_is_ordered(0, x@ as int, pow2(k as nat) as int);
                lemma_div_nonincreasing(x@ as int, pow2(k as nat) as int);
            }
            x = x.shr(k);
            proof {
                consumed = consumed + k as nat;
            }
        }
        k = k / 2;
    }
    Ok(r)
}

/// Convenience operations on words.
pub trait U256Extension: Sized {
    /// Whether the word is zero.
    fn is_zero(&self) -> bool;

    /// The word zero.
    fn zero() -> Self;

    /// The word one.
    fn one() -> Self;
}

impl U256Extension for U256 {
    fn is_zero(&self) -> (r: bool)
        ensures
            r == (self@ == 0),
    {
        self.equals(U256::zero())
    }

    fn zero() -> (r: U256)
        ensures
            r@ == 0,
    {
        U256::from_limbs([0, 0, 0, 0])
    }

    fn one() -> (r: U256)
        ensures
            r@ == 1,
    {
        U256::from_limbs([1, 0, 0, 0])
    }
}

} // verus!
