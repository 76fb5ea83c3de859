//! A bitmap of initialized ticks: tick `t` owns bit `t mod 256` of the word
//! stored under `floor(t / 256)`.
use vstd::prelude::*;
use vstd::arithmetic::power2::*;
use vstd::arithmetic::div_mod::*;
use crate::uint::{U256, lemma_word_modulus, xor_nat};
use crate::bit_math::{
    lemma_bit_of_small,
    floor_log2, lowest_set_bit, most_significant_bit, least_significant_bit, lemma_and_low_mask,
    lemma_floor_log2_below, lemma_and_high_mask, lemma_lowest_set_bit_at_least, U256Extension,
    bit_of, lemma_bit_of_xor, lemma_bit_of_pow2, lemma_xor_twice, lemma_bit_of_mod,
    lemma_bit_of_floor_log2, lemma_bit_of_lowest, lemma_bit_of_high_part, lemma_bit_of_zero,
};
use crate::table::Table;

verus! {

/// Storage of the bitmap words, keyed by word position; a missing word is zero.
pub type TickBitmapStorage = Table<i16, U256>;

/// Tick bitmap operations.
pub struct TickBitmap;

/// The word stored at `w`, zero when none was ever stored.
pub open spec fn word_at(m: Map<i16, U256>, w: i16) -> nat {
    if m.contains_key(w) {
        m[w]@
    } else {
        0
    }
}

/// Word position of a tick: `floor(t / 256)`, truncated to 16 bits.
pub open spec fn word_pos_of(t: int) -> i16 {
    (t / 256) as i16
}

/// Bit position of a tick within its word: `t mod 256`.
pub open spec fn bit_pos_of(t: int) -> u8 {
    (t % 256) as u8
}

/// Rust's `/` on integers: the quotient rounded toward zero.
pub open spec fn trunc_div(x: int, d: int) -> int {
    if x == 0 {
        0
    } else if x > 0 && d > 0 {
        x / d
    } else if x < 0 && d < 0 {
        (x * -1) / (d * -1)
    } else if x < 0 {
        ((x * -1) / d) * -1
    } else {
        (x / (d * -1)) * -1
    }
}

/// Rust's `%` on integers: the remainder of `trunc_div`, with the sign of `x`.
pub open spec fn trunc_rem(x: int, d: int) -> int {
    if x == 0 {
        0
    } else if x > 0 && d > 0 {
        x % d
    } else if x < 0 && d < 0 {
        ((x * -1) % (d * -1)) * -1
    } else if x < 0 {
        ((x * -1) % d) * -1
    } else {
        x % (d * -1)
    }
}

/// The compressed tick as the bitmap computes it: the quotient of `tick` by
/// `spacing` rounded toward zero, one less for a negative tick that is not a
/// multiple of the spacing.
pub open spec fn compress(tick: int, spacing: int) -> int {
    if tick < 0 && trunc_rem(tick, spacing) != 0 {
        trunc_div(tick, spacing) - 1
    } else {
        trunc_div(tick, spacing)
    }
}

/// For a positive spacing the compressed tick is `floor(tick / spacing)`, and
/// a tick is a multiple of the spacing exactly when `%` leaves nothing.
pub proof fn lemma_compress_floor(tick: int, spacing: int)
    requires
        spacing > 0,
    ensures
        compress(tick, spacing) == tick / spacing,
        trunc_rem(tick, spacing) == 0 <==> tick % spacing == 0,
{
    if tick < 0 {
        let n = -tick;
        let k = n / spacing;
        let m = n % spacing;
        lemma_fundamental_div_mod(n, spacing);
        lemma_mod_bound(n, spacing);
        assert(trunc_div(tick, spacing) == -k && trunc_rem(tick, spacing) == -m);
        if m != 0 {
            assert(tick == (-k - 1) * spacing + (spacing - m)) by (nonlinear_arith)
                requires
                    n == spacing * k + m,
                    n == -tick,
            ;
            lemma_fundamental_div_mod_converse(tick, spacing, -k - 1, spacing - m);
        } else {
            assert(tick == (-k) * spacing + 0) by (nonlinear_arith)
                requires
                    n == spacing * k + m,
                    m == 0,
                    n == -tick,
            ;
            lemma_fundamental_div_mod_converse(tick, spacing, -k, 0);
        }
    } else if tick == 0 {
        lemma_fundamental_div_mod_converse(0, spacing, 0, 0);
    }
}

/// The quotient and remainder of a 32-bit tick by a nonzero divisor (other
/// than `i32::MIN` by -1) fit in 32 bits and recompose the tick.
proof fn lemma_trunc_div_rem(x: int, d: int)
    requires
        i32::MIN <= x <= i32::MAX,
        i32::MIN <= d <= i32::MAX,
        d != 0,
        !(x == i32::MIN && d == -1),
    ensures
        i32::MIN <= trunc_div(x, d) <= i32::MAX,
        i32::MIN <= trunc_rem(x, d) <= i32::MAX,
        trunc_div(x, d) * d + trunc_rem(x, d) == x,
{
    let a = if x < 0 { -x } else { x };
    let b = if d < 0 { -d } else { d };
    lemma_div_is_ordered_by_denominator(a, 1, b);
    lemma_fundamental_div_mod(a, b);
    lemma_mod_bound(a, b);
    assert(a / 1 == a);
    if b >= 2 {
        lemma_div_is_ordered_by_denominator(a, 2, b);
    }
    if x > 0 && d < 0 {
        assert((a / b) * -1 * d == (a / b) * b) by (nonlinear_arith)
            requires d == -b;
    } else if x < 0 && d > 0 {
        assert(((a / b) * -1) * d == -((a / b) * b)) by (nonlinear_arith)
            requires d == b;
    } else if x < 0 && d < 0 {
        assert((a / b) * d == -((a / b) * b)) by (nonlinear_arith)
            requires d == -b;
    }
}

/// A nonzero remainder needs a divisor of at least two in size, so the
/// quotient of a 32-bit tick is then at most `2^30` in size.
proof fn lemma_trunc_div_small(x: int, d: int)
    requires
        i32::MIN <= x <= i32::MAX,
        d != 0,
        trunc_rem(x, d) != 0,
    ensures
        -0x4000_0000 <= trunc_div(x, d) <= 0x4000_0000,
{
    let a = if x < 0 { -x } else { x };
    let b = if d < 0 { -d } else { d };
    if b == 1 {
        assert(a % 1 == 0);
    } else {
        assert(a / b <= a / 2) by {
            vstd::arithmetic::div_mod::lemma_div_is_ordered_by_denominator(a, 2, b);
        }
    }
}

/// The bits of the word of `c` at and below `c`'s own bit.
pub open spec fn masked_at_or_below(m: Map<i16, U256>, c: int) -> nat {
    word_at(m, word_pos_of(c)) % pow2((bit_pos_of(c) + 1) as nat)
}

/// The bits of the word of `c` at and above `c`'s own bit.
pub open spec fn masked_at_or_above(m: Map<i16, U256>, c: int) -> nat {
    let word = word_at(m, word_pos_of(c));
    (word - word % pow2(bit_pos_of(c) as nat)) as nat
}

/// The compressed tick found searching down from compressed tick `c`
/// (inclusive) within its word, and whether it is initialized.
pub open spec fn search_down(m: Map<i16, U256>, c: int) -> (int, bool) {
    let masked = masked_at_or_below(m, c);
    if masked != 0 {
        (c - (bit_pos_of(c) - floor_log2(masked)), true)
    } else {
        (c - bit_pos_of(c), false)
    }
}

/// The compressed tick found searching up from compressed tick `c`
/// (inclusive) within its word, and whether it is initialized.
pub open spec fn search_up(m: Map<i16, U256>, c: int) -> (int, bool) {
    let masked = masked_at_or_above(m, c);
    if masked != 0 {
        (c + (lowest_set_bit(masked) - bit_pos_of(c)), true)
    } else {
        (c + (255 - bit_pos_of(c)), false)
    }
}

/// The compressed tick that `next_initialized_tick_within_one_word` lands on
/// (before scaling back by the spacing), and whether it is initialized.
pub open spec fn next_compressed(m: Map<i16, U256>, tick: int, spacing: int, lte: bool) -> (
    int,
    bool,
) {
    let c = compress(tick, spacing);
    if lte {
        search_down(m, c)
    } else {
        search_up(m, c + 1)
    }
}

/// Whether compressed tick `c` is marked initialized in the bitmap.
pub open spec fn is_initialized(m: Map<i16, U256>, c: int) -> bool {
    bit_of(word_at(m, word_pos_of(c)), bit_pos_of(c) as nat)
}

/// The bitmap after flipping compressed tick `c` in `before`, as
/// `flip_tick` leaves it.
pub open spec fn flipped(before: Map<i16, U256>, after: Map<i16, U256>, c: int) -> bool {
    let w = word_pos_of(c);
    &&& after == before.insert(w, after[w])
    &&& after[w]@ == xor_nat(word_at(before, w), pow2(bit_pos_of(c) as nat))
}

/// Flipping a tick toggles that tick's bit and leaves every tick at another
/// word or bit position as it was.
pub proof fn lemma_flip_toggles_only_its_tick(
    before: Map<i16, U256>,
    after: Map<i16, U256>,
    c: int,
    t: int,
)
    requires
        flipped(before, after, c),
    ensures
        is_initialized(after, t) == (if word_pos_of(t) == word_pos_of(c) && bit_pos_of(t)
            == bit_pos_of(c) {
            !is_initialized(before, t)
        } else {
            is_initialized(before, t)
        }),
{
    let w = word_pos_of(c);
    if word_pos_of(t) == w {
        lemma_bit_of_xor(word_at(before, w), pow2(bit_pos_of(c) as nat), bit_pos_of(t) as nat);
        lemma_bit_of_pow2(bit_pos_of(c) as nat, bit_pos_of(t) as nat);
    }
}

/// Flipping the same tick twice gives back every word of the bitmap.
pub proof fn lemma_flip_twice_restores(
    before: Map<i16, U256>,
    middle: Map<i16, U256>,
    after: Map<i16, U256>,
    c: int,
    w: i16,
)
    requires
        flipped(before, middle, c),
        flipped(middle, after, c),
    ensures
        word_at(after, w) == word_at(before, w),
{
    lemma_xor_twice(word_at(before, word_pos_of(c)), pow2(bit_pos_of(c) as nat));
}

/// A tick in the same 256-tick block as `c` has `c`'s word position and its
/// own offset in the block as bit position.
proof fn lemma_same_word(c: int, t: int)
    requires
        256 * (c / 256) <= t < 256 * (c / 256) + 256,
    ensures
        t / 256 == c / 256,
        word_pos_of(t) == word_pos_of(c),
        bit_pos_of(t) as int == t - 256 * (c / 256),
        t % 256 == t - 256 * (c / 256),
{
    lemma_fundamental_div_mod_converse(t, 256, c / 256, t - 256 * (c / 256));
}

/// Searching down from `c` lands on the nearest initialized tick at or below
/// `c` within `c`'s word, when there is one; otherwise on the word's first
/// tick. Either way no tick strictly between the result and `c`, nor `c`
/// itself unless it is the result, is initialized.
pub proof fn lemma_search_down_nearest(m: Map<i16, U256>, c: int, t: int)
    ensures
        ({
            let (n, found) = search_down(m, c);
            &&& c - 255 <= n <= c
            &&& word_pos_of(n) == word_pos_of(c)
            &&& found == is_initialized(m, n)
            &&& !found ==> bit_pos_of(n) == 0
            &&& n < t <= c ==> !is_initialized(m, t)
        }),
{
    let w = c / 256;
    let b = bit_pos_of(c) as nat;
    lemma_same_word(c, c);
    let word = word_at(m, word_pos_of(c));
    let k = b + 1;
    let masked = masked_at_or_below(m, c);
    lemma_pow2_pos(k);
    lemma_mod_bound(word as int, pow2(k) as int);
    let (n, found) = search_down(m, c);
    if masked != 0 {
        let f = floor_log2(masked);
        lemma_floor_log2_below(masked, k);
        lemma_same_word(c, n);
        lemma_bit_of_mod(word, k, f);
        lemma_bit_of_floor_log2(masked, f);
        if n < t <= c {
            lemma_same_word(c, t);
            let j = (t - 256 * w) as nat;
            lemma_bit_of_mod(word, k, j);
            lemma_bit_of_floor_log2(masked, j);
        }
    } else {
        lemma_same_word(c, n);
        lemma_bit_of_mod(word, k, 0);
        lemma_bit_of_zero(0);
        if n < t <= c {
            lemma_same_word(c, t);
            let j = (t - 256 * w) as nat;
            lemma_bit_of_mod(word, k, j);
            lemma_bit_of_zero(j);
        }
    }
}

/// Searching up from `c` lands on the nearest initialized tick at or above
/// `c` within `c`'s word, when there is one; otherwise on the word's last
/// tick. Either way no tick from `c` up to the result, the result excepted,
/// is initialized.
pub proof fn lemma_search_up_nearest(m: Map<i16, U256>, c: int, t: int)
    ensures
        ({
            let (n, found) = search_up(m, c);
            &&& c <= n <= c + 255
            &&& word_pos_of(n) == word_pos_of(c)
            &&& found == is_initialized(m, n)
            &&& !found ==> bit_pos_of(n) == 255
            &&& c <= t < n ==> !is_initialized(m, t)
        }),
{
    let w = c / 256;
    let b = bit_pos_of(c) as nat;
    lemma_same_word(c, c);
    let word = word_at(m, word_pos_of(c));
    let masked = masked_at_or_above(m, c);
    lemma_pow2_pos(b);
    lemma_mod_bound(word as int, pow2(b) as int);
    let (n, found) = search_up(m, c);
    if masked != 0 {
        let l = lowest_set_bit(masked);
        lemma_bit_of_lowest(masked, l);
        lemma_bit_of_high_part(word, b, l);
        if l >= 256 {
            word_at_bounded(m, word_pos_of(c));
            if l > 256 {
                lemma_pow2_strictly_increases(256, l);
            }
            lemma_mod_decreases(word, pow2(b));
            assert(masked <= word);
            lemma_bit_of_small(masked, l);
        }
        lemma_same_word(c, n);
        if c <= t < n {
            lemma_same_word(c, t);
            let j = (t - 256 * w) as nat;
            lemma_bit_of_lowest(masked, j);
            lemma_bit_of_high_part(word, b, j);
        }
    } else {
        lemma_same_word(c, n);
        lemma_bit_of_high_part(word, b, 255);
        lemma_bit_of_zero(255);
        if c <= t < n {
            lemma_same_word(c, t);
            let j = (t - 256 * w) as nat;
            lemma_bit_of_high_part(word, b, j);
            lemma_bit_of_zero(j);
        }
    }
}

/// Both searches stay within the word of the tick they start from.
pub proof fn lemma_search_in_word(m: Map<i16, U256>, c: int)
    ensures
        256 * (c / 256) <= search_down(m, c).0 <= c,
        c <= search_up(m, c).0 <= 256 * (c / 256) + 255,
{
    lemma_search_down_nearest(m, c, c);
    lemma_search_up_nearest(m, c, c);
    lemma_same_word(c, c);
    let masked = masked_at_or_below(m, c);
    if masked != 0 {
        lemma_pow2_pos((bit_pos_of(c) + 1) as nat);
        lemma_mod_bound(word_at(m, word_pos_of(c)) as int, pow2((bit_pos_of(c) + 1) as nat) as int);
        lemma_floor_log2_below(masked, (bit_pos_of(c) + 1) as nat);
    }
    let up = masked_at_or_above(m, c);
    if up != 0 {
        let l = lowest_set_bit(up);
        lemma_bit_of_lowest(up, l);
        if l >= 256 {
            word_at_bounded(m, word_pos_of(c));
            if l > 256 {
                lemma_pow2_strictly_increases(256, l);
            }
            lemma_pow2_pos(bit_pos_of(c) as nat);
            lemma_mod_decreases(word_at(m, word_pos_of(c)), pow2(bit_pos_of(c) as nat));
            lemma_bit_of_small(up, l);
        }
    }
}

/// Every stored word is below 2^256.
proof fn word_at_bounded(m: Map<i16, U256>, w: i16)
    ensures
        word_at(m, w) < pow2(256),
{
    lemma_word_modulus();
    if m.contains_key(w) {
        m[w].lemma_bounded();
    }
}

/// A tick `c` splits into its word and bit: `c == 256 * floor(c / 256) + c mod 256`,
/// and the shift and mask forms agree with the division forms.
pub proof fn lemma_split_tick(c: i32)
    ensures
        (c >> 8u32) as int == (c as int) / 256,
        (c & 255) as int == (c as int) % 256,
        (c % 256) as u8 == (c as int % 256) as u8,
        (c as int) == 256 * ((c as int) / 256) + (c as int) % 256,
{
    assert((c >> 8u32) * 256 + (c & 255) == c) by (bit_vector);
    assert(0 <= (c & 255) < 256) by (bit_vector);
    assert((c % 256) as u8 == (c & 255) as u8) by (bit_vector);
    lemma_fundamental_div_mod_converse(c as int, 256, (c >> 8u32) as int, (c & 255) as int);
}

impl TickBitmap {
    /// Word and bit position of `tick`.
    pub fn position(tick: i32) -> (r: (i16, u8))
        ensures
            r.0 == word_pos_of(tick as int),
            r.1 == bit_pos_of(tick as int),
    {
        proof {
            lemma_split_tick(tick);
        }
        let word_pos = (tick >> 8u32) as i16;
        let rem = tick % 256;
        let bit_pos = rem as u8;
        proof {
            assert(-256 < rem < 256);
            assert((rem - (tick as int)) % 256 == 0);
            assert(bit_pos as int == (if rem < 0 { rem + 256 } else { rem as int })) by (bit_vector)
                requires
                    -256 < rem < 256,
                    bit_pos == rem as u8,
            ;
            assert(rem >= 0 ==> rem as int == (tick as int) % 256);
            assert(rem < 0 ==> rem + 256 == (tick as int) % 256);
        }
        (word_pos, bit_pos)
    }
    /// The word stored at `word_pos`, zero when none is.
    fn word(bitmap_storage: &TickBitmapStorage, word_pos: i16) -> (r: U256)
        ensures
            r@ == word_at(bitmap_storage@, word_pos),
    {
        match bitmap_storage.get(word_pos) {
            Some(w) => w,
            None => U256::zero(),
        }
    }

    /// Toggles the bit of the (spacing-compressed) tick, which must be a
    /// multiple of the spacing.
    pub fn flip_tick(bitmap_storage: &mut TickBitmapStorage, tick: i32, tick_spacing: i32)
        requires
            tick_spacing != 0,
            !(tick == i32::MIN && tick_spacing == -1),
            trunc_rem(tick as int, tick_spacing as int) == 0,
        ensures
            flipped(
                old(bitmap_storage)@,
                final(bitmap_storage)@,
                compress(tick as int, tick_spacing as int),
            ),
    {
        proof {
            lemma_trunc_div_rem(tick as int, tick_spacing as int);
        }
        let rem = tick.checked_rem(tick_spacing).unwrap();
        let compressed = tick.checked_div(tick_spacing).unwrap();
        let (word_pos, bit_pos) = Self::position(compressed);
        let one = U256::one();
        let mask = one.shl(bit_pos as usize);
        proof {
            lemma_word_modulus();
            lemma_pow2_strictly_increases(bit_pos as nat, 256);
            lemma_small_mod(pow2(bit_pos as nat), pow2(256));
            assert((bit_pos as usize) as nat == bit_pos as nat);
            assert(one@ * pow2(bit_pos as nat) == pow2(bit_pos as nat));
        }
        let bitmap = Self::word(bitmap_storage, word_pos).bitxor(mask);
        assert(rem == 0);
        assert(mask@ == pow2(bit_pos as nat));
        bitmap_storage.insert(word_pos, bitmap);
        assert(bitmap_storage@[word_pos] == bitmap);
    }

    /// The word with bits `0..=bit_pos` set: `(1 << b) - 1 + (1 << b)`.
    fn mask_through(bit_pos: u8) -> (r: U256)
        ensures
            r@ == pow2((bit_pos + 1) as nat) - 1,
    {
        let one = U256::one();
        proof {
            lemma_word_modulus();
            lemma_pow2_strictly_increases(bit_pos as nat, 256);
            lemma_pow2_pos(bit_pos as nat);
            lemma_small_mod(pow2(bit_pos as nat), pow2(256));
            lemma_pow2_unfold((bit_pos + 1) as nat);
            if bit_pos < 255 {
                lemma_pow2_strictly_increases((bit_pos + 1) as nat, 256);
            }
            lemma_small_mod((pow2((bit_pos + 1) as nat) - 1) as nat, pow2(256));
            assert((bit_pos as usize) as nat == bit_pos as nat);
        }
        let low = one.shl(bit_pos as usize);
        low.wrapping_sub(one).wrapping_add(low)
    }

    /// Searches the word of compressed tick `compressed` downward from it.
    fn search_down_in_word(bitmap_storage: &TickBitmapStorage, compressed: i32) -> (r: (i32, bool))
        ensures
            r.0 == search_down(bitmap_storage@, compressed as int).0,
            r.1 == search_down(bitmap_storage@, compressed as int).1,
    {
        let (word_pos, bit_pos) = Self::position(compressed);
        let mask = Self::mask_through(bit_pos);
        let masked = Self::word(bitmap_storage, word_pos).bitand(mask);
        proof {
            lemma_and_low_mask(word_at(bitmap_storage@, word_pos), (bit_pos + 1) as nat);
            lemma_split_tick(compressed);
        }
        let initialized = !masked.is_zero();
        let next = if initialized {
            let msb = most_significant_bit(masked).unwrap();
            proof {
                lemma_mod_bound(
                    word_at(bitmap_storage@, word_pos) as int,
                    pow2((bit_pos + 1) as nat) as int,
                );
                lemma_floor_log2_below(masked@, (bit_pos + 1) as nat);
            }
            compressed - (bit_pos as i32 - msb as i32)
        } else {
            compressed - bit_pos as i32
        };
        (next, initialized)
    }

    /// The word with bits `bit_pos..256` set: `!((1 << b) - 1)`.
    fn mask_from(bit_pos: u8) -> (r: U256)
        ensures
            r@ == pow2(256) - pow2(bit_pos as nat),
    {
        let one = U256::one();
        proof {
            lemma_word_modulus();
            lemma_pow2_strictly_increases(bit_pos as nat, 256);
            lemma_pow2_pos(bit_pos as nat);
            lemma_small_mod(pow2(bit_pos as nat), pow2(256));
            assert((bit_pos as usize) as nat == bit_pos as nat);
        }
        one.shl(bit_pos as usize).wrapping_sub(one).bitnot()
    }

    /// Searches the word of compressed tick `compressed` upward from it.
    fn search_up_in_word(bitmap_storage: &TickBitmapStorage, compressed: i32) -> (r: (i32, bool))
        ensures
            r.0 == search_up(bitmap_storage@, compressed as int).0,
            r.1 == search_up(bitmap_storage@, compressed as int).1,
    {
        let (word_pos, bit_pos) = Self::position(compressed);
        let mask = Self::mask_from(bit_pos);
        proof {
            lemma_word_modulus();
        }
        let word = Self::word(bitmap_storage, word_pos);
        let masked = word.bitand(mask);
        proof {
            word.lemma_bounded();
            lemma_and_high_mask(word@, bit_pos as nat, 256);
            lemma_split_tick(compressed);
        }
        let initialized = !masked.is_zero();
        let next = if initialized {
            let lsb = least_significant_bit(masked).unwrap();
            proof {
                lemma_fundamental_div_mod(word@ as int, pow2(bit_pos as nat) as int);
                lemma_mod_multiples_basic(
                    word@ as int / pow2(bit_pos as nat) as int,
                    pow2(bit_pos as nat) as int,
                );
                lemma_lowest_set_bit_at_least(masked@, bit_pos as nat);
            }
            compressed + (lsb as i32 - bit_pos as i32)
        } else {
            compressed + (u8::MAX as i32 - bit_pos as i32)
        };
        (next, initialized)
    }

    /// The next tick (in spacing units scaled back) at or below `tick` when
    /// `lte`, or above it otherwise, that is initialized within the same bitmap
    /// word; when none is, the last tick of the word in that direction.
    pub fn next_initialized_tick_within_one_word(
        bitmap_storage: &TickBitmapStorage,
        tick: i32,
        tick_spacing: i32,
        lte: bool,
    ) -> (r: (i32, bool))
        requires
            tick_spacing != 0,
            !(tick == i32::MIN && tick_spacing == -1),
            !lte ==> compress(tick as int, tick_spacing as int) < i32::MAX,
            i32::MIN <= next_compressed(bitmap_storage@, tick as int, tick_spacing as int, lte).0
                * tick_spacing <= i32::MAX,
        ensures
            r.0 == next_compressed(bitmap_storage@, tick as int, tick_spacing as int, lte).0
                * tick_spacing,
            r.1 == next_compressed(bitmap_storage@, tick as int, tick_spacing as int, lte).1,
    {
        proof {
            lemma_trunc_div_rem(tick as int, tick_spacing as int);
        }
        let mut compressed = tick.checked_div(tick_spacing).unwrap();
        let rem = tick.checked_rem(tick_spacing).unwrap();
        proof {
            if tick < 0 && rem != 0 {
                lemma_trunc_div_small(tick as int, tick_spacing as int);
            }
        }
        if tick < 0 && rem != 0 {
            compressed = compressed - 1;
        }
        assert(compressed == compress(tick as int, tick_spacing as int));
        if lte {
            let (next, initialized) = Self::search_down_in_word(bitmap_storage, compressed);
            (next * tick_spacing, initialized)
        } else {
            let (next, initialized) = Self::search_up_in_word(bitmap_storage, compressed + 1);
            (next * tick_spacing, initialized)
        }
    }
}

} // verus!
