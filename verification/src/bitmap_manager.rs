//! The bitmap contract: the tick bitmap of one pool, its current tick, and
//! the walk that collects the best initialized ticks.
use vstd::prelude::*;
use crate::uint::U256;
use crate::bit_math::U256Extension;
use crate::table::Table;
use crate::tick_bitmap::{
    TickBitmap, TickBitmapStorage, next_compressed, compress, flipped, word_pos_of, bit_pos_of,
    word_at, lemma_search_in_word, search_up, search_down, is_initialized, lemma_search_up_nearest,
    lemma_search_down_nearest,
};

verus! {

/// State of the bitmap contract.
pub struct BitmapManager {
    /// The bitmap words, by word position.
    pub storage: TickBitmapStorage,
    /// The pool's current tick.
    pub current_tick: i128,
}

/// The tick the best-tick walk starts from: the current tick when it fits in
/// 32 bits, 0 otherwise.
pub open spec fn walk_start(current_tick: i128) -> i32 {
    if i32::MIN <= current_tick <= i32::MAX {
        current_tick as i32
    } else {
        0
    }
}

/// The tick found from `cur` in one step of the walk (searching down for a
/// sell side, `is_buy == false`, and up for a buy side), and whether it is
/// initialized.
pub open spec fn walk_step(m: Map<i16, U256>, cur: int, is_buy: bool) -> (int, bool) {
    next_compressed(m, cur, 1, !is_buy)
}

/// Where the walk continues after a step that found `next`.
pub open spec fn walk_advance(next: int, is_buy: bool) -> int {
    if !is_buy {
        next - 1
    } else {
        next
    }
}

/// The initialized ticks met in `n` steps of the walk from `cur`, in order.
pub open spec fn best_ticks_walk(m: Map<i16, U256>, cur: int, is_buy: bool, n: nat) -> Seq<i128>
    decreases n,
{
    if n == 0 {
        Seq::empty()
    } else {
        let (next, initialized) = walk_step(m, cur, is_buy);
        let rest = best_ticks_walk(m, walk_advance(next, is_buy), is_buy, (n - 1) as nat);
        if initialized {
            seq![next as i128] + rest
        } else {
            rest
        }
    }
}

/// Every step of an `n`-step walk from `cur` stays within 32-bit ticks: a
/// buy never steps up from the largest tick, a sell never steps below the
/// smallest one.
pub open spec fn walk_in_range(m: Map<i16, U256>, cur: int, is_buy: bool, n: nat) -> bool
    decreases n,
{
    if n == 0 {
        true
    } else {
        let (next, initialized) = walk_step(m, cur, is_buy);
        &&& is_buy ==> cur < i32::MAX
        &&& !is_buy ==> next > i32::MIN
        &&& walk_in_range(m, walk_advance(next, is_buy), is_buy, (n - 1) as nat)
    }
}

/// A buy walk of `n` steps from `cur` misses no initialized tick above `cur`
/// up to the end of the word it stands in after its word-end steps: with `k`
/// ticks found, the other `n - k` steps each finished a word, so every
/// initialized tick above `cur` and below the start of word
/// `(cur + 1) / 256 + n - k` is in the result.
pub proof fn lemma_buy_walk_complete(m: Map<i16, U256>, cur: int, n: nat, t: int)
    requires
        cur < t < 256 * ((cur + 1) / 256 + n - best_ticks_walk(m, cur, true, n).len()),
        is_initialized(m, t),
    ensures
        best_ticks_walk(m, cur, true, n).contains(t as i128),
    decreases n,
{
    if n > 0 {
        let c = cur + 1;
        assert(compress(cur, 1) == cur);
        let (next, found) = search_up(m, c);
        assert(walk_step(m, cur, true) == (next, found));
        lemma_search_up_nearest(m, c, t);
        lemma_search_in_word(m, c);
        let rest = best_ticks_walk(m, next, true, (n - 1) as nat);
        let all = best_ticks_walk(m, cur, true, n);
        if found {
            assert(all == seq![next as i128] + rest);
            if t == next {
                assert(all[0] == t as i128);
            } else {
                assert(t > next);
                vstd::arithmetic::div_mod::lemma_div_is_ordered(c, next + 1, 256);
                lemma_buy_walk_complete(m, next, (n - 1) as nat, t);
                let j = choose|j: int| 0 <= j < rest.len() && rest[j] == t as i128;
                assert(all[j + 1] == t as i128);
            }
        } else {
            assert(all == rest);
            vstd::arithmetic::div_mod::lemma_fundamental_div_mod(next, 256);
            vstd::arithmetic::div_mod::lemma_fundamental_div_mod(c, 256);
            assert(next == 256 * (c / 256) + 255);
            assert((next + 1) / 256 == c / 256 + 1);
            assert(t > next);
            lemma_buy_walk_complete(m, next, (n - 1) as nat, t);
        }
    }
}

/// A sell walk of `n` steps from `cur` misses no initialized tick at or below
/// `cur` down to the start of the word it stands in after its word-start
/// steps: with `k` ticks found, every initialized tick from the start of word
/// `cur / 256 + 1 - (n - k)` up to `cur` is in the result.
pub proof fn lemma_sell_walk_complete(m: Map<i16, U256>, cur: int, n: nat, t: int)
    requires
        256 * (cur / 256 + 1 - (n - best_ticks_walk(m, cur, false, n).len())) <= t <= cur,
        is_initialized(m, t),
    ensures
        best_ticks_walk(m, cur, false, n).contains(t as i128),
    decreases n,
{
    if n > 0 {
        assert(compress(cur, 1) == cur);
        let (next, found) = search_down(m, cur);
        assert(walk_step(m, cur, false) == (next, found));
        lemma_search_down_nearest(m, cur, t);
        lemma_search_in_word(m, cur);
        let rest = best_ticks_walk(m, next - 1, false, (n - 1) as nat);
        let all = best_ticks_walk(m, cur, false, n);
        if found {
            assert(all == seq![next as i128] + rest);
            if t == next {
                assert(all[0] == t as i128);
            } else {
                assert(t < next);
                vstd::arithmetic::div_mod::lemma_div_is_ordered(next - 1, cur, 256);
                lemma_sell_walk_complete(m, next - 1, (n - 1) as nat, t);
                let j = choose|j: int| 0 <= j < rest.len() && rest[j] == t as i128;
                assert(all[j + 1] == t as i128);
            }
        } else {
            assert(all == rest);
            vstd::arithmetic::div_mod::lemma_fundamental_div_mod(next, 256);
            vstd::arithmetic::div_mod::lemma_fundamental_div_mod(cur, 256);
            assert(next == 256 * (cur / 256));
            assert((next - 1) / 256 == cur / 256 - 1);
            assert(t < next);
            lemma_sell_walk_complete(m, next - 1, (n - 1) as nat, t);
        }
    }
}

/// Every tick a walk returns is initialized and lies on the walk's side of
/// `cur` within the 32-bit range, and the ticks come nearest first: rising
/// for a buy, falling for a sell.
pub proof fn lemma_walk_sound(m: Map<i16, U256>, cur: int, is_buy: bool, n: nat)
    requires
        walk_in_range(m, cur, is_buy, n),
        i32::MIN <= cur <= i32::MAX,
    ensures
        forall|i: int|
            0 <= i < best_ticks_walk(m, cur, is_buy, n).len() ==> {
                let x = #[trigger] best_ticks_walk(m, cur, is_buy, n)[i];
                &&& is_initialized(m, x as int)
                &&& is_buy ==> cur < x <= i32::MAX
                &&& !is_buy ==> i32::MIN < x <= cur
            },
        forall|i: int, j: int|
            0 <= i < j < best_ticks_walk(m, cur, is_buy, n).len() ==> (if is_buy {
                best_ticks_walk(m, cur, is_buy, n)[i] < best_ticks_walk(m, cur, is_buy, n)[j]
            } else {
                best_ticks_walk(m, cur, is_buy, n)[i] > best_ticks_walk(m, cur, is_buy, n)[j]
            }),
    decreases n,
{
    if n > 0 {
        assert(compress(cur, 1) == cur);
        let (next, found) = walk_step(m, cur, is_buy);
        let after = walk_advance(next, is_buy);
        if is_buy {
            let c = cur + 1;
            assert(walk_step(m, cur, is_buy) == search_up(m, c));
            lemma_search_up_nearest(m, c, c);
            lemma_search_in_word(m, c);
            vstd::arithmetic::div_mod::lemma_div_is_ordered(c, 0x7fff_ffff, 256);
            vstd::arithmetic::div_mod::lemma_fundamental_div_mod(c, 256);
            assert(next <= i32::MAX);
        } else {
            assert(walk_step(m, cur, is_buy) == search_down(m, cur));
            lemma_search_down_nearest(m, cur, cur);
            lemma_search_in_word(m, cur);
        }
        lemma_walk_sound(m, after, is_buy, (n - 1) as nat);
        let rest = best_ticks_walk(m, after, is_buy, (n - 1) as nat);
        let all = best_ticks_walk(m, cur, is_buy, n);
        if found {
            assert(all == seq![next as i128] + rest);
            assert forall|i: int| 0 <= i < all.len() implies {
                let x = #[trigger] all[i];
                &&& is_initialized(m, x as int)
                &&& is_buy ==> cur < x <= i32::MAX
                &&& !is_buy ==> i32::MIN < x <= cur
            } by {
                if i > 0 {
                    assert(all[i] == rest[i - 1]);
                }
            }
            assert forall|i: int, j: int| 0 <= i < j < all.len() implies (if is_buy {
                all[i] < all[j]
            } else {
                all[i] > all[j]
            }) by {
                assert(all[j] == rest[j - 1]);
                if i > 0 {
                    assert(all[i] == rest[i - 1]);
                }
            }
        } else {
            assert(all == rest);
        }
    }
}

/// The price of a tick after `n` steps of multiplying by 1.0001, with six
/// decimals and each step rounded down.
pub open spec fn scaled_price(n: nat) -> nat
    decreases n,
{
    if n == 0 {
        1_000_000
    } else {
        scaled_price((n - 1) as nat) * 1_000_100 / 1_000_000
    }
}

/// `scaled_price` never decreases.
pub proof fn lemma_scaled_price_grows(i: nat, j: nat)
    requires
        i <= j,
    ensures
        scaled_price(i) <= scaled_price(j),
    decreases j,
{
    if i < j {
        lemma_scaled_price_grows(i, (j - 1) as nat);
        let p = scaled_price((j - 1) as nat);
        assert(p * 1_000_100 / 1_000_000 >= p) by (nonlinear_arith)
            requires p >= 0;
    }
}

impl BitmapManager {
    /// A fresh contract: no tick initialized, current tick 0.
    pub fn new() -> (r: BitmapManager)
        ensures
            r.storage@ == Map::<i16, U256>::empty(),
            r.current_tick == 0,
    {
        BitmapManager { storage: Table::new(), current_tick: 0 }
    }

    /// Word and bit position of `tick`.
    pub fn position(&mut self, tick: i32) -> (r: (i16, u8))
        ensures
            *final(self) == *old(self),
            r.0 == word_pos_of(tick as int),
            r.1 == bit_pos_of(tick as int),
    {
        TickBitmap::position(tick)
    }

    /// The current tick.
    pub fn get_current_tick(&self) -> (r: i128)
        ensures
            r == self.current_tick,
    {
        self.current_tick
    }

    /// Records `tick` as the current tick and returns it.
    pub fn set_current_tick(&mut self, tick: i128) -> (r: i128)
        ensures
            final(self).current_tick == tick,
            final(self).storage@ == old(self).storage@,
            r == tick,
    {
        self.current_tick = tick;
        tick
    }

    /// The initialized ticks met in five steps from the current tick, stepping
    /// up for a buy (`is_buy`), down for a sell; each step searches one bitmap
    /// word.
    pub fn top_n_best_ticks(&self, is_buy: bool) -> (r: Vec<i128>)
        requires
            walk_in_range(self.storage@, walk_start(self.current_tick) as int, is_buy, 5),
        ensures
            r@ == best_ticks_walk(self.storage@, walk_start(self.current_tick) as int, is_buy, 5),
            forall|t: int|
                #[trigger] is_initialized(self.storage@, t) && ((is_buy && walk_start(
                    self.current_tick,
                ) < t < 256 * ((walk_start(self.current_tick) + 1) / 256 + 5 - r@.len())) || (
                !is_buy && 256 * (walk_start(self.current_tick) / 256 + 1 - (5 - r@.len()))
                    <= t <= walk_start(self.current_tick))) ==> r@.contains(t as i128),
            forall|i: int|
                0 <= i < r@.len() ==> is_initialized(self.storage@, #[trigger] r@[i] as int) && (
                is_buy ==> walk_start(self.current_tick) < r@[i]) && (!is_buy ==> r@[i]
                    <= walk_start(self.current_tick)),
            forall|i: int, j: int|
                0 <= i < j < r@.len() ==> (if is_buy {
                    r@[i] < r@[j]
                } else {
                    r@[i] > r@[j]
                }),
    {
        match self.top_n_best_ticks_checked(is_buy) {
            Some(ticks) => ticks,
            None => Vec::new(),
        }
    }

    /// As `top_n_best_ticks`, or `None` when the walk would step past the
    /// 32-bit tick range.
    pub fn top_n_best_ticks_checked(&self, is_buy: bool) -> (r: Option<Vec<i128>>)
        ensures
            r is Some <==> walk_in_range(self.storage@, walk_start(self.current_tick) as int, is_buy, 5),
            r matches Some(ticks) ==> ticks@ == best_ticks_walk(
                self.storage@,
                walk_start(self.current_tick) as int,
                is_buy,
                5,
            ),
            r matches Some(ticks) ==> forall|t: int|
                #[trigger] is_initialized(self.storage@, t) && ((is_buy && walk_start(
                    self.current_tick,
                ) < t < 256 * ((walk_start(self.current_tick) + 1) / 256 + 5 - ticks@.len())) || (
                !is_buy && 256 * (walk_start(self.current_tick) / 256 + 1 - (5 - ticks@.len()))
                    <= t <= walk_start(self.current_tick))) ==> ticks@.contains(t as i128),
            r matches Some(ticks) ==> forall|i: int|
                0 <= i < ticks@.len() ==> is_initialized(self.storage@, #[trigger] ticks@[i] as int) && (
                is_buy ==> walk_start(self.current_tick) < ticks@[i]) && (!is_buy ==> ticks@[i]
                    <= walk_start(self.current_tick)),
            r matches Some(ticks) ==> forall|i: int, j: int|
                0 <= i < j < ticks@.len() ==> (if is_buy {
                    ticks@[i] < ticks@[j]
                } else {
                    ticks@[i] > ticks@[j]
                }),
    {
        let ghost m = self.storage@;
        let ghost start = walk_start(self.current_tick) as int;
        let mut counter = U256::zero();
        let one = U256::one();
        let five = U256::from_u128(5);
        let mut best_ticks: Vec<i128> = Vec::new();
        let mut current_tick: i32 = if i32::MIN as i128 <= self.current_tick && self.current_tick
            <= i32::MAX as i128 {
            self.current_tick as i32
        } else {
            0
        };
        assert(best_ticks@ + best_ticks_walk(m, current_tick as int, is_buy, 5) =~= best_ticks_walk(
            m,
            start,
            is_buy,
            5,
        ));
        while !counter.equals(five)
            invariant
                m == self.storage@,
                start == walk_start(self.current_tick) as int,
                one@ == 1,
                five@ == 5,
                counter@ <= 5,
                best_ticks@ + best_ticks_walk(m, current_tick as int, is_buy, (5 - counter@) as nat)
                    == best_ticks_walk(m, start, is_buy, 5),
                walk_in_range(m, start, is_buy, 5) <==> walk_in_range(
                    m,
                    current_tick as int,
                    is_buy,
                    (5 - counter@) as nat,
                ),
            decreases 5 - counter@,
        {
            let ghost n = (5 - counter@) as nat;
            let ghost before = best_ticks@;
            let ghost cur = current_tick as int;
            assert(counter@ < 5);
            assert(compress(cur, 1) == cur);
            assert(n > 0);
            if is_buy && current_tick == i32::MAX {
                assert(!walk_in_range(m, cur, is_buy, n));
                return None;
            }
            let (next_tick, initialized) = self.next_tick(current_tick, !is_buy);
            if !is_buy && next_tick == i32::MIN {
                assert(!walk_in_range(m, cur, is_buy, n));
                return None;
            }
            let ghost rest = best_ticks_walk(
                m,
                walk_advance(next_tick as int, is_buy),
                is_buy,
                (n - 1) as nat,
            );
            if initialized {
                best_ticks.push(next_tick as i128);
                assert(before.push(next_tick as i128) + rest =~= before + (seq![next_tick as i128]
                    + rest));
            }
            current_tick = if !is_buy {
                next_tick - 1
            } else {
                next_tick
            };
            let ghost old_counter = counter@;
            counter = counter.wrapping_add(one);
            proof {
                vstd::arithmetic::div_mod::lemma_small_mod(
                    old_counter + 1,
                    crate::uint::word_modulus(),
                );
            }
        }
        assert(walk_in_range(m, current_tick as int, is_buy, 0));
        assert(best_ticks@ =~= best_ticks@ + best_ticks_walk(m, current_tick as int, is_buy, 0));
        assert forall|t: int|
            #[trigger] is_initialized(m, t) && ((is_buy && start < t < 256 * ((start + 1) / 256 + 5
                - best_ticks@.len())) || (!is_buy && 256 * (start / 256 + 1 - (5 - best_ticks@.len()))
                <= t <= start)) implies best_ticks@.contains(t as i128) by {
            if is_buy {
                lemma_buy_walk_complete(m, start, 5, t);
            } else {
                lemma_sell_walk_complete(m, start, 5, t);
            }
        }
        proof {
            lemma_walk_sound(m, start, is_buy, 5);
        }
        Some(best_ticks)
    }

    /// Toggles whether `tick` is initialized; returns its position.
    pub fn flip(&mut self, tick: i32) -> (r: (i16, u8))
        ensures
            flipped(old(self).storage@, final(self).storage@, tick as int),
            final(self).current_tick == old(self).current_tick,
            r.0 == word_pos_of(tick as int),
            r.1 == bit_pos_of(tick as int),
    {
        TickBitmap::flip_tick(&mut self.storage, tick, 1);
        assert((tick as int) / 1 == tick as int);
        TickBitmap::position(tick)
    }

    /// The bitmap word at `index`.
    fn get_bitmap(&self, index: i16) -> (r: U256)
        ensures
            r@ == word_at(self.storage@, index),
    {
        match self.storage.get(index) {
            Some(w) => w,
            None => U256::zero(),
        }
    }

    /// The next initialized tick from `tick` within its word, searching down
    /// (inclusive) when `lte` and up (exclusive) otherwise.
    pub fn next_tick(&self, tick: i32, lte: bool) -> (r: (i32, bool))
        requires
            !lte ==> tick < i32::MAX,
        ensures
            r.0 == next_compressed(self.storage@, tick as int, 1, lte).0,
            r.1 == next_compressed(self.storage@, tick as int, 1, lte).1,
    {
        assert(compress(tick as int, 1) == tick as int);
        proof {
            lemma_search_in_word(self.storage@, tick as int);
            lemma_search_in_word(self.storage@, tick + 1);
        }
        TickBitmap::next_initialized_tick_within_one_word(&self.storage, tick, 1, lte)
    }

    /// Price of `tick` in whole units: 1.0001 to the power `tick`, kept with six
    /// decimals and rounded down at every step (1 for ticks at or below zero).
    pub fn convert_from_tick_to_price(tick: i128) -> (r: U256)
        requires
            tick <= 0 || scaled_price((tick - 1) as nat) * 1_000_100 <= u128::MAX,
        ensures
            r@ == scaled_price(if tick <= 0 { 0 } else { tick as nat }) / 1_000_000,
    {
        let base: u128 = 1_000_100;
        let scale: u128 = 1_000_000;
        let mut result: u128 = scale;
        let mut i: i128 = 0;
        while i < tick
            invariant
                base == 1_000_100,
                scale == 1_000_000,
                0 <= i,
                tick > 0 ==> i <= tick,
                tick <= 0 ==> i == 0,
                result == scaled_price(i as nat),
                tick <= 0 || scaled_price((tick - 1) as nat) * 1_000_100 <= u128::MAX,
            decreases tick - i,
        {
            proof {
                lemma_scaled_price_grows(i as nat, (tick - 1) as nat);
            }
            result = (result * base) / scale;
            i = i + 1;
        }
        U256::from_u128(result / scale)
    }

    /// As `convert_from_tick_to_price`, or `None` when a step of the
    /// computation does not fit in 128 bits.
    pub fn convert_from_tick_to_price_checked(tick: i128) -> (r: Option<U256>)
        ensures
            r is Some <==> tick <= 0 || scaled_price((tick - 1) as nat) * 1_000_100 <= u128::MAX,
            r matches Some(p) ==> p@ == scaled_price(if tick <= 0 { 0 } else { tick as nat })
                / 1_000_000,
    {
        let base: u128 = 1_000_100;
        let scale: u128 = 1_000_000;
        let mut result: u128 = scale;
        let mut i: i128 = 0;
        while i < tick
            invariant
                base == 1_000_100,
                scale == 1_000_000,
                0 <= i,
                tick > 0 ==> i <= tick,
                tick <= 0 ==> i == 0,
                result == scaled_price(i as nat),
                i > 0 ==> scaled_price((i - 1) as nat) * 1_000_100 <= u128::MAX,
            decreases tick - i,
        {
            match result.checked_mul(base) {
                Some(product) => {
                    result = product / scale;
                },
                None => {
                    proof {
                        lemma_scaled_price_grows(i as nat, (tick - 1) as nat);
                    }
                    return None;
                },
            }
            i = i + 1;
        }
        proof {
            if tick > 0 {
                assert(i == tick);
            }
        }
        Some(U256::from_u128(result / scale))
    }
}

} // verus!
