//! A pool: its two tokens, the contracts it works with, its lot size, and the
//! pricing and settlement of trades.
use vstd::prelude::*;
use vstd::arithmetic::power::{pow, lemma_pow_distributes, lemma_pow_mod_noop, lemma1_pow, lemma_pow_positive};
use vstd::arithmetic::power2::{pow2, lemma_pow2, lemma_pow2_adds, lemma_pow2_pos};
use vstd::arithmetic::mul::lemma_mul_equality_converse;
use vstd::arithmetic::div_mod::lemma_fundamental_div_mod;
use crate::uint::{U256, word_modulus, lemma_word_modulus};
use crate::address::Address;

verus! {

/// A request to the bitmap contract to record the pool's current tick.
#[derive(Clone, Copy, Debug, PartialEq, Eq)]
pub struct SetCurrentTick {
    pub bitmap_manager: Address,
    pub tick: i128,
}

/// A move of locked balance, made through the balance contract with the pool
/// manager as operator: `volume` of `token` from `from` to `to`.
#[derive(Clone, Copy, Debug, PartialEq, Eq)]
pub struct LockedTransfer {
    pub volume: U256,
    pub token: Address,
    pub from: Address,
    pub operator: Address,
    pub to: Address,
}

/// State of a pool.
pub struct PoolLiquidBook {
    pub asset_token: Address,
    pub stable_token: Address,
    pub pool_manager: Address,
    pub engine_manager: Address,
    pub bitmap_manager: Address,
    pub balance_manager: Address,
    pub lot_size: U256,
}

/// The price of `volume` units at `price_per_volume` per whole unit of an
/// asset with `decimals` decimals, in word arithmetic (products and powers
/// modulo 2^256, the quotient rounded down).
pub open spec fn price_of(volume: nat, price_per_volume: nat, decimals: nat) -> nat {
    ((volume * price_per_volume) % word_modulus()) / ((pow(10, decimals) % (word_modulus() as int)) as nat)
}

/// `10^d` is not a multiple of 2^256 while `d < 256`: a power of ten has
/// only `d` factors of two.
pub proof fn lemma_pow10_not_multiple(d: nat)
    requires
        d < 256,
    ensures
        pow(10, d) % (word_modulus() as int) != 0,
{
    lemma_word_modulus();
    lemma_pow_distributes(2, 5, d);
    lemma_pow_mod_noop(5, d, 2);
    lemma1_pow(d);
    lemma_pow2(d);
    lemma_pow2_pos(d);
    lemma_pow_positive(5, d);
    let a = pow2(d) as int;
    let o = pow(5, d);
    let rest = (256 - d) as nat;
    lemma_pow2_adds(d, rest);
    lemma_pow2_adds(1, (rest - 1) as nat);
    vstd::arithmetic::power2::lemma2_to64();
    let m = word_modulus() as int;
    assert(m == a * (pow2(rest) as int));
    lemma_fundamental_div_mod(a * o, m);
    if (a * o) % m == 0 {
        let k = (a * o) / m;
        assert(a * o == a * (k * (pow2(rest) as int))) by (nonlinear_arith)
            requires
                a * o == m * k + 0,
                m == a * (pow2(rest) as int),
        ;
        lemma_mul_equality_converse(a, o, k * (pow2(rest) as int));
        assert(o == (k * pow2((rest - 1) as nat)) * 2) by (nonlinear_arith)
            requires
                o == k * (pow2(rest) as int),
                pow2(rest) == 2 * pow2((rest - 1) as nat),
        ;
        assert(o % 2 == 0) by (nonlinear_arith)
            requires
                o == (k * pow2((rest - 1) as nat)) * 2,
        ;
    }
}

impl PoolLiquidBook {
    /// A pool with zero addresses and lot size.
    pub fn new() -> (r: PoolLiquidBook)
        ensures
            r.asset_token.is_zero(),
            r.stable_token.is_zero(),
            r.lot_size@ == 0,
    {
        PoolLiquidBook {
            asset_token: Address::zero(),
            stable_token: Address::zero(),
            pool_manager: Address::zero(),
            engine_manager: Address::zero(),
            bitmap_manager: Address::zero(),
            balance_manager: Address::zero(),
            lot_size: U256::from_u128(0),
        }
    }

    /// Records the pool's tokens, contracts and lot size. Returns the request
    /// that sets the bitmap's current tick to `current_tick`.
    pub fn initialize(
        &mut self,
        asset_token: Address,
        stable_token: Address,
        pool_manager: Address,
        engine_manager: Address,
        bitmap_manager: Address,
        balance_manager: Address,
        current_tick: i128,
        lot_size: U256,
    ) -> (r: SetCurrentTick)
        ensures
            final(self).asset_token == asset_token,
            final(self).stable_token == stable_token,
            final(self).pool_manager == pool_manager,
            final(self).engine_manager == engine_manager,
            final(self).bitmap_manager == bitmap_manager,
            final(self).balance_manager == balance_manager,
            final(self).lot_size == lot_size,
            r == (SetCurrentTick { bitmap_manager, tick: current_tick }),
    {
        self.asset_token = asset_token;
        self.stable_token = stable_token;
        self.pool_manager = pool_manager;
        self.engine_manager = engine_manager;
        self.bitmap_manager = bitmap_manager;
        self.balance_manager = balance_manager;
        self.lot_size = lot_size;
        SetCurrentTick { bitmap_manager, tick: current_tick }
    }

    /// The token a side pays with: the stable token for a buy, the asset for
    /// a sell.
    pub fn get_token_address(&mut self, is_buy: bool) -> (r: Address)
        ensures
            r == (if is_buy {
                old(self).stable_token
            } else {
                old(self).asset_token
            }),
            *final(self) == *old(self),
    {
        if is_buy {
            self.stable_token
        } else {
            self.asset_token
        }
    }

    /// The pool's engine.
    pub fn get_engine_address(&self) -> (r: Address)
        ensures
            r == self.engine_manager,
    {
        self.engine_manager
    }

    /// The pool's lot size.
    pub fn get_lot_size(&self) -> (r: U256)
        ensures
            r == self.lot_size,
    {
        self.lot_size
    }

    /// The stable-token price of `volume` asset units: `volume` times the
    /// price of a whole unit (as the bitmap contract gives it for the tick),
    /// over `10^decimals` (the asset's decimals).
    pub fn calculate_price(&mut self, volume: U256, price_per_volume: U256, token_decimals: u8) -> (r: U256)
        ensures
            r@ == price_of(volume@, price_per_volume@, token_decimals as nat),
            *final(self) == *old(self),
    {
        let decimals = U256::from_u128(token_decimals as u128);
        let scale = U256::from_u128(10).wrapping_pow(decimals);
        proof {
            lemma_pow10_not_multiple(token_decimals as nat);
        }
        volume.wrapping_mul(price_per_volume).div(scale)
    }

    /// Settles a trade of `transfer_volume` asset units between `buyer` and
    /// `seller`: the buyer's stable tokens at the trade's price go to the
    /// seller, then the seller's asset tokens go to the buyer, both out of
    /// balances locked for the pool manager. The transfers are to be made in
    /// order, stopping at the first that fails.
    pub fn transfer_locked(
        &mut self,
        transfer_volume: U256,
        buyer: Address,
        seller: Address,
        price_per_volume: U256,
        token_decimals: u8,
    ) -> (r: [LockedTransfer; 2])
        ensures
            r[0].volume@ == price_of(transfer_volume@, price_per_volume@, token_decimals as nat),
            r[0].token == old(self).stable_token,
            r[0].from == buyer,
            r[0].to == seller,
            r[0].operator == old(self).pool_manager,
            r[1].volume == transfer_volume,
            r[1].token == old(self).asset_token,
            r[1].from == seller,
            r[1].to == buyer,
            r[1].operator == old(self).pool_manager,
            *final(self) == *old(self),
    {
        let pool_manager = self.pool_manager;
        let price = self.calculate_price(transfer_volume, price_per_volume, token_decimals);
        let stable_token = self.stable_token;
        let asset_token = self.asset_token;
        [
            LockedTransfer {
                volume: price,
                token: stable_token,
                from: buyer,
                operator: pool_manager,
                to: seller,
            },
            LockedTransfer {
                volume: transfer_volume,
                token: asset_token,
                from: seller,
                operator: pool_manager,
                to: buyer,
            },
        ]
    }
}

} // verus!
