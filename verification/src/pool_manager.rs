//! The pool registry: which pools exist, and the forwarding of users' orders
//! to a pool's engine.
use vstd::prelude::*;
use crate::uint::U256;
use crate::address::Address;
use crate::table::Table;

verus! {

/// The arguments of a new pool's `initialize`.
#[derive(Clone, Copy, Debug, PartialEq, Eq)]
pub struct PoolInitialization {
    pub pool_address: Address,
    pub asset_token: Address,
    pub stable_token: Address,
    pub pool_manager: Address,
    pub engine_manager: Address,
    pub bitmap_manager: Address,
    pub balance_manager: Address,
    pub current_tick: i128,
    pub lot_size: U256,
}

/// An order to hand to the engine of `pool_address`.
#[derive(Clone, Copy, Debug, PartialEq, Eq)]
pub struct EngineOrder {
    pub pool_address: Address,
    pub volume: U256,
    pub tick: i128,
    pub user: Address,
    pub is_buy: bool,
    pub is_market: bool,
}

/// State of the pool registry.
pub struct PoolManager {
    pub balance_manager: Address,
    /// Registered pools, in the order they were added.
    pub pool_addresses: Vec<Address>,
    /// Whether an address is a registered pool.
    pub is_pools: Table<Address, bool>,
}

/// Whether `pool` is registered.
pub open spec fn registered(m: Map<Address, bool>, pool: Address) -> bool {
    m.contains_key(pool) && m[pool]
}

impl PoolManager {
    /// The registry lists each pool once, and an address is marked as a pool
    /// exactly when it is listed.
    pub open spec fn consistent(&self) -> bool {
        &&& forall|i: int, j: int|
            0 <= i < j < self.pool_addresses@.len() ==> self.pool_addresses@[i]
                != self.pool_addresses@[j]
        &&& forall|a: Address| #[trigger]
            registered(self.is_pools@, a) <==> self.pool_addresses@.contains(a)
    }

    /// An empty registry.
    pub fn new() -> (r: PoolManager)
        ensures
            r.consistent(),
            r.balance_manager.is_zero(),
            r.pool_addresses@ == Seq::<Address>::empty(),
    {
        PoolManager {
            balance_manager: Address::zero(),
            pool_addresses: Vec::new(),
            is_pools: Table::new(),
        }
    }

    /// Records the balance contract that new pools use.
    pub fn initialize(&mut self, balance_manager: Address)
        ensures
            final(self).balance_manager == balance_manager,
            final(self).pool_addresses@ == old(self).pool_addresses@,
            final(self).is_pools@ == old(self).is_pools@,
    {
        self.balance_manager = balance_manager;
    }

    /// Registers a pool, unless it already is. Returns the arguments of the
    /// new pool's `initialize` (with `this` as its manager), or `None` when the
    /// pool was registered already and nothing changed.
    pub fn add_pool(
        &mut self,
        pool_address: Address,
        asset_token: Address,
        stable_token: Address,
        engine_manager: Address,
        bitmap_manager: Address,
        current_tick: i128,
        lot_size: U256,
        this: Address,
    ) -> (r: Option<PoolInitialization>)
        ensures
            old(self).consistent() ==> final(self).consistent(),
            final(self).balance_manager == old(self).balance_manager,
            registered(old(self).is_pools@, pool_address) ==> r is None
                && final(self).pool_addresses@ == old(self).pool_addresses@
                && final(self).is_pools@ == old(self).is_pools@,
            !registered(old(self).is_pools@, pool_address) ==> r == Some(
                PoolInitialization {
                    pool_address,
                    asset_token,
                    stable_token,
                    pool_manager: this,
                    engine_manager,
                    bitmap_manager,
                    balance_manager: old(self).balance_manager,
                    current_tick,
                    lot_size,
                },
            ) && final(self).pool_addresses@ == old(self).pool_addresses@.push(pool_address)
                && final(self).is_pools@ == old(self).is_pools@.insert(pool_address, true),
    {
        let known = match self.is_pools.get(pool_address) {
            Some(b) => b,
            None => false,
        };
        if known {
            return None;
        }
        let init = PoolInitialization {
            pool_address,
            asset_token,
            stable_token,
            pool_manager: this,
            engine_manager,
            bitmap_manager,
            balance_manager: self.balance_manager,
            current_tick,
            lot_size,
        };
        let ghost old_list = self.pool_addresses@;
        self.pool_addresses.push(pool_address);
        self.is_pools.insert(pool_address, true);
        proof {
            if old(self).consistent() {
                assert(!registered(old(self).is_pools@, pool_address));
                assert(!old_list.contains(pool_address));
                assert forall|a: Address| #[trigger]
                    registered(self.is_pools@, a) <==> self.pool_addresses@.contains(a) by {
                    if a == pool_address {
                        assert(self.pool_addresses@[old_list.len() as int] == a);
                    } else {
                        assert(registered(self.is_pools@, a) == registered(old(self).is_pools@, a));
                        if old_list.contains(a) {
                            let j = choose|j: int| 0 <= j < old_list.len() && old_list[j] == a;
                            assert(self.pool_addresses@[j] == a);
                        }
                        if self.pool_addresses@.contains(a) {
                            let j = choose|j: int|
                                0 <= j < self.pool_addresses@.len() && self.pool_addresses@[j] == a;
                            assert(j < old_list.len());
                            assert(old_list[j] == a);
                        }
                    }
                }
                assert forall|i: int, j: int|
                    0 <= i < j < self.pool_addresses@.len() implies self.pool_addresses@[i]
                        != self.pool_addresses@[j] by {
                    if j == old_list.len() {
                        assert(self.pool_addresses@[i] == old_list[i]);
                    }
                }
            }
        }
        Some(init)
    }

    /// The order that `sender` places with `pool_address`, to be handed to
    /// that pool's engine.
    pub fn place_order(
        &self,
        pool_address: Address,
        incoming_order_volume: U256,
        incoming_order_tick: i128,
        incoming_order_is_buy: bool,
        incoming_order_is_market: bool,
        sender: Address,
    ) -> (r: EngineOrder)
        ensures
            r == (EngineOrder {
                pool_address,
                volume: incoming_order_volume,
                tick: incoming_order_tick,
                user: sender,
                is_buy: incoming_order_is_buy,
                is_market: incoming_order_is_market,
            }),
    {
        EngineOrder {
            pool_address,
            volume: incoming_order_volume,
            tick: incoming_order_tick,
            user: sender,
            is_buy: incoming_order_is_buy,
            is_market: incoming_order_is_market,
        }
    }
}

} // verus!
