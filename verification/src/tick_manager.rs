//! The tick-manager contract: per-tick records keyed by unsigned tick, the
//! current tick, and the addresses of the contracts it works with.
use vstd::prelude::*;
use crate::uint::{U256, two_pow_128};
use crate::address::Address;
use crate::table::Table;
use crate::tick_state::{TickData, tick_at, tick_after_update};

verus! {

/// State of the tick-manager contract.
pub struct TickManager {
    pub engine_address: Address,
    pub order_manager_address: Address,
    pub bitmap_manager_address: Address,
    /// The current tick.
    pub current_tick: u128,
    /// Per-tick records, by tick.
    pub ticks: Table<u128, TickData>,
}

impl TickManager {
    /// A fresh contract: zero addresses, no records, current tick 0.
    pub fn new() -> (r: TickManager)
        ensures
            r.engine_address.is_zero(),
            r.order_manager_address.is_zero(),
            r.bitmap_manager_address.is_zero(),
            r.current_tick == 0,
            r.ticks@ == Map::<u128, TickData>::empty(),
    {
        TickManager {
            engine_address: Address::zero(),
            order_manager_address: Address::zero(),
            bitmap_manager_address: Address::zero(),
            current_tick: 0,
            ticks: Table::new(),
        }
    }

    /// Records the addresses of the engine, bitmap and order manager contracts.
    pub fn initialize(
        &mut self,
        engine_address: Address,
        bitmap_manager_address: Address,
        order_manager_address: Address,
    )
        ensures
            final(self).engine_address == engine_address,
            final(self).bitmap_manager_address == bitmap_manager_address,
            final(self).order_manager_address == order_manager_address,
            final(self).current_tick == old(self).current_tick,
            final(self).ticks@ == old(self).ticks@,
    {
        self.engine_address = engine_address;
        self.bitmap_manager_address = bitmap_manager_address;
        self.order_manager_address = order_manager_address;
    }

    /// The record of `tick`, the empty record when there is none.
    fn tick_data(&self, tick: u128) -> (r: TickData)
        ensures
            r == tick_at(self.ticks@, tick),
    {
        match self.ticks.get(tick) {
            Some(t) => t,
            None => TickData::empty(),
        }
    }

    /// Applies an order update to the record of `tick`.
    pub fn update_tick(&mut self, tick: U256, volume: U256, is_buy: bool, is_existing_order: bool)
        requires
            tick@ < two_pow_128(),
            volume@ < two_pow_128(),
        ensures
            final(self).ticks@ == old(self).ticks@.insert(
                tick@ as u128,
                tick_after_update(
                    tick_at(old(self).ticks@, tick@ as u128),
                    volume@ as u128,
                    is_buy,
                    is_existing_order,
                ),
            ),
            final(self).current_tick == old(self).current_tick,
            final(self).engine_address == old(self).engine_address,
            final(self).order_manager_address == old(self).order_manager_address,
            final(self).bitmap_manager_address == old(self).bitmap_manager_address,
    {
        let key = tick.to_u128();
        let tick_data = self.tick_data(key);
        let updated = tick_data.updated(volume.to_u128(), is_buy, is_existing_order);
        self.ticks.insert(key, updated);
    }

    /// The record of `tick` as start, length, volume and side.
    pub fn get_tick_data(&self, tick: U256) -> (r: (U256, U256, U256, bool))
        requires
            tick@ < two_pow_128(),
        ensures
            r.0@ == tick_at(self.ticks@, tick@ as u128).start_index,
            r.1@ == tick_at(self.ticks@, tick@ as u128).length,
            r.2@ == tick_at(self.ticks@, tick@ as u128).volume,
            r.3 == tick_at(self.ticks@, tick@ as u128).is_buy,
    {
        self.tick_data(tick.to_u128()).to_words()
    }

    /// Overwrites the record of `tick`.
    pub fn set_tick_data(&mut self, tick: U256, tick_data: (U256, U256, U256, bool))
        requires
            tick@ < two_pow_128(),
            tick_data.0@ < two_pow_128(),
            tick_data.1@ < two_pow_128(),
            tick_data.2@ < two_pow_128(),
        ensures
            final(self).ticks@ == old(self).ticks@.insert(
                tick@ as u128,
                TickData {
                    start_index: tick_data.0@ as u128,
                    length: tick_data.1@ as u128,
                    volume: tick_data.2@ as u128,
                    is_buy: tick_data.3,
                },
            ),
            final(self).current_tick == old(self).current_tick,
            final(self).engine_address == old(self).engine_address,
            final(self).order_manager_address == old(self).order_manager_address,
            final(self).bitmap_manager_address == old(self).bitmap_manager_address,
    {
        let record = TickData::from_words(tick_data);
        self.ticks.insert(tick.to_u128(), record);
    }

    /// The current tick.
    pub fn get_current_tick(&self) -> (r: U256)
        ensures
            r@ == self.current_tick,
    {
        U256::from_u128(self.current_tick)
    }

    /// Records the current tick.
    pub fn set_current_tick(&mut self, tick: U256)
        requires
            tick@ < two_pow_128(),
        ensures
            final(self).current_tick == tick@,
            final(self).ticks@ == old(self).ticks@,
            final(self).engine_address == old(self).engine_address,
            final(self).order_manager_address == old(self).order_manager_address,
            final(self).bitmap_manager_address == old(self).bitmap_manager_address,
    {
        self.current_tick = tick.to_u128();
    }
}

} // verus!
