//! The self-contained order-book storage contract: per-tick records, the
//! current tick, and the order records in raw storage slots.
use vstd::prelude::*;
use vstd::wrapping::u128_specs;
use crate::uint::{U256, be_value, two_pow_128};
use crate::bit_math::U256Extension;
use crate::address::Address;
use crate::table::Table;
use crate::tick_state::{TickData, tick_at, tick_after_update};
use crate::order_codec::{
    SlotStorage, StorageSlot, order_key, order_record, record_at, slot_written, zero_record, be_bytes,
    encode_order_key_u256, encode_order_data, decode_order_data, load_record, store_record,
    record_to_vec,
};

verus! {

/// State of the storage contract.
pub struct LiquidBookStorage {
    /// The current tick.
    pub current_tick: u128,
    /// Per-tick records, by tick.
    pub ticks: Table<u128, TickData>,
    /// Raw storage slots holding the order records.
    pub orders: SlotStorage,
}

/// The storage key of the order at `order_index` of `tick`.
pub open spec fn storage_order_key(tick: nat, order_index: nat) -> Seq<u8> {
    order_key(be_bytes(tick, 32), order_index)
}

/// Where a new order goes in the tick's ring: the ring start plus the ring
/// length modulo 256, wrapping at 2^128.
pub open spec fn insertion_index(t: TickData) -> u128 {
    u128_specs::wrapping_add(t.start_index, (t.length % 256) as u128)
}

impl LiquidBookStorage {
    /// A fresh contract with nothing stored.
    pub fn new() -> (r: LiquidBookStorage)
        ensures
            r.current_tick == 0,
            r.ticks@ == Map::<u128, TickData>::empty(),
            r.orders@ == Map::<StorageSlot, [u8; 32]>::empty(),
    {
        LiquidBookStorage { current_tick: 0, ticks: Table::new(), orders: Table::new() }
    }

    /// The record of `tick`, the empty record when there is none.
    fn tick_data(&self, tick: u128) -> (r: TickData)
        ensures
            r == tick_at(self.ticks@, tick),
    {
        match self.ticks.get(tick) {
            Some(t) => t,
            None => TickData::empty(),
        }
    }

    /// Places a new order at `tick`: writes it at the tick's insertion index
    /// and updates the tick's record.
    pub fn insert_order(&mut self, tick: U256, volume: U256, user: Address, is_buy: bool)
        requires
            tick@ < two_pow_128(),
            volume@ < two_pow_128(),
        ensures
            ({
                let t = tick_at(old(self).ticks@, tick@ as u128);
                &&& slot_written(
                    old(self).orders@,
                    final(self).orders@,
                    storage_order_key(tick@, insertion_index(t) as nat),
                    order_record(user, volume@),
                )
                &&& final(self).ticks@ == old(self).ticks@.insert(
                    tick@ as u128,
                    tick_after_update(t, volume@ as u128, is_buy, false),
                )
                &&& final(self).current_tick == old(self).current_tick
            }),
    {
        let tick_data = self.tick_data(tick.to_u128());
        let order_index = tick_data.start_index.wrapping_add(tick_data.length % 256);
        self.write_order(tick, U256::from_u128(order_index), user, volume);
        self.update_tick(tick, volume, is_buy, false);
    }

    /// Sets the volume of an existing order, deleting it when the volume is
    /// zero, and updates the tick's record.
    pub fn update_order(&mut self, tick: U256, volume: U256, order_index: U256)
        requires
            tick@ < two_pow_128(),
            volume@ < two_pow_128(),
        ensures
            ({
                let key = storage_order_key(tick@, order_index@);
                let t = tick_at(old(self).ticks@, tick@ as u128);
                &&& slot_written(
                    old(self).orders@,
                    final(self).orders@,
                    key,
                    if volume@ == 0 {
                        zero_record()
                    } else {
                        record_at(old(self).orders@, key).subrange(0, 20) + be_bytes(
                            volume@,
                            32,
                        ).subrange(20, 32)
                    },
                )
                &&& final(self).ticks@ == old(self).ticks@.insert(
                    tick@ as u128,
                    tick_after_update(t, volume@ as u128, false, true),
                )
                &&& final(self).current_tick == old(self).current_tick
            }),
    {
        let order_data = match self.read_order(tick, order_index) {
            Ok(d) => d,
            Err(_) => (Address::zero(), U256::zero()),
        };
        if volume.is_zero() {
            self.delete_order(tick, order_index);
        } else {
            self.write_order(tick, order_index, order_data.0, volume);
        }
        self.update_tick(tick, volume, false, true);
    }

    /// Applies an order update to the record of `tick`.
    pub fn update_tick(&mut self, tick: U256, volume: U256, is_buy: bool, is_existing_order: bool)
        requires
            tick@ < two_pow_128(),
            volume@ < two_pow_128(),
        ensures
            final(self).ticks@ == old(self).ticks@.insert(
                tick@ as u128,
                tick_after_update(
                    tick_at(old(self).ticks@, tick@ as u128),
                    volume@ as u128,
                    is_buy,
                    is_existing_order,
                ),
            ),
            final(self).orders@ == old(self).orders@,
            final(self).current_tick == old(self).current_tick,
    {
        let key = tick.to_u128();
        let tick_data = self.tick_data(key);
        let updated = tick_data.updated(volume.to_u128(), is_buy, is_existing_order);
        self.ticks.insert(key, updated);
    }

    /// The order stored at `order_index` of `tick`: its user and volume.
    pub fn read_order(&self, tick: U256, order_index: U256) -> (r: Result<(Address, U256), Vec<u8>>)
        ensures
            match r {
                Ok((user, volume)) => {
                    let rec = record_at(self.orders@, storage_order_key(tick@, order_index@));
                    &&& user.bytes@ == rec.subrange(0, 20)
                    &&& volume@ == be_value(rec.subrange(20, 32))
                },
                Err(_) => false,
            },
    {
        let encoded_order_key = encode_order_key_u256(tick, order_index);
        let record = load_record(&self.orders, &encoded_order_key);
        let encoded_order_data = record_to_vec(&record);
        Ok(decode_order_data(&encoded_order_data))
    }

    /// Stores the order of `user` with `volume` at `order_index` of `tick`.
    pub fn write_order(&mut self, tick: U256, order_index: U256, user: Address, volume: U256)
        ensures
            slot_written(
                old(self).orders@,
                final(self).orders@,
                storage_order_key(tick@, order_index@),
                order_record(user, volume@),
            ),
            final(self).ticks@ == old(self).ticks@,
            final(self).current_tick == old(self).current_tick,
    {
        let encoded_order_key = encode_order_key_u256(tick, order_index);
        let encoded_order_data = encode_order_data(user, volume);
        store_record(&mut self.orders, &encoded_order_key, encoded_order_data);
    }

    /// Clears the order at `order_index` of `tick`.
    pub fn delete_order(&mut self, tick: U256, order_index: U256)
        ensures
            slot_written(
                old(self).orders@,
                final(self).orders@,
                storage_order_key(tick@, order_index@),
                zero_record(),
            ),
            final(self).ticks@ == old(self).ticks@,
            final(self).current_tick == old(self).current_tick,
    {
        let encoded_order_key = encode_order_key_u256(tick, order_index);
        let zeros = [0u8; 32];
        assert(zeros@ =~= zero_record());
        store_record(&mut self.orders, &encoded_order_key, zeros);
    }

    /// The storage key of an order: the tick's 32 bytes, `-`, the index's 32
    /// bytes.
    pub fn encode_order_key(&self, tick: U256, order_index: U256) -> (r: Result<Vec<u8>, Vec<u8>>)
        ensures
            match r {
                Ok(key) => key@ == storage_order_key(tick@, order_index@),
                Err(_) => false,
            },
    {
        Ok(encode_order_key_u256(tick, order_index))
    }

    /// The 32-byte record of an order.
    pub fn encode_order_data(&self, user: Address, volume: U256) -> (r: Result<[u8; 32], Vec<u8>>)
        ensures
            match r {
                Ok(rec) => rec@ == order_record(user, volume@),
                Err(_) => false,
            },
    {
        Ok(encode_order_data(user, volume))
    }

    /// The user and volume of a 32-byte record.
    pub fn decode_order_data(&self, encoded: Vec<u8>) -> (r: Result<(Address, U256), Vec<u8>>)
        requires
            encoded@.len() >= 32,
        ensures
            match r {
                Ok((user, volume)) => {
                    &&& user.bytes@ == encoded@.subrange(0, 20)
                    &&& volume@ == be_value(encoded@.subrange(20, 32))
                },
                Err(_) => false,
            },
    {
        Ok(decode_order_data(&encoded))
    }

    /// The record of `tick` as start, length, volume and side.
    pub fn get_tick_data(&self, tick: U256) -> (r: (U256, U256, U256, bool))
        requires
            tick@ < two_pow_128(),
        ensures
            r.0@ == tick_at(self.ticks@, tick@ as u128).start_index,
            r.1@ == tick_at(self.ticks@, tick@ as u128).length,
            r.2@ == tick_at(self.ticks@, tick@ as u128).volume,
            r.3 == tick_at(self.ticks@, tick@ as u128).is_buy,
    {
        self.tick_data(tick.to_u128()).to_words()
    }

    /// Overwrites the record of `tick`.
    pub fn set_tick_data(&mut self, tick: U256, tick_data: (U256, U256, U256, bool))
        requires
            tick@ < two_pow_128(),
            tick_data.0@ < two_pow_128(),
            tick_data.1@ < two_pow_128(),
            tick_data.2@ < two_pow_128(),
        ensures
            final(self).ticks@ == old(self).ticks@.insert(
                tick@ as u128,
                TickData {
                    start_index: tick_data.0@ as u128,
                    length: tick_data.1@ as u128,
                    volume: tick_data.2@ as u128,
                    is_buy: tick_data.3,
                },
            ),
            final(self).orders@ == old(self).orders@,
            final(self).current_tick == old(self).current_tick,
    {
        let record = TickData::from_words(tick_data);
        self.ticks.insert(tick.to_u128(), record);
    }

    /// The current tick.
    pub fn get_current_tick(&self) -> (r: U256)
        ensures
            r@ == self.current_tick,
    {
        U256::from_u128(self.current_tick)
    }

    /// Records the current tick.
    pub fn set_current_tick(&mut self, tick: U256)
        requires
            tick@ < two_pow_128(),
        ensures
            final(self).current_tick == tick@,
            final(self).ticks@ == old(self).ticks@,
            final(self).orders@ == old(self).orders@,
    {
        self.current_tick = tick.to_u128();
    }
}

} // verus!
