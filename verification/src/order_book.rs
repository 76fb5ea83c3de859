//! The single-contract order book: side volumes, the order list of each tick,
//! and order records in raw storage slots.
use vstd::prelude::*;
use crate::uint::{U256, be_value, word_modulus, two_pow_128};
use crate::address::Address;
use crate::table::{Table, TableKey};
use crate::tick_state::TickData;
use crate::order_codec::{
    SlotStorage, StorageSlot, order_record, record_at, slot_written, encode_order_key_u256, encode_order_data,
    decode_order_data, load_record, store_record, record_to_vec,
};
use crate::storage::storage_order_key;

verus! {

/// An order in a tick's list: its owner and quantity.
#[derive(Clone, Copy, Debug, PartialEq, Eq)]
pub struct Order {
    pub user: Address,
    pub quantity: u128,
}

/// Position of an order: its tick and its index in the tick's list.
#[derive(Clone, Copy, Debug, PartialEq, Eq)]
pub struct OrderPosition {
    pub tick: u128,
    pub index: usize,
}

impl TableKey for OrderPosition {
    fn same_key(&self, other: &Self) -> (r: bool) {
        self.tick == other.tick && self.index == other.index
    }
}

/// State of the order-book contract.
pub struct OrderBook {
    pub current_tick: u128,
    pub tick_spacing: u128,
    pub buy_volume: U256,
    pub sell_volume: U256,
    /// Number of orders in each tick's list.
    pub order_counts: Table<u128, usize>,
    /// The orders of the ticks' lists, by position.
    pub tick_orders: Table<OrderPosition, Order>,
    /// Per-tick records.
    pub ticks: Table<u128, TickData>,
    /// Raw storage slots holding order records.
    pub slots: SlotStorage,
}

/// Number of orders in the list of `tick`.
pub open spec fn order_count(m: Map<u128, usize>, tick: u128) -> nat {
    if m.contains_key(tick) {
        m[tick] as nat
    } else {
        0
    }
}

impl OrderBook {
    /// A fresh contract with nothing stored.
    pub fn new() -> (r: OrderBook)
        ensures
            r.buy_volume@ == 0,
            r.sell_volume@ == 0,
            r.order_counts@ == Map::<u128, usize>::empty(),
            r.tick_orders@ == Map::<OrderPosition, Order>::empty(),
            r.slots@ == Map::<StorageSlot, [u8; 32]>::empty(),
    {
        OrderBook {
            current_tick: 0,
            tick_spacing: 0,
            buy_volume: U256::from_u128(0),
            sell_volume: U256::from_u128(0),
            order_counts: Table::new(),
            tick_orders: Table::new(),
            ticks: Table::new(),
            slots: Table::new(),
        }
    }

    /// Appends an order of `quantity` (with no owner recorded) to the list of
    /// `tick`, and sets the side's volume to `tick * quantity` (wrapping at
    /// 2^256).
    pub fn add_order_to_orderbook(&mut self, quantity: U256, tick: U256, is_buy: bool)
        requires
            tick@ < two_pow_128(),
            quantity@ < two_pow_128(),
            order_count(old(self).order_counts@, tick@ as u128) < usize::MAX,
        ensures
            ({
                let t = tick@ as u128;
                let n = order_count(old(self).order_counts@, t);
                let pos = OrderPosition { tick: t, index: n as usize };
                &&& is_buy ==> final(self).buy_volume@ == (tick@ * quantity@) % word_modulus()
                    && final(self).sell_volume == old(self).sell_volume
                &&& !is_buy ==> final(self).sell_volume@ == (tick@ * quantity@) % word_modulus()
                    && final(self).buy_volume == old(self).buy_volume
                &&& final(self).order_counts@ == old(self).order_counts@.insert(t, (n + 1) as usize)
                &&& final(self).tick_orders@ == old(self).tick_orders@.insert(
                    pos,
                    final(self).tick_orders@[pos],
                )
                &&& final(self).tick_orders@[pos].user.is_zero()
                &&& final(self).tick_orders@[pos].quantity == quantity@ as u128
                &&& final(self).slots@ == old(self).slots@
                &&& final(self).ticks@ == old(self).ticks@
                &&& final(self).current_tick == old(self).current_tick
                &&& final(self).tick_spacing == old(self).tick_spacing
            }),
    {
        let volume = tick.wrapping_mul(quantity);
        if is_buy {
            self.buy_volume = volume;
        } else {
            self.sell_volume = volume;
        }
        let key = tick.to_u128();
        let index = match self.order_counts.get(key) {
            Some(n) => n,
            None => 0,
        };
        self.order_counts.insert(key, index + 1);
        self.tick_orders.insert(
            OrderPosition { tick: key, index },
            Order { user: Address::zero(), quantity: quantity.to_u128() },
        );
    }

    /// The order stored at `order_index` of `tick`: its user and volume.
    pub fn read_order(&self, tick: U256, order_index: U256) -> (r: Result<(Address, U256), Vec<u8>>)
        ensures
            match r {
                Ok((user, volume)) => {
                    let rec = record_at(self.slots@, storage_order_key(tick@, order_index@));
                    &&& user.bytes@ == rec.subrange(0, 20)
                    &&& volume@ == be_value(rec.subrange(20, 32))
                },
                Err(_) => false,
            },
    {
        let encoded_order_key = encode_order_key_u256(tick, order_index);
        let record = load_record(&self.slots, &encoded_order_key);
        let encoded_order_data = record_to_vec(&record);
        Ok(decode_order_data(&encoded_order_data))
    }

    /// Stores the order of `user` with `quantity` at `order_index` of `tick`.
    pub fn write_order(&mut self, tick: U256, order_index: U256, user: Address, quantity: U256)
        ensures
            slot_written(
                old(self).slots@,
                final(self).slots@,
                storage_order_key(tick@, order_index@),
                order_record(user, quantity@),
            ),
            final(self).tick_orders@ == old(self).tick_orders@,
            final(self).order_counts@ == old(self).order_counts@,
            final(self).ticks@ == old(self).ticks@,
            final(self).buy_volume == old(self).buy_volume,
            final(self).sell_volume == old(self).sell_volume,
            final(self).current_tick == old(self).current_tick,
            final(self).tick_spacing == old(self).tick_spacing,
    {
        let encoded_order_key = encode_order_key_u256(tick, order_index);
        let encoded_order_data = encode_order_data(user, quantity);
        store_record(&mut self.slots, &encoded_order_key, encoded_order_data);
    }

    /// The storage key of an order: the tick's 32 bytes, `-`, the index's 32
    /// bytes.
    pub fn encode_order_key(&self, tick: U256, order_index: U256) -> (r: Result<Vec<u8>, Vec<u8>>)
        ensures
            match r {
                Ok(key) => key@ == storage_order_key(tick@, order_index@),
                Err(_) => false,
            },
    {
        Ok(encode_order_key_u256(tick, order_index))
    }

    /// The 32-byte record of an order.
    pub fn encode_order_data(&self, user: Address, quantity: U256) -> (r: Result<[u8; 32], Vec<u8>>)
        ensures
            match r {
                Ok(rec) => rec@ == order_record(user, quantity@),
                Err(_) => false,
            },
    {
        Ok(encode_order_data(user, quantity))
    }

    /// The user and quantity of a 32-byte record.
    pub fn decode_order_data(&self, encoded: Vec<u8>) -> (r: Result<(Address, U256), Vec<u8>>)
        requires
            encoded@.len() >= 32,
        ensures
            match r {
                Ok((user, quantity)) => {
                    &&& user.bytes@ == encoded@.subrange(0, 20)
                    &&& quantity@ == be_value(encoded@.subrange(20, 32))
                },
                Err(_) => false,
            },
    {
        Ok(decode_order_data(&encoded))
    }
}

} // verus!
