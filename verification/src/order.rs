//! The order-manager contract: order records of signed ticks in raw storage
//! slots, placed at the insertion index of the tick's ring.
use vstd::prelude::*;
use crate::uint::{U256, be_value, word_modulus};
use crate::bit_math::U256Extension;
use crate::address::Address;
use crate::table::Table;
use crate::tick::TickUpdate;
use crate::order_codec::{
    SlotStorage, StorageSlot, order_key, order_record, record_at, slot_written, zero_record, be_bytes,
    encode_order_key_i128, encode_order_data, decode_order_data, load_record, store_record,
    record_to_vec,
};

verus! {

/// State of the order-manager contract.
pub struct OrderManager {
    pub engine_address: Address,
    pub tick_manager_address: Address,
    pub bitmap_manager_address: Address,
    /// Raw storage slots holding the order records.
    pub orders: SlotStorage,
}

/// The storage key of the order at `order_index` of signed tick `tick`.
pub open spec fn signed_order_key(tick: i128, order_index: nat) -> Seq<u8> {
    order_key(be_bytes(tick as u128 as nat, 16), order_index)
}

impl OrderManager {
    /// A fresh contract: zero addresses, no orders.
    pub fn new() -> (r: OrderManager)
        ensures
            r.engine_address.is_zero(),
            r.tick_manager_address.is_zero(),
            r.bitmap_manager_address.is_zero(),
            r.orders@ == Map::<StorageSlot, [u8; 32]>::empty(),
    {
        OrderManager {
            engine_address: Address::zero(),
            tick_manager_address: Address::zero(),
            bitmap_manager_address: Address::zero(),
            orders: Table::new(),
        }
    }

    /// Records the addresses of the engine, bitmap and tick contracts.
    pub fn initialize(
        &mut self,
        engine_address: Address,
        bitmap_manager_address: Address,
        tick_manager_address: Address,
    )
        ensures
            final(self).engine_address == engine_address,
            final(self).bitmap_manager_address == bitmap_manager_address,
            final(self).tick_manager_address == tick_manager_address,
            final(self).orders@ == old(self).orders@,
    {
        self.engine_address = engine_address;
        self.bitmap_manager_address = bitmap_manager_address;
        self.tick_manager_address = tick_manager_address;
    }

    /// Places a new order at `tick`, given the tick's record as the tick
    /// contract reports it (start, length, volume, side). The order goes at
    /// index `start + length mod 256` (wrapping at 2^256). Returns that index
    /// and the update to send to the tick contract.
    pub fn insert_order(
        &mut self,
        tick: i128,
        volume: U256,
        user: Address,
        is_buy: bool,
        tick_data: (U256, U256, U256, bool),
    ) -> (r: (U256, TickUpdate))
        ensures
            r.0@ == (tick_data.0@ + tick_data.1@ % 256) % word_modulus(),
            slot_written(
                old(self).orders@,
                final(self).orders@,
                signed_order_key(tick, r.0@),
                order_record(user, volume@),
            ),
            r.1 == (TickUpdate { tick, volume, is_buy, is_existing_order: false }),
            final(self).engine_address == old(self).engine_address,
            final(self).tick_manager_address == old(self).tick_manager_address,
            final(self).bitmap_manager_address == old(self).bitmap_manager_address,
    {
        let (start_index, length, _tick_volume, _tick_is_buy) = tick_data;
        let order_index = start_index.wrapping_add(length.rem(U256::from_u128(256)));
        self.write_order(tick, order_index, user, volume);
        (order_index, TickUpdate { tick, volume, is_buy, is_existing_order: false })
    }

    /// Sets the volume of an existing order, deleting it when the volume is
    /// zero. Returns the update to send to the tick contract.
    pub fn update_order(&mut self, tick: i128, volume: U256, order_index: U256) -> (r: TickUpdate)
        ensures
            ({
                let key = signed_order_key(tick, order_index@);
                slot_written(
                    old(self).orders@,
                    final(self).orders@,
                    key,
                    if volume@ == 0 {
                        zero_record()
                    } else {
                        record_at(old(self).orders@, key).subrange(0, 20) + be_bytes(
                            volume@,
                            32,
                        ).subrange(20, 32)
                    },
                )
            }),
            r == (TickUpdate { tick, volume, is_buy: false, is_existing_order: true }),
            final(self).engine_address == old(self).engine_address,
            final(self).tick_manager_address == old(self).tick_manager_address,
            final(self).bitmap_manager_address == old(self).bitmap_manager_address,
    {
        let order_data = match self.read_order(tick, order_index) {
            Ok(d) => d,
            Err(_) => (Address::zero(), U256::zero()),
        };
        if volume.is_zero() {
            self.delete_order(tick, order_index);
        } else {
            self.write_order(tick, order_index, order_data.0, volume);
        }
        TickUpdate { tick, volume, is_buy: false, is_existing_order: true }
    }

    /// The order stored at `order_index` of `tick`: its user and volume.
    pub fn read_order(&self, tick: i128, order_index: U256) -> (r: Result<(Address, U256), Vec<u8>>)
        ensures
            match r {
                Ok((user, volume)) => {
                    let rec = record_at(self.orders@, signed_order_key(tick, order_index@));
                    &&& user.bytes@ == rec.subrange(0, 20)
                    &&& volume@ == be_value(rec.subrange(20, 32))
                },
                Err(_) => false,
            },
    {
        let encoded_order_key = encode_order_key_i128(tick, order_index);
        let record = load_record(&self.orders, &encoded_order_key);
        let encoded_order_data = record_to_vec(&record);
        Ok(decode_order_data(&encoded_order_data))
    }

    /// Stores the order of `user` with `volume` at `order_index` of `tick`.
    pub fn write_order(&mut self, tick: i128, order_index: U256, user: Address, volume: U256)
        ensures
            slot_written(
                old(self).orders@,
                final(self).orders@,
                signed_order_key(tick, order_index@),
                order_record(user, volume@),
            ),
            final(self).engine_address == old(self).engine_address,
            final(self).tick_manager_address == old(self).tick_manager_address,
            final(self).bitmap_manager_address == old(self).bitmap_manager_address,
    {
        let encoded_order_key = encode_order_key_i128(tick, order_index);
        let encoded_order_data = encode_order_data(user, volume);
        store_record(&mut self.orders, &encoded_order_key, encoded_order_data);
    }

    /// Clears the order at `order_index` of `tick`.
    pub fn delete_order(&mut self, tick: i128, order_index: U256)
        ensures
            slot_written(
                old(self).orders@,
                final(self).orders@,
                signed_order_key(tick, order_index@),
                zero_record(),
            ),
            final(self).engine_address == old(self).engine_address,
            final(self).tick_manager_address == old(self).tick_manager_address,
            final(self).bitmap_manager_address == old(self).bitmap_manager_address,
    {
        let encoded_order_key = encode_order_key_i128(tick, order_index);
        let zeros = [0u8; 32];
        assert(zeros@ =~= zero_record());
        store_record(&mut self.orders, &encoded_order_key, zeros);
    }

    /// The storage key of an order: the tick's 16 bytes, `-`, the index's 32
    /// bytes.
    pub fn encode_order_key(&self, tick: i128, order_index: U256) -> (r: Result<Vec<u8>, Vec<u8>>)
        ensures
            match r {
                Ok(key) => key@ == signed_order_key(tick, order_index@),
                Err(_) => false,
            },
    {
        Ok(encode_order_key_i128(tick, order_index))
    }

    /// The 32-byte record of an order.
    pub fn encode_order_data(&self, user: Address, volume: U256) -> (r: Result<[u8; 32], Vec<u8>>)
        ensures
            match r {
                Ok(rec) => rec@ == order_record(user, volume@),
                Err(_) => false,
            },
    {
        Ok(encode_order_data(user, volume))
    }

    /// The user and volume of a 32-byte record.
    pub fn decode_order_data(&self, encoded: Vec<u8>) -> (r: Result<(Address, U256), Vec<u8>>)
        requires
            encoded@.len() >= 32,
        ensures
            match r {
                Ok((user, volume)) => {
                    &&& user.bytes@ == encoded@.subrange(0, 20)
                    &&& volume@ == be_value(encoded@.subrange(20, 32))
                },
                Err(_) => false,
            },
    {
        Ok(decode_order_data(&encoded))
    }
}

} // verus!
