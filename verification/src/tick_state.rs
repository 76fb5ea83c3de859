//! Per-tick bookkeeping shared by the tick-keeping contracts: where the tick's
//! order ring starts, how many orders it holds, the resting volume and its side.
use vstd::prelude::*;
use vstd::wrapping::u128_specs;
use crate::uint::{U256, two_pow_128};

verus! {

/// The record kept for one tick.
#[derive(Clone, Copy, Debug, PartialEq, Eq)]
pub struct TickData {
    /// Index of the oldest order in the tick's ring of orders.
    pub start_index: u128,
    /// Number of orders placed at the tick.
    pub length: u128,
    /// Resting volume at the tick.
    pub volume: u128,
    /// Side of the resting volume.
    pub is_buy: bool,
}

/// The record of a tick nothing was ever recorded for.
pub open spec fn empty_tick() -> TickData {
    TickData { start_index: 0, length: 0, volume: 0, is_buy: false }
}

/// The record at `tick`, the empty record when there is none.
pub open spec fn tick_at<K>(m: Map<K, TickData>, tick: K) -> TickData {
    if m.contains_key(tick) {
        m[tick]
    } else {
        empty_tick()
    }
}

/// A record written at `tick` is what is read back there, and every other
/// tick reads as before.
pub proof fn lemma_tick_read_after_write<K>(m: Map<K, TickData>, tick: K, record: TickData, other: K)
    ensures
        tick_at(m.insert(tick, record), tick) == record,
        other != tick ==> tick_at(m.insert(tick, record), other) == tick_at(m, other),
{
}

/// The record after an order update at the tick, as `update_tick` computes it.
///
/// For an existing order the volume is reduced by `volume` (wrapping at
/// 2^128) and a zero `volume` (a removed order) advances the ring start. For a
/// new order on the opposite side that exceeds the resting volume, the side
/// flips and the excess rests; a smaller opposite order reduces the resting
/// volume; an order on the same side leaves the volume at zero. Either way
/// the ring grows by one.
pub open spec fn tick_after_update(t: TickData, volume: u128, is_buy: bool, is_existing_order: bool) -> TickData {
    if is_existing_order {
        TickData {
            start_index: if volume == 0 {
                u128_specs::wrapping_add(t.start_index, 1)
            } else {
                t.start_index
            },
            length: t.length,
            volume: u128_specs::wrapping_sub(t.volume, volume),
            is_buy: t.is_buy,
        }
    } else {
        let opposite = t.is_buy != is_buy;
        TickData {
            start_index: t.start_index,
            length: u128_specs::wrapping_add(t.length, 1),
            volume: if opposite && volume > t.volume {
                (volume - t.volume) as u128
            } else if opposite {
                (t.volume - volume) as u128
            } else {
                0
            },
            is_buy: if opposite && volume > t.volume {
                !t.is_buy
            } else {
                t.is_buy
            },
        }
    }
}

impl TickData {
    /// The empty record.
    pub fn empty() -> (r: TickData)
        ensures
            r == empty_tick(),
    {
        TickData { start_index: 0, length: 0, volume: 0, is_buy: false }
    }

    /// The record after an order update at the tick.
    pub fn updated(self, volume: u128, is_buy: bool, is_existing_order: bool) -> (r: TickData)
        ensures
            r == tick_after_update(self, volume, is_buy, is_existing_order),
    {
        let mut updated_start_index = self.start_index;
        let mut updated_length = self.length;
        let mut updated_volume = self.volume;
        let mut updated_is_buy = self.is_buy;
        if is_existing_order {
            updated_volume = updated_volume.wrapping_sub(volume);
            if volume == 0 {
                updated_start_index = updated_start_index.wrapping_add(1u128 % 256);
            }
        } else {
            if self.is_buy != is_buy && volume > self.volume {
                updated_volume = volume - self.volume;
                updated_is_buy = !self.is_buy;
            } else if self.is_buy != is_buy {
                updated_volume = self.volume - volume;
            } else {
                updated_volume = 0;
            }
            updated_length = updated_length.wrapping_add(1u128 % 256);
        }
        TickData {
            start_index: updated_start_index,
            length: updated_length,
            volume: updated_volume,
            is_buy: updated_is_buy,
        }
    }

    /// The record as four words and a flag: start, length, volume, side.
    pub fn to_words(self) -> (r: (U256, U256, U256, bool))
        ensures
            r.0@ == self.start_index,
            r.1@ == self.length,
            r.2@ == self.volume,
            r.3 == self.is_buy,
    {
        (
            U256::from_u128(self.start_index),
            U256::from_u128(self.length),
            U256::from_u128(self.volume),
            self.is_buy,
        )
    }

    /// The record given as four words below 2^128 and a flag.
    pub fn from_words(words: (U256, U256, U256, bool)) -> (r: TickData)
        requires
            words.0@ < two_pow_128(),
            words.1@ < two_pow_128(),
            words.2@ < two_pow_128(),
        ensures
            r.start_index == words.0@,
            r.length == words.1@,
            r.volume == words.2@,
            r.is_buy == words.3,
    {
        let (start_index, length, volume, is_buy) = words;
        TickData {
            start_index: start_index.to_u128(),
            length: length.to_u128(),
            volume: volume.to_u128(),
            is_buy,
        }
    }
}

} // verus!
