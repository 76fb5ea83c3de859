//! The tick contract: per-tick records keyed by signed tick, kept in step with
//! the tick bitmap (a tick's bit is flipped whenever its volume becomes or
//! stops being zero).
use vstd::prelude::*;
use vstd::wrapping::u128_specs;
use crate::uint::{U256, two_pow_128};
use crate::bit_math::U256Extension;
use crate::address::Address;
use crate::table::Table;
use crate::tick_state::{TickData, tick_at};
use crate::tick_bitmap::{
    is_initialized, flipped, lemma_flip_toggles_only_its_tick, word_pos_of, bit_pos_of,
};
use crate::bit_math::lemma_bit_of_zero;

verus! {

/// A request to the tick contract's `set_tick_data`.
#[derive(Clone, Copy, Debug, PartialEq, Eq)]
pub struct TickUpdate {
    pub tick: i128,
    pub volume: U256,
    pub is_buy: bool,
    pub is_existing_order: bool,
}

/// State of the tick contract.
pub struct TickManager {
    pub engine_address: Address,
    pub order_manager_address: Address,
    pub bitmap_manager_address: Address,
    /// Per-tick records, by tick.
    pub ticks: Table<i128, TickData>,
}

/// The record after `set_tick_data`.
///
/// For an existing order the volume becomes `volume`; when either the new or
/// the resting volume is zero the ring start advances and the side flips, and
/// a zero `volume` (a removed order) also shortens the ring. For a new order,
/// when nothing rests or an opposite order exceeds the resting volume, the
/// side flips and the excess rests; a smaller opposite order reduces the
/// resting volume; an order on the same side adds to it (wrapping at 2^128).
/// Either way the ring grows by one.
pub open spec fn tick_after_set(t: TickData, volume: u128, is_buy: bool, is_existing_order: bool) -> TickData {
    if is_existing_order {
        let reset = volume == 0 || t.volume == 0;
        TickData {
            start_index: if reset {
                u128_specs::wrapping_add(t.start_index, 1)
            } else {
                t.start_index
            },
            length: if volume == 0 {
                u128_specs::wrapping_sub(t.length, 1)
            } else {
                t.length
            },
            volume,
            is_buy: if reset {
                !t.is_buy
            } else {
                t.is_buy
            },
        }
    } else {
        let take_over = t.volume == 0 || (t.is_buy != is_buy && volume > t.volume);
        TickData {
            start_index: t.start_index,
            length: u128_specs::wrapping_add(t.length, 1),
            volume: if take_over {
                (volume - t.volume) as u128
            } else if t.is_buy != is_buy {
                (t.volume - volume) as u128
            } else {
                u128_specs::wrapping_add(t.volume, volume)
            },
            is_buy: if take_over {
                !t.is_buy
            } else {
                t.is_buy
            },
        }
    }
}

/// Whether the update moves the tick's volume from zero to nonzero or back,
/// which is when its bitmap bit has to be flipped.
pub open spec fn crosses_zero(before: TickData, after: TickData) -> bool {
    (before.volume == 0) != (after.volume == 0)
}

/// If a tick's bitmap bit tells whether it holds volume before `set_tick_data`,
/// it still does after the update and the flip that the update requests.
pub proof fn lemma_bitmap_tracks_volume(
    before: TickData,
    volume: u128,
    is_buy: bool,
    is_existing_order: bool,
    bitmap_before: Map<i16, U256>,
    bitmap_after: Map<i16, U256>,
    tick: int,
)
    requires
        is_initialized(bitmap_before, tick) == (before.volume != 0),
        crosses_zero(before, tick_after_set(before, volume, is_buy, is_existing_order)) ==> flipped(
            bitmap_before,
            bitmap_after,
            tick,
        ),
        !crosses_zero(before, tick_after_set(before, volume, is_buy, is_existing_order))
            ==> bitmap_after == bitmap_before,
    ensures
        is_initialized(bitmap_after, tick) == (tick_after_set(
            before,
            volume,
            is_buy,
            is_existing_order,
        ).volume != 0),
{
    if crosses_zero(before, tick_after_set(before, volume, is_buy, is_existing_order)) {
        lemma_flip_toggles_only_its_tick(bitmap_before, bitmap_after, tick, tick);
    }
}

/// A tick whose bitmap word position fits in 16 bits, so that no other tick
/// shares its bit.
pub open spec fn in_word_range(t: int) -> bool {
    -0x80_0000 <= t < 0x80_0000
}

/// Every tick in word range has its bitmap bit set exactly when it holds
/// volume.
pub open spec fn bitmap_tracks_volume(ticks: Map<i128, TickData>, bitmap: Map<i16, U256>) -> bool {
    forall|t: i128|
        in_word_range(t as int) ==> is_initialized(bitmap, t as int) == (#[trigger] tick_at(
            ticks,
            t,
        ).volume != 0)
}

/// Two different ticks in word range have different bitmap positions.
proof fn lemma_distinct_positions(t: int, c: int)
    requires
        in_word_range(t),
        in_word_range(c),
        t != c,
    ensures
        word_pos_of(t) != word_pos_of(c) || bit_pos_of(t) != bit_pos_of(c),
{
    vstd::arithmetic::div_mod::lemma_fundamental_div_mod(t, 256);
    vstd::arithmetic::div_mod::lemma_fundamental_div_mod(c, 256);
    assert(-0x8000 <= t / 256 < 0x8000);
    assert(-0x8000 <= c / 256 < 0x8000);
}

/// No tick holds volume and no bit is set before the first call.
pub proof fn lemma_bitmap_tracks_volume_initially()
    ensures
        bitmap_tracks_volume(Map::<i128, TickData>::empty(), Map::<i16, U256>::empty()),
{
    assert forall|t: i128| in_word_range(t as int) implies is_initialized(
        Map::<i16, U256>::empty(),
        t as int,
    ) == (#[trigger] tick_at(Map::<i128, TickData>::empty(), t).volume != 0) by {
        lemma_bit_of_zero(bit_pos_of(t as int) as nat);
    }
}

/// If every tick's bit tells whether it holds volume, it still does after a
/// `set_tick_data` together with the flip it requests, as long as a tick whose
/// volume crosses zero is in word range: so it holds after any sequence of
/// such calls from an empty contract and an empty bitmap.
pub proof fn lemma_bitmap_tracks_volume_kept(
    ticks_before: Map<i128, TickData>,
    ticks_after: Map<i128, TickData>,
    bitmap_before: Map<i16, U256>,
    bitmap_after: Map<i16, U256>,
    tick: i128,
    volume: u128,
    is_buy: bool,
    is_existing_order: bool,
)
    requires
        bitmap_tracks_volume(ticks_before, bitmap_before),
        crosses_zero(
            tick_at(ticks_before, tick),
            tick_after_set(tick_at(ticks_before, tick), volume, is_buy, is_existing_order),
        ) ==> in_word_range(tick as int),
        ticks_after == ticks_before.insert(
            tick,
            tick_after_set(tick_at(ticks_before, tick), volume, is_buy, is_existing_order),
        ),
        crosses_zero(
            tick_at(ticks_before, tick),
            tick_after_set(tick_at(ticks_before, tick), volume, is_buy, is_existing_order),
        ) ==> flipped(bitmap_before, bitmap_after, tick as int),
        !crosses_zero(
            tick_at(ticks_before, tick),
            tick_after_set(tick_at(ticks_before, tick), volume, is_buy, is_existing_order),
        ) ==> bitmap_after == bitmap_before,
    ensures
        bitmap_tracks_volume(ticks_after, bitmap_after),
{
    let before = tick_at(ticks_before, tick);
    let after = tick_after_set(before, volume, is_buy, is_existing_order);
    assert forall|t: i128| in_word_range(t as int) implies is_initialized(
        bitmap_after,
        t as int,
    ) == (#[trigger] tick_at(ticks_after, t).volume != 0) by {
        if t == tick {
            assert(is_initialized(bitmap_before, tick as int) == (tick_at(ticks_before, tick).volume
                != 0));
            lemma_bitmap_tracks_volume(
                before,
                volume,
                is_buy,
                is_existing_order,
                bitmap_before,
                bitmap_after,
                tick as int,
            );
        } else {
            assert(tick_at(ticks_after, t) == tick_at(ticks_before, t));
            assert(is_initialized(bitmap_before, t as int) == (tick_at(ticks_before, t).volume
                != 0));
            if crosses_zero(before, after) {
                lemma_flip_toggles_only_its_tick(bitmap_before, bitmap_after, tick as int, t as int);
                lemma_distinct_positions(t as int, tick as int);
            }
        }
    }
}

impl TickManager {
    /// A fresh contract: zero addresses, no records.
    pub fn new() -> (r: TickManager)
        ensures
            r.engine_address.is_zero(),
            r.order_manager_address.is_zero(),
            r.bitmap_manager_address.is_zero(),
            r.ticks@ == Map::<i128, TickData>::empty(),
    {
        TickManager {
            engine_address: Address::zero(),
            order_manager_address: Address::zero(),
            bitmap_manager_address: Address::zero(),
            ticks: Table::new(),
        }
    }

    /// Records the addresses of the engine, bitmap and order manager contracts.
    pub fn initialize(
        &mut self,
        engine_address: Address,
        bitmap_manager_address: Address,
        order_manager_address: Address,
    )
        ensures
            final(self).engine_address == engine_address,
            final(self).bitmap_manager_address == bitmap_manager_address,
            final(self).order_manager_address == order_manager_address,
            final(self).ticks@ == old(self).ticks@,
    {
        self.engine_address = engine_address;
        self.bitmap_manager_address = bitmap_manager_address;
        self.order_manager_address = order_manager_address;
    }

    /// The record of `tick`, the empty record when there is none.
    fn tick_data(&self, tick: i128) -> (r: TickData)
        ensures
            r == tick_at(self.ticks@, tick),
    {
        match self.ticks.get(tick) {
            Some(t) => t,
            None => TickData::empty(),
        }
    }

    /// The record of `tick` after an order placement or update, as
    /// `set_tick_data` computes it.
    fn updated_record(tick_data: TickData, volume: u128, is_buy: bool, is_existing_order: bool) -> (r: TickData)
        ensures
            r == tick_after_set(tick_data, volume, is_buy, is_existing_order),
    {
        let mut updated_start_index = tick_data.start_index;
        let mut updated_length = tick_data.length;
        let mut updated_volume = tick_data.volume;
        let mut updated_is_buy = tick_data.is_buy;

        if is_existing_order {
            if volume == 0 || updated_volume == 0 {
                updated_start_index = updated_start_index.wrapping_add(1u128 % 256);
                updated_is_buy = !tick_data.is_buy;
                if volume == 0 {
                    updated_length = updated_length.wrapping_sub(1u128 % 256);
                }
            }
            updated_volume = volume;
        } else {
            if tick_data.volume == 0 || (tick_data.is_buy != is_buy && volume > tick_data.volume) {
                updated_volume = volume - tick_data.volume;
                updated_is_buy = !tick_data.is_buy;
            } else if tick_data.is_buy != is_buy {
                updated_volume = tick_data.volume - volume;
            } else {
                updated_volume = tick_data.volume.wrapping_add(volume);
            }
            updated_length = updated_length.wrapping_add(1u128 % 256);
        }
        TickData {
            start_index: updated_start_index,
            length: updated_length,
            volume: updated_volume,
            is_buy: updated_is_buy,
        }
    }

    /// Applies an order placement or update at `tick`. When the tick's volume
    /// crosses zero its bitmap bit must be flipped, which needs the tick as a
    /// 32-bit tick: the result is then that tick, `None` otherwise.
    pub fn set_tick_data(&mut self, tick: i128, volume: U256, is_buy: bool, is_existing_order: bool) -> (r: Option<i32>)
        requires
            volume@ < two_pow_128(),
            crosses_zero(
                tick_at(old(self).ticks@, tick),
                tick_after_set(tick_at(old(self).ticks@, tick), volume@ as u128, is_buy, is_existing_order),
            ) ==> i32::MIN <= tick <= i32::MAX,
        ensures
            ({
                let before = tick_at(old(self).ticks@, tick);
                let after = tick_after_set(before, volume@ as u128, is_buy, is_existing_order);
                &&& final(self).ticks@ == old(self).ticks@.insert(tick, after)
                &&& r == (if crosses_zero(before, after) {
                    Some(tick as i32)
                } else {
                    None
                })
            }),
            final(self).engine_address == old(self).engine_address,
            final(self).order_manager_address == old(self).order_manager_address,
            final(self).bitmap_manager_address == old(self).bitmap_manager_address,
    {
        let tick_data = self.tick_data(tick);
        let initial_volume = tick_data.volume;
        let updated = Self::updated_record(tick_data, volume.to_u128(), is_buy, is_existing_order);
        self.ticks.insert(tick, updated);

        if initial_volume == 0 && updated.volume != 0 || initial_volume != 0 && updated.volume == 0 {
            Some(tick as i32)
        } else {
            None
        }
    }

    /// As `set_tick_data`, or `None`, changing nothing, when the tick's volume
    /// would cross zero and the tick does not fit in 32 bits (where the
    /// contract fails converting it for the bitmap).
    pub fn set_tick_data_checked(
        &mut self,
        tick: i128,
        volume: U256,
        is_buy: bool,
        is_existing_order: bool,
    ) -> (r: Option<Option<i32>>)
        requires
            volume@ < two_pow_128(),
        ensures
            ({
                let before = tick_at(old(self).ticks@, tick);
                let after = tick_after_set(before, volume@ as u128, is_buy, is_existing_order);
                let fits = i32::MIN <= tick <= i32::MAX;
                &&& r is None <==> crosses_zero(before, after) && !fits
                &&& r is None ==> final(self).ticks@ == old(self).ticks@
                &&& r is Some ==> final(self).ticks@ == old(self).ticks@.insert(tick, after)
                &&& r is Some ==> r->0 == (if crosses_zero(before, after) {
                    Some(tick as i32)
                } else {
                    None
                })
            }),
            final(self).engine_address == old(self).engine_address,
            final(self).order_manager_address == old(self).order_manager_address,
            final(self).bitmap_manager_address == old(self).bitmap_manager_address,
    {
        let tick_data = self.tick_data(tick);
        let updated = Self::updated_record(tick_data, volume.to_u128(), is_buy, is_existing_order);
        let crosses = (tick_data.volume == 0) != (updated.volume == 0);
        let fits = i32::MIN as i128 <= tick && tick <= i32::MAX as i128;
        if crosses && !fits {
            return None;
        }
        Some(self.set_tick_data(tick, volume, is_buy, is_existing_order))
    }

    /// The record of `tick` as start, length, volume and side.
    pub fn get_tick_data(&self, tick: i128) -> (r: (U256, U256, U256, bool))
        ensures
            r.0@ == tick_at(self.ticks@, tick).start_index,
            r.1@ == tick_at(self.ticks@, tick).length,
            r.2@ == tick_at(self.ticks@, tick).volume,
            r.3 == tick_at(self.ticks@, tick).is_buy,
    {
        self.tick_data(tick).to_words()
    }
}

} // verus!
