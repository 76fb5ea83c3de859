//! The matcher contract: fills resting orders of one tick against an
//! incoming order, oldest first, until either side runs out.
use vstd::prelude::*;
use crate::uint::{U256, word_modulus};
use crate::bit_math::U256Extension;
use crate::address::Address;
use crate::tick::TickUpdate;

verus! {

/// A resting order offered for matching: tick, index in the tick's ring,
/// volume, and owner.
pub type ValidOrder = (i128, U256, U256, Address);

/// One resting order's part in a match.
#[derive(Clone, Copy, Debug, PartialEq, Eq)]
pub struct Fill {
    pub tick: i128,
    pub order_index: U256,
    pub order_user: Address,
    /// Volume traded against this order.
    pub volume: U256,
    /// What is left of the order afterwards.
    pub remaining_order_volume: U256,
}

/// What a match decided: the fills in order, what is left of the incoming
/// order and of the tick's volume, and the tick update to send
/// (the tick, its remaining volume, the side, as an existing order).
#[derive(Debug)]
pub struct MatchOutcome {
    pub fills: Vec<Fill>,
    pub remaining_incoming_volume: U256,
    pub remaining_tick_volume: U256,
    pub tick_update: TickUpdate,
}

/// State of the matcher contract: the contracts it reports to.
pub struct MatcherManager {
    pub tick_manager_address: Address,
    pub bitmap_manager_address: Address,
    pub order_manager_address: Address,
    pub pool_address: Address,
}

/// Volume traded against a resting order of `order_volume` when `incoming`
/// is still wanted.
pub open spec fn fill_of(order_volume: nat, incoming: nat) -> nat {
    if order_volume <= incoming {
        order_volume
    } else {
        incoming
    }
}

/// Word subtraction: `a - b` modulo 2^256.
pub open spec fn sub_mod(a: nat, b: nat) -> nat {
    if a >= b {
        (a - b) as nat
    } else {
        (a + word_modulus() - b) as nat
    }
}

/// The volumes filled, what is left of the incoming order, and what is left
/// of the tick's volume after matching `orders` in turn, stopping after the
/// order that exhausts the incoming volume.
pub open spec fn match_orders(orders: Seq<ValidOrder>, incoming: nat, tick_volume: nat) -> (
    Seq<nat>,
    nat,
    nat,
)
    decreases orders.len(),
{
    if orders.len() == 0 {
        (Seq::empty(), incoming, tick_volume)
    } else {
        let f = fill_of(orders[0].2@, incoming);
        let inc = (incoming - f) as nat;
        let tv = sub_mod(tick_volume, f);
        if inc == 0 {
            (seq![f], 0, tv)
        } else {
            let rest = match_orders(orders.drop_first(), inc, tv);
            (seq![f] + rest.0, rest.1, rest.2)
        }
    }
}

/// Sum of a sequence of volumes.
pub open spec fn total(s: Seq<nat>) -> nat
    decreases s.len(),
{
    if s.len() == 0 {
        0
    } else {
        s[0] + total(s.drop_first())
    }
}

/// Matching trades exactly what the incoming order gives up, never more than
/// an order holds; and it stops short of the orders only when the incoming
/// volume is used up.
pub proof fn lemma_match_conserves(orders: Seq<ValidOrder>, incoming: nat, tick_volume: nat)
    ensures
        ({
            let (fills, left, _) = match_orders(orders, incoming, tick_volume);
            &&& total(fills) + left == incoming
            &&& fills.len() <= orders.len()
            &&& forall|i: int| 0 <= i < fills.len() ==> fills[i] <= orders[i].2@
            &&& left > 0 ==> fills.len() == orders.len() && forall|i: int|
                0 <= i < fills.len() ==> fills[i] == orders[i].2@
        }),
    decreases orders.len(),
{
    if orders.len() > 0 {
        let f = fill_of(orders[0].2@, incoming);
        let inc = (incoming - f) as nat;
        let tv = sub_mod(tick_volume, f);
        if inc == 0 {
            assert(total(seq![f]) == f) by {
                assert(seq![f].drop_first() =~= Seq::<nat>::empty());
                assert(total(Seq::<nat>::empty()) == 0);
            }
        } else {
            lemma_match_conserves(orders.drop_first(), inc, tv);
            let rest = match_orders(orders.drop_first(), inc, tv);
            assert((seq![f] + rest.0).drop_first() =~= rest.0);
            assert forall|i: int| 0 <= i < rest.0.len() + 1 implies (seq![f] + rest.0)[i]
                <= orders[i].2@ by {
                if i > 0 {
                    assert((seq![f] + rest.0)[i] == rest.0[i - 1]);
                    assert(orders.drop_first()[i - 1] == orders[i]);
                }
            }
            if rest.1 > 0 {
                assert forall|i: int| 0 <= i < rest.0.len() + 1 implies (seq![f] + rest.0)[i]
                    == orders[i].2@ by {
                    if i > 0 {
                        assert((seq![f] + rest.0)[i] == rest.0[i - 1]);
                        assert(orders.drop_first()[i - 1] == orders[i]);
                    }
                }
            }
        }
    }
}

impl MatcherManager {
    /// A fresh contract with zero addresses.
    pub fn new() -> (r: MatcherManager)
        ensures
            r.tick_manager_address.is_zero(),
            r.bitmap_manager_address.is_zero(),
            r.order_manager_address.is_zero(),
            r.pool_address.is_zero(),
    {
        MatcherManager {
            tick_manager_address: Address::zero(),
            bitmap_manager_address: Address::zero(),
            order_manager_address: Address::zero(),
            pool_address: Address::zero(),
        }
    }

    /// Records the addresses of the contracts the matcher reports to.
    pub fn initialize(
        &mut self,
        tick_manager_address: Address,
        bitmap_manager_address: Address,
        order_manager_address: Address,
        pool_address: Address,
    )
        ensures
            final(self).tick_manager_address == tick_manager_address,
            final(self).bitmap_manager_address == bitmap_manager_address,
            final(self).order_manager_address == order_manager_address,
            final(self).pool_address == pool_address,
    {
        self.tick_manager_address = tick_manager_address;
        self.bitmap_manager_address = bitmap_manager_address;
        self.order_manager_address = order_manager_address;
        self.pool_address = pool_address;
    }

    /// Matches `incoming_order_volume` against `valid_orders` (all resting at
    /// `tick_value`, whose volume is `tick_volume`), oldest first, stopping
    /// once the incoming volume is used up.
    pub fn execute(
        &self,
        user: Address,
        is_buy: bool,
        is_market: bool,
        valid_orders: Vec<ValidOrder>,
        incoming_order_volume: U256,
        tick_value: i128,
        tick_volume: U256,
        incoming_order_user: Address,
        incoming_order_is_buy: bool,
    ) -> (r: MatchOutcome)
        ensures
            ({
                let (fills, left, tick_left) = match_orders(
                    valid_orders@,
                    incoming_order_volume@,
                    tick_volume@,
                );
                &&& r.fills@.len() == fills.len()
                &&& forall|i: int|
                    #![trigger r.fills@[i]]
                    0 <= i < fills.len() ==> {
                        &&& r.fills@[i].volume@ == fills[i]
                        &&& r.fills@[i].remaining_order_volume@ == valid_orders@[i].2@ - fills[i]
                        &&& r.fills@[i].tick == valid_orders@[i].0
                        &&& r.fills@[i].order_index == valid_orders@[i].1
                        &&& r.fills@[i].order_user == valid_orders@[i].3
                    }
                &&& r.remaining_incoming_volume@ == left
                &&& r.remaining_tick_volume@ == tick_left
                &&& r.tick_update.tick == tick_value
                &&& r.tick_update.volume@ == tick_left
                &&& r.tick_update.is_buy == is_buy
                &&& r.tick_update.is_existing_order
            }),
    {
        let ghost all = valid_orders@;
        let mut remaining_incoming_order_volume = incoming_order_volume;
        let mut remaining_tick_volume = tick_volume;
        let mut fills: Vec<Fill> = Vec::new();
        let mut i: usize = 0;
        let mut done = false;
        assert(all.subrange(0, all.len() as int) =~= all);
        assert(fills@.map_values(|f: Fill| f.volume@) =~= Seq::<nat>::empty());
        while i < valid_orders.len() && !done
            invariant
                all == valid_orders@,
                i <= all.len(),
                fills@.len() == i,
                done ==> i > 0,
                ({
                    let (fs, left, tick_left) = match_orders(all, incoming_order_volume@, tick_volume@);
                    let (rs, rleft, rtick) = match_orders(
                        all.subrange(i as int, all.len() as int),
                        remaining_incoming_order_volume@,
                        remaining_tick_volume@,
                    );
                    &&& (done ==> remaining_incoming_order_volume@ == 0 && fs.len() == i
                        && left == 0 && tick_left == remaining_tick_volume@)
                    &&& (!done ==> remaining_incoming_order_volume@ > 0 || i == 0)
                    &&& (!done ==> fs =~= fills@.map_values(|f: Fill| f.volume@) + rs && left
                        == rleft && tick_left == rtick)
                    &&& (done ==> fs =~= fills@.map_values(|f: Fill| f.volume@))
                }),
                forall|j: int|
                    #![trigger fills@[j]]
                    0 <= j < i ==> {
                        &&& fills@[j].volume@ <= all[j].2@
                        &&& fills@[j].remaining_order_volume@ == all[j].2@ - fills@[j].volume@
                        &&& fills@[j].tick == all[j].0
                        &&& fills@[j].order_index == all[j].1
                        &&& fills@[j].order_user == all[j].3
                    },
            decreases all.len() - i,
        {
            let ghost rest = all.subrange(i as int, all.len() as int);
            let ghost inc = remaining_incoming_order_volume@;
            let ghost tv = remaining_tick_volume@;
            let ghost old_fills = fills@;
            assert(rest[0] == all[i as int]);
            assert(rest.drop_first() =~= all.subrange(i + 1, all.len() as int));
            let (order_tick, order_index, order_volume, order_user) = valid_orders[i];
            let mut remaining_order_volume = order_volume;
            let use_order_volume;
            if remaining_order_volume.less_than(remaining_incoming_order_volume) {
                remaining_incoming_order_volume = remaining_incoming_order_volume.wrapping_sub(
                    order_volume,
                );
                remaining_order_volume = U256::zero();
                use_order_volume = order_volume;
            } else if remaining_order_volume.equals(remaining_incoming_order_volume) {
                remaining_order_volume = U256::zero();
                remaining_incoming_order_volume = U256::zero();
                use_order_volume = order_volume;
            } else {
                remaining_order_volume = remaining_order_volume.wrapping_sub(
                    remaining_incoming_order_volume,
                );
                use_order_volume = remaining_incoming_order_volume;
                remaining_incoming_order_volume = U256::zero();
            }
            let filled = order_volume.wrapping_sub(remaining_order_volume);
            remaining_tick_volume = remaining_tick_volume.wrapping_sub(filled);
            fills.push(
                Fill {
                    tick: order_tick,
                    order_index,
                    order_user,
                    volume: filled,
                    remaining_order_volume,
                },
            );
            proof {
                let f = fill_of(order_volume@, inc);
                assert(filled@ == f);
                assert(remaining_incoming_order_volume@ == inc - f);
                assert(remaining_tick_volume@ == sub_mod(tv, f));
                assert(fills@.map_values(|x: Fill| x.volume@) =~= old_fills.map_values(
                    |x: Fill| x.volume@,
                ).push(f));
            }
            if remaining_incoming_order_volume.is_zero() {
                done = true;
            }
            i = i + 1;
        }
        MatchOutcome {
            fills,
            remaining_incoming_volume: remaining_incoming_order_volume,
            remaining_tick_volume,
            tick_update: TickUpdate {
                tick: tick_value,
                volume: remaining_tick_volume,
                is_buy,
                is_existing_order: true,
            },
        }
    }
}

} // verus!
