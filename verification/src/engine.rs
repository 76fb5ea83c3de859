//! The engine contract's order placement, as a state machine: the caller
//! performs each action (a call to another contract) and feeds the reply back
//! as an event, until the machine reports that it is done.
//!
//! A placement visits the best ticks that the incoming order may trade at, in
//! order. At each tick it reads the tick's record, then the tick's orders from
//! the ring start on until an empty one, hands them to the matcher, and stops
//! once nothing of the incoming order is left. What is left after the last
//! tick is placed as a new order there; when no tick qualifies, the whole
//! order is placed at its own tick.
use vstd::prelude::*;
use crate::uint::U256;
use crate::bit_math::U256Extension;
use crate::address::Address;

verus! {

/// A resting order handed to the matcher: tick, index, volume.
pub type MatchOrder = (U256, U256, U256);

/// What the caller is asked to do next.
#[derive(Debug)]
pub enum EngineAction {
    /// Read the record of `tick` from the tick contract.
    ReadTickData { tick: U256 },
    /// Read the order at `order_index` of `tick` from the order contract.
    ReadOrder { tick: U256, order_index: U256 },
    /// Let the matcher fill `orders` (resting at `tick`, whose volume is
    /// `tick_volume`) against `incoming_volume`.
    ExecuteMatch { orders: Vec<MatchOrder>, incoming_volume: U256, tick: U256, tick_volume: U256 },
    /// Place a new order with the order contract; the placement is over.
    InsertOrder { tick: U256, volume: U256, user: Address, is_buy: bool },
    /// The placement is over.
    Done,
}

/// The reply to the last action.
#[derive(Clone, Copy, Debug)]
pub enum EngineEvent {
    /// The tick's record: ring start and resting volume.
    TickData { start_index: U256, volume: U256 },
    /// The volume of the order read.
    OrderRead { volume: U256 },
    /// What the matcher left of the incoming order.
    Matched { remaining: U256 },
}

/// Which reply the placement waits for.
#[derive(Clone, Copy, Debug, PartialEq, Eq)]
pub enum Phase {
    AwaitTickData,
    AwaitOrder,
    AwaitMatch,
    Finished,
}

/// The state of one order placement.
pub struct PlaceOrder {
    pub user: Address,
    pub is_buy: bool,
    /// The ticks to visit, best first.
    pub ticks: Vec<U256>,
    /// Index of the tick being visited.
    pub pos: usize,
    /// What is left of the incoming order.
    pub remaining: U256,
    /// The last tick visited without using up the incoming order.
    pub last_tick: U256,
    /// Resting volume of the tick being visited.
    pub tick_volume: U256,
    /// Index of the next order to read at the tick being visited.
    pub index: U256,
    /// Orders collected at the tick being visited.
    pub orders: Vec<MatchOrder>,
    pub phase: Phase,
}

/// State of the engine contract: the contracts it drives.
pub struct LiquidBookEngine {
    pub tick_manager_address: Address,
    pub order_manager_address: Address,
    pub bitmap_manager_address: Address,
    pub matcher_manager_address: Address,
}

/// Whether an incoming order may trade at `tick`: a market order anywhere, a
/// buy at or below its limit, a sell at or above it.
pub open spec fn tick_qualifies(tick: nat, limit: nat, is_buy: bool, is_market: bool) -> bool {
    is_market || (is_buy && limit >= tick) || (!is_buy && limit <= tick)
}

/// The qualifying ticks of `ticks`, in order.
pub open spec fn qualifying_ticks(ticks: Seq<U256>, limit: nat, is_buy: bool, is_market: bool) -> Seq<U256>
    decreases ticks.len(),
{
    if ticks.len() == 0 {
        Seq::empty()
    } else {
        let rest = qualifying_ticks(ticks.drop_last(), limit, is_buy, is_market);
        if tick_qualifies(ticks.last()@, limit, is_buy, is_market) {
            rest.push(ticks.last())
        } else {
            rest
        }
    }
}

/// The qualifying ticks are exactly the ticks of the list that qualify.
pub proof fn lemma_qualifying_ticks(ticks: Seq<U256>, limit: nat, is_buy: bool, is_market: bool)
    ensures
        forall|i: int|
            0 <= i < qualifying_ticks(ticks, limit, is_buy, is_market).len() ==> tick_qualifies(
                #[trigger] qualifying_ticks(ticks, limit, is_buy, is_market)[i]@,
                limit,
                is_buy,
                is_market,
            ) && ticks.contains(qualifying_ticks(ticks, limit, is_buy, is_market)[i]),
        forall|i: int|
            0 <= i < ticks.len() && tick_qualifies(#[trigger] ticks[i]@, limit, is_buy, is_market)
                ==> qualifying_ticks(ticks, limit, is_buy, is_market).contains(ticks[i]),
        qualifying_ticks(ticks, limit, is_buy, is_market).len() <= ticks.len(),
    decreases ticks.len(),
{
    if ticks.len() > 0 {
        let d = ticks.drop_last();
        lemma_qualifying_ticks(d, limit, is_buy, is_market);
        let rest = qualifying_ticks(d, limit, is_buy, is_market);
        let q = qualifying_ticks(ticks, limit, is_buy, is_market);
        assert forall|i: int| 0 <= i < q.len() implies tick_qualifies(
            #[trigger] q[i]@,
            limit,
            is_buy,
            is_market,
        ) && ticks.contains(q[i]) by {
            if i < rest.len() {
                assert(q[i] == rest[i]);
                assert(tick_qualifies(rest[i]@, limit, is_buy, is_market));
                assert(d.contains(rest[i]));
                let j = choose|j: int| 0 <= j < d.len() && d[j] == rest[i];
                assert(ticks[j] == d[j]);
            } else {
                assert(ticks[ticks.len() - 1] == ticks.last());
            }
        }
        assert forall|i: int|
            0 <= i < ticks.len() && tick_qualifies(#[trigger] ticks[i]@, limit, is_buy, is_market)
                implies q.contains(ticks[i]) by {
            if i < ticks.len() - 1 {
                assert(d[i] == ticks[i]);
                assert(tick_qualifies(d[i]@, limit, is_buy, is_market));
                assert(rest.contains(d[i]));
                let j = choose|j: int| 0 <= j < rest.len() && rest[j] == d[i];
                assert(q[j] == rest[j]);
            } else {
                assert(q[q.len() - 1] == ticks.last());
            }
        }
    }
}

/// Which ticks an order keeps, stated by side: a market order keeps every
/// tick; a buy keeps exactly the ticks at or below its limit, a sell exactly
/// those at or above it; and every kept tick is one of the given ticks.
pub proof fn lemma_qualifying_ticks_by_side(ticks: Seq<U256>, limit: nat, is_buy: bool, is_market: bool)
    ensures
        forall|i: int|
            0 <= i < ticks.len() ==> (qualifying_ticks(ticks, limit, is_buy, is_market).contains(
                #[trigger] ticks[i],
            ) <== (is_market || (is_buy && ticks[i]@ <= limit) || (!is_buy && ticks[i]@ >= limit))),
        forall|i: int|
            0 <= i < qualifying_ticks(ticks, limit, is_buy, is_market).len() ==> {
                let t = #[trigger] qualifying_ticks(ticks, limit, is_buy, is_market)[i];
                &&& ticks.contains(t)
                &&& is_market || (is_buy && t@ <= limit) || (!is_buy && t@ >= limit)
            },
        is_market ==> qualifying_ticks(ticks, limit, is_buy, is_market) == ticks,
    decreases ticks.len(),
{
    lemma_qualifying_ticks(ticks, limit, is_buy, is_market);
    let q = qualifying_ticks(ticks, limit, is_buy, is_market);
    assert forall|i: int|
        0 <= i < ticks.len() && (is_market || (is_buy && ticks[i]@ <= limit) || (!is_buy
            && ticks[i]@ >= limit)) implies q.contains(#[trigger] ticks[i]) by {
        assert(tick_qualifies(ticks[i]@, limit, is_buy, is_market));
    }
    assert forall|i: int| 0 <= i < q.len() implies {
        let t = #[trigger] q[i];
        &&& ticks.contains(t)
        &&& is_market || (is_buy && t@ <= limit) || (!is_buy && t@ >= limit)
    } by {
        assert(tick_qualifies(q[i]@, limit, is_buy, is_market));
    }
    if is_market && ticks.len() > 0 {
        lemma_qualifying_ticks_by_side(ticks.drop_last(), limit, is_buy, is_market);
        assert(ticks.drop_last().push(ticks.last()) =~= ticks);
    }
}

/// The ticks of `possible_ticks` at which the incoming order may trade, in
/// order.
pub fn filter_ticks(possible_ticks: &Vec<U256>, incoming_order_tick: U256, is_buy: bool, is_market: bool) -> (r: Vec<U256>)
    ensures
        r@ == qualifying_ticks(possible_ticks@, incoming_order_tick@, is_buy, is_market),
        forall|i: int|
            0 <= i < possible_ticks@.len() && (is_market || (is_buy && possible_ticks@[i]@
                <= incoming_order_tick@) || (!is_buy && possible_ticks@[i]@ >= incoming_order_tick@))
                ==> r@.contains(#[trigger] possible_ticks@[i]),
        forall|i: int|
            0 <= i < r@.len() ==> possible_ticks@.contains(#[trigger] r@[i]) && (is_market || (is_buy
                && r@[i]@ <= incoming_order_tick@) || (!is_buy && r@[i]@ >= incoming_order_tick@)),
        is_market ==> r@ == possible_ticks@,
{
    let mut kept: Vec<U256> = Vec::new();
    let mut i: usize = 0;
    while i < possible_ticks.len()
        invariant
            i <= possible_ticks@.len(),
            kept@ == qualifying_ticks(
                possible_ticks@.subrange(0, i as int),
                incoming_order_tick@,
                is_buy,
                is_market,
            ),
        decreases possible_ticks@.len() - i,
    {
        let tick = possible_ticks[i];
        let ghost prefix = possible_ticks@.subrange(0, i + 1);
        assert(prefix.drop_last() =~= possible_ticks@.subrange(0, i as int));
        assert(prefix.last() == tick);
        let keep = if is_market {
            true
        } else if is_buy {
            !incoming_order_tick.less_than(tick)
        } else {
            !tick.less_than(incoming_order_tick)
        };
        if keep {
            kept.push(tick);
        }
        i = i + 1;
    }
    assert(possible_ticks@.subrange(0, possible_ticks@.len() as int) =~= possible_ticks@);
    proof {
        lemma_qualifying_ticks_by_side(possible_ticks@, incoming_order_tick@, is_buy, is_market);
    }
    kept
}

impl PlaceOrder {
    /// The placement after a tick has been dealt with: it is over when
    /// nothing is left; otherwise it moves on to the next tick, or places
    /// what is left at this tick when there is none.
    pub open spec fn after_tick_spec(self) -> (PlaceOrder, EngineAction) {
        if self.remaining@ == 0 {
            (PlaceOrder { phase: Phase::Finished, ..self }, EngineAction::Done)
        } else {
            let last = self.ticks@[self.pos as int];
            if self.pos + 1 < self.ticks@.len() {
                (
                    PlaceOrder {
                        last_tick: last,
                        pos: (self.pos + 1) as usize,
                        phase: Phase::AwaitTickData,
                        ..self
                    },
                    EngineAction::ReadTickData { tick: self.ticks@[self.pos + 1] },
                )
            } else {
                (
                    PlaceOrder {
                        last_tick: last,
                        pos: (self.pos + 1) as usize,
                        phase: Phase::Finished,
                        ..self
                    },
                    EngineAction::InsertOrder {
                        tick: last,
                        volume: self.remaining,
                        user: self.user,
                        is_buy: self.is_buy,
                    },
                )
            }
        }
    }

    /// Well-formed placement state: while it waits, the tick it visits exists.
    pub open spec fn wf(self) -> bool {
        self.phase != Phase::Finished ==> self.pos < self.ticks@.len()
    }

    fn after_tick(&mut self) -> (r: EngineAction)
        requires
            old(self).wf(),
            old(self).phase != Phase::Finished,
        ensures
            final(self).wf(),
            final(self).user == old(self).after_tick_spec().0.user,
            final(self).is_buy == old(self).after_tick_spec().0.is_buy,
            final(self).ticks@ == old(self).after_tick_spec().0.ticks@,
            final(self).pos == old(self).after_tick_spec().0.pos,
            final(self).remaining == old(self).after_tick_spec().0.remaining,
            final(self).last_tick == old(self).after_tick_spec().0.last_tick,
            final(self).tick_volume == old(self).after_tick_spec().0.tick_volume,
            final(self).index == old(self).after_tick_spec().0.index,
            final(self).orders@ == old(self).after_tick_spec().0.orders@,
            final(self).phase == old(self).after_tick_spec().0.phase,
            r == old(self).after_tick_spec().1,
    {
        if self.remaining.is_zero() {
            self.phase = Phase::Finished;
            return EngineAction::Done;
        }
        assert(self.pos < self.ticks.len());
        self.last_tick = self.ticks[self.pos];
        self.pos = self.pos + 1;
        if self.pos < self.ticks.len() {
            self.phase = Phase::AwaitTickData;
            EngineAction::ReadTickData { tick: self.ticks[self.pos] }
        } else {
            self.phase = Phase::Finished;
            EngineAction::InsertOrder {
                tick: self.last_tick,
                volume: self.remaining,
                user: self.user,
                is_buy: self.is_buy,
            }
        }
    }

    /// Feeds the reply to the last action; returns the next action, or `None`
    /// (changing nothing) when the reply is not the one awaited.
    pub fn step(&mut self, event: EngineEvent) -> (r: Option<EngineAction>)
        requires
            old(self).wf(),
        ensures
            final(self).wf(),
            final(self).user == old(self).user,
            final(self).is_buy == old(self).is_buy,
            final(self).ticks@ == old(self).ticks@,
            r matches Some(EngineAction::InsertOrder { tick, volume, user, is_buy }) ==> {
                &&& user == old(self).user
                &&& is_buy == old(self).is_buy
                &&& volume == final(self).remaining
                &&& volume@ != 0
                &&& tick == final(self).last_tick
                &&& final(self).phase == Phase::Finished
            },
            r matches Some(EngineAction::Done) ==> final(self).remaining@ == 0 && final(self).phase
                == Phase::Finished,
            match (old(self).phase, event) {
                (Phase::AwaitTickData, EngineEvent::TickData { start_index, volume }) => {
                    &&& final(self).tick_volume == volume
                    &&& final(self).remaining == old(self).remaining
                    &&& if volume@ != 0 {
                        &&& final(self).phase == Phase::AwaitOrder
                        &&& final(self).pos == old(self).pos
                        &&& final(self).index@ == start_index@ % 256
                        &&& final(self).orders@ == Seq::<MatchOrder>::empty()
                        &&& r == Some(
                            EngineAction::ReadOrder {
                                tick: old(self).ticks@[old(self).pos as int],
                                order_index: final(self).index,
                            },
                        )
                    } else {
                        let (s, a) = PlaceOrder {
                            tick_volume: volume,
                            ..*old(self)
                        }.after_tick_spec();
                        &&& final(self).index == old(self).index
                        &&& final(self).orders@ == Seq::<MatchOrder>::empty()
                        &&& final(self).phase == s.phase
                        &&& final(self).pos == s.pos
                        &&& final(self).last_tick == s.last_tick
                        &&& r == Some(a)
                    }
                },
                (Phase::AwaitOrder, EngineEvent::OrderRead { volume }) => {
                    let tick = old(self).ticks@[old(self).pos as int];
                    &&& final(self).remaining == old(self).remaining
                    &&& final(self).tick_volume == old(self).tick_volume
                    &&& if volume@ != 0 {
                        &&& final(self).phase == Phase::AwaitOrder
                        &&& final(self).pos == old(self).pos
                        &&& final(self).orders@ == old(self).orders@.push(
                            (tick, old(self).index, volume),
                        )
                        &&& final(self).index@ == (old(self).index@ + 1) % 256
                        &&& r == Some(
                            EngineAction::ReadOrder { tick, order_index: final(self).index },
                        )
                    } else if old(self).orders@.len() > 0 {
                        &&& final(self).phase == Phase::AwaitMatch
                        &&& final(self).pos == old(self).pos
                        &&& final(self).orders@ == Seq::<MatchOrder>::empty()
                        &&& r matches Some(
                            EngineAction::ExecuteMatch { orders, incoming_volume, tick: t, tick_volume },
                        ) && orders@ == old(self).orders@ && incoming_volume == old(self).remaining
                            && t == tick && tick_volume == old(self).tick_volume
                    } else {
                        let (s, a) = old(self).after_tick_spec();
                        &&& final(self).index == old(self).index
                        &&& final(self).orders@ == old(self).orders@
                        &&& final(self).phase == s.phase
                        &&& final(self).pos == s.pos
                        &&& final(self).last_tick == s.last_tick
                        &&& r == Some(a)
                    }
                },
                (Phase::AwaitMatch, EngineEvent::Matched { remaining }) => {
                    let (s, a) = PlaceOrder { remaining, ..*old(self) }.after_tick_spec();
                    &&& final(self).remaining == remaining
                    &&& final(self).tick_volume == old(self).tick_volume
                    &&& final(self).index == old(self).index
                    &&& final(self).orders@ == old(self).orders@
                    &&& final(self).phase == s.phase
                    &&& final(self).pos == s.pos
                    &&& final(self).last_tick == s.last_tick
                    &&& r == Some(a)
                },
                _ => {
                    &&& r is None
                    &&& final(self).phase == old(self).phase
                    &&& final(self).pos == old(self).pos
                    &&& final(self).remaining == old(self).remaining
                    &&& final(self).last_tick == old(self).last_tick
                    &&& final(self).tick_volume == old(self).tick_volume
                    &&& final(self).index == old(self).index
                    &&& final(self).orders@ == old(self).orders@
                },
            },
    {
        match (self.phase, event) {
            (Phase::AwaitTickData, EngineEvent::TickData { start_index, volume }) => {
                self.tick_volume = volume;
                self.orders = Vec::new();
                if !volume.is_zero() {
                    self.index = start_index.rem(U256::from_u128(256));
                    self.phase = Phase::AwaitOrder;
                    Some(EngineAction::ReadOrder { tick: self.ticks[self.pos], order_index: self.index })
                } else {
                    Some(self.after_tick())
                }
            },
            (Phase::AwaitOrder, EngineEvent::OrderRead { volume }) => {
                let tick = self.ticks[self.pos];
                if !volume.is_zero() {
                    self.orders.push((tick, self.index, volume));
                    let ghost old_index = self.index@;
                    self.index = self.index.wrapping_add(U256::from_u128(1)).rem(
                        U256::from_u128(256),
                    );
                    proof {
                        crate::uint::lemma_word_modulus();
                        vstd::arithmetic::power2::lemma_pow2_adds(8, 248);
                        vstd::arithmetic::power2::lemma2_to64();
                        vstd::arithmetic::div_mod::lemma_mod_mod(
                            (old_index + 1) as int,
                            256,
                            vstd::arithmetic::power2::pow2(248) as int,
                        );
                    }
                    Some(EngineAction::ReadOrder { tick, order_index: self.index })
                } else if self.orders.len() > 0 {
                    self.phase = Phase::AwaitMatch;
                    let mut orders: Vec<MatchOrder> = Vec::new();
                    std::mem::swap(&mut orders, &mut self.orders);
                    Some(
                        EngineAction::ExecuteMatch {
                            orders,
                            incoming_volume: self.remaining,
                            tick,
                            tick_volume: self.tick_volume,
                        },
                    )
                } else {
                    Some(self.after_tick())
                }
            },
            (Phase::AwaitMatch, EngineEvent::Matched { remaining }) => {
                self.remaining = remaining;
                Some(self.after_tick())
            },
            _ => None,
        }
    }
}

/// When a placement is done with a tick, it ends with nothing placed if
/// nothing is left; otherwise it moves on to the next tick, or, after the
/// last one, rests what is left at that tick as an order of the placement's
/// own user and side.
pub proof fn lemma_after_tick_rests_remainder(p: PlaceOrder)
    requires
        p.wf(),
        p.phase != Phase::Finished,
    ensures
        p.remaining@ == 0 <==> p.after_tick_spec().1 == EngineAction::Done,
        p.after_tick_spec().1 matches EngineAction::InsertOrder { tick, volume, user, is_buy } ==> {
            &&& tick == p.ticks@[p.pos as int]
            &&& volume == p.remaining
            &&& user == p.user
            &&& is_buy == p.is_buy
            &&& p.pos + 1 == p.ticks@.len()
        },
        p.after_tick_spec().1 matches EngineAction::ReadTickData { tick } ==> p.pos + 1
            < p.ticks@.len() && tick == p.ticks@[p.pos + 1],
        p.remaining@ != 0 ==> p.after_tick_spec().1 is InsertOrder || p.after_tick_spec().1 is ReadTickData,
{
}

impl LiquidBookEngine {
    /// A fresh contract with zero addresses.
    pub fn new() -> (r: LiquidBookEngine)
        ensures
            r.tick_manager_address.is_zero(),
            r.order_manager_address.is_zero(),
            r.bitmap_manager_address.is_zero(),
            r.matcher_manager_address.is_zero(),
    {
        LiquidBookEngine {
            tick_manager_address: Address::zero(),
            order_manager_address: Address::zero(),
            bitmap_manager_address: Address::zero(),
            matcher_manager_address: Address::zero(),
        }
    }

    /// Records the addresses of the contracts the engine drives.
    pub fn initialize(
        &mut self,
        tick_manager_address: Address,
        order_manager_address: Address,
        bitmap_manager_address: Address,
        matcher_manager_address: Address,
    )
        ensures
            final(self).tick_manager_address == tick_manager_address,
            final(self).order_manager_address == order_manager_address,
            final(self).bitmap_manager_address == bitmap_manager_address,
            final(self).matcher_manager_address == matcher_manager_address,
    {
        self.tick_manager_address = tick_manager_address;
        self.order_manager_address = order_manager_address;
        self.bitmap_manager_address = bitmap_manager_address;
        self.matcher_manager_address = matcher_manager_address;
    }

    /// Starts placing an order, given the bitmap contract's best ticks for its
    /// side. Returns the placement and its first action: reading the first
    /// qualifying tick, or, when none qualifies, placing the whole order at
    /// its own tick.
    pub fn place_order(
        &self,
        incoming_order_tick: U256,
        incoming_order_volume: U256,
        incoming_order_user: Address,
        incoming_order_is_buy: bool,
        incoming_order_is_market: bool,
        possible_ticks: Vec<U256>,
    ) -> (r: (PlaceOrder, EngineAction))
        ensures
            r.0.wf(),
            r.0.user == incoming_order_user,
            r.0.is_buy == incoming_order_is_buy,
            r.0.ticks@ == qualifying_ticks(
                possible_ticks@,
                incoming_order_tick@,
                incoming_order_is_buy,
                incoming_order_is_market,
            ),
            forall|i: int|
                0 <= i < possible_ticks@.len() && (incoming_order_is_market || (incoming_order_is_buy
                    && possible_ticks@[i]@ <= incoming_order_tick@) || (!incoming_order_is_buy
                    && possible_ticks@[i]@ >= incoming_order_tick@)) ==> r.0.ticks@.contains(
                    #[trigger] possible_ticks@[i],
                ),
            forall|i: int|
                0 <= i < r.0.ticks@.len() ==> possible_ticks@.contains(#[trigger] r.0.ticks@[i]) && (
                incoming_order_is_market || (incoming_order_is_buy && r.0.ticks@[i]@
                    <= incoming_order_tick@) || (!incoming_order_is_buy && r.0.ticks@[i]@
                    >= incoming_order_tick@)),
            r.0.pos == 0,
            r.0.remaining == incoming_order_volume,
            r.0.last_tick@ == 0,
            r.0.ticks@.len() > 0 ==> r.0.phase == Phase::AwaitTickData && r.1 == (
            EngineAction::ReadTickData { tick: r.0.ticks@[0] }),
            r.0.ticks@.len() == 0 ==> r.0.phase == Phase::Finished && r.1 == (
            EngineAction::InsertOrder {
                tick: incoming_order_tick,
                volume: incoming_order_volume,
                user: incoming_order_user,
                is_buy: incoming_order_is_buy,
            }),
    {
        let ticks = filter_ticks(
            &possible_ticks,
            incoming_order_tick,
            incoming_order_is_buy,
            incoming_order_is_market,
        );
        let empty = ticks.len() == 0;
        let first = if empty {
            EngineAction::InsertOrder {
                tick: incoming_order_tick,
                volume: incoming_order_volume,
                user: incoming_order_user,
                is_buy: incoming_order_is_buy,
            }
        } else {
            EngineAction::ReadTickData { tick: ticks[0] }
        };
        let placement = PlaceOrder {
            user: incoming_order_user,
            is_buy: incoming_order_is_buy,
            ticks,
            pos: 0,
            remaining: incoming_order_volume,
            last_tick: U256::from_u128(0),
            tick_volume: U256::from_u128(0),
            index: U256::from_u128(0),
            orders: Vec::new(),
            phase: if empty {
                Phase::Finished
            } else {
                Phase::AwaitTickData
            },
        };
        (placement, first)
    }
}

} // verus!
