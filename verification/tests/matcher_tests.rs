use liquid_book::address::Address;
use liquid_book::matcher::{MatcherManager, ValidOrder};
use liquid_book::tick::TickUpdate;
use liquid_book::uint::U256;

fn word(v: u128) -> U256 {
    U256::from_u128(v)
}

fn addr(b: u8) -> Address {
    Address::new([b; 20])
}

fn book() -> Vec<ValidOrder> {
    vec![(7, word(0), word(30), addr(1)), (7, word(1), word(50), addr(2)), (7, word(2), word(40), addr(3))]
}

#[test]
fn partial_fill_stops_when_the_incoming_order_is_used_up() {
    let matcher = MatcherManager::new();
    let out = matcher.execute(addr(9), true, false, book(), word(60), 7, word(120), addr(9), true);
    assert_eq!(out.fills.len(), 2);
    assert_eq!(out.fills[0].volume, word(30));
    assert_eq!(out.fills[0].remaining_order_volume, word(0));
    assert_eq!(out.fills[1].volume, word(30));
    assert_eq!(out.fills[1].remaining_order_volume, word(20));
    assert_eq!(out.fills[1].order_user, addr(2));
    assert_eq!(out.fills[1].order_index, word(1));
    assert_eq!(out.remaining_incoming_volume, word(0));
    assert_eq!(out.remaining_tick_volume, word(60));
    assert_eq!(out.tick_update, TickUpdate { tick: 7, volume: word(60), is_buy: true, is_existing_order: true });
}

#[test]
fn large_incoming_order_takes_every_order() {
    let matcher = MatcherManager::new();
    let out = matcher.execute(addr(9), false, true, book(), word(200), 7, word(120), addr(9), false);
    assert_eq!(out.fills.len(), 3);
    let total: u128 = out.fills.iter().map(|f| if f.volume == word(30) { 30 } else if f.volume == word(50) { 50 } else { 40 }).sum();
    assert_eq!(total, 120);
    assert_eq!(out.remaining_incoming_volume, word(80));
    assert_eq!(out.remaining_tick_volume, word(0));
    assert!(!out.tick_update.is_buy);
}

#[test]
fn exact_fill_of_an_order() {
    let matcher = MatcherManager::new();
    let out = matcher.execute(addr(9), true, false, book(), word(30), 7, word(120), addr(9), true);
    assert_eq!(out.fills.len(), 1);
    assert_eq!(out.fills[0].volume, word(30));
    assert_eq!(out.remaining_incoming_volume, word(0));
    assert_eq!(out.remaining_tick_volume, word(90));
}

#[test]
fn zero_incoming_order_touches_the_first_order_only() {
    let matcher = MatcherManager::new();
    let out = matcher.execute(addr(9), true, false, book(), word(0), 7, word(120), addr(9), true);
    assert_eq!(out.fills.len(), 1);
    assert_eq!(out.fills[0].volume, word(0));
    assert_eq!(out.fills[0].remaining_order_volume, word(30));
    assert_eq!(out.remaining_tick_volume, word(120));
}

#[test]
fn tick_volume_wraps_below_zero() {
    let matcher = MatcherManager::new();
    let out = matcher.execute(addr(9), true, false, book(), word(30), 7, word(10), addr(9), true);
    assert_eq!(out.remaining_tick_volume, U256::from_limbs([u64::MAX - 19, u64::MAX, u64::MAX, u64::MAX]));
}

#[test]
fn no_orders_no_fills() {
    let matcher = MatcherManager::new();
    let out = matcher.execute(addr(9), true, false, Vec::new(), word(10), 7, word(10), addr(9), true);
    assert!(out.fills.is_empty());
    assert_eq!(out.remaining_incoming_volume, word(10));
}

#[test]
fn matcher_addresses() {
    let mut matcher = MatcherManager::new();
    matcher.initialize(addr(1), addr(2), addr(3), addr(4));
    assert_eq!(matcher.tick_manager_address, addr(1));
    assert_eq!(matcher.bitmap_manager_address, addr(2));
    assert_eq!(matcher.order_manager_address, addr(3));
    assert_eq!(matcher.pool_address, addr(4));
}
