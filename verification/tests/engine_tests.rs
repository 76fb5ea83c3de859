use liquid_book::address::Address;
use liquid_book::engine::{filter_ticks, EngineAction, EngineEvent, LiquidBookEngine, Phase};
use liquid_book::uint::U256;

fn word(v: u128) -> U256 {
    U256::from_u128(v)
}

fn addr(b: u8) -> Address {
    Address::new([b; 20])
}

#[test]
fn filter_keeps_ticks_on_the_right_side_of_the_limit() {
    let ticks = vec![word(100), word(90), word(80)];
    assert_eq!(filter_ticks(&ticks, word(95), true, false), vec![word(90), word(80)]);
    assert_eq!(filter_ticks(&ticks, word(95), false, false), vec![word(100)]);
    assert_eq!(filter_ticks(&ticks, word(95), true, true), ticks);
    assert_eq!(filter_ticks(&ticks, word(90), true, false), vec![word(90), word(80)]);
}

#[test]
fn no_qualifying_tick_places_the_whole_order() {
    let engine = LiquidBookEngine::new();
    let (p, action) = engine.place_order(word(50), word(10), addr(1), true, false, vec![word(60)]);
    assert_eq!(p.phase, Phase::Finished);
    match action {
        EngineAction::InsertOrder { tick, volume, user, is_buy } => {
            assert_eq!((tick, volume, user, is_buy), (word(50), word(10), addr(1), true));
        }
        _ => panic!("expected an insertion"),
    }
}

#[test]
fn placement_reads_orders_and_matches_them() {
    let engine = LiquidBookEngine::new();
    let (mut p, action) = engine.place_order(word(100), word(70), addr(1), true, false, vec![word(90), word(95)]);
    assert!(matches!(action, EngineAction::ReadTickData { tick } if tick == word(90)));
    let a = p.step(EngineEvent::TickData { start_index: word(258), volume: word(50) }).unwrap();
    assert!(matches!(a, EngineAction::ReadOrder { tick, order_index } if tick == word(90) && order_index == word(2)));
    let a = p.step(EngineEvent::OrderRead { volume: word(30) }).unwrap();
    assert!(matches!(a, EngineAction::ReadOrder { order_index, .. } if order_index == word(3)));
    let a = p.step(EngineEvent::OrderRead { volume: word(20) }).unwrap();
    assert!(matches!(a, EngineAction::ReadOrder { order_index, .. } if order_index == word(4)));
    let a = p.step(EngineEvent::OrderRead { volume: word(0) }).unwrap();
    match a {
        EngineAction::ExecuteMatch { orders, incoming_volume, tick, tick_volume } => {
            assert_eq!(orders, vec![(word(90), word(2), word(30)), (word(90), word(3), word(20))]);
            assert_eq!(incoming_volume, word(70));
            assert_eq!(tick, word(90));
            assert_eq!(tick_volume, word(50));
        }
        _ => panic!("expected a match"),
    }
    let a = p.step(EngineEvent::Matched { remaining: word(20) }).unwrap();
    assert!(matches!(a, EngineAction::ReadTickData { tick } if tick == word(95)));
    let a = p.step(EngineEvent::TickData { start_index: word(0), volume: word(0) }).unwrap();
    match a {
        EngineAction::InsertOrder { tick, volume, user, is_buy } => {
            assert_eq!((tick, volume, user, is_buy), (word(95), word(20), addr(1), true));
        }
        _ => panic!("expected an insertion"),
    }
    assert_eq!(p.phase, Phase::Finished);
}

#[test]
fn placement_stops_when_the_order_is_filled() {
    let engine = LiquidBookEngine::new();
    let (mut p, _) = engine.place_order(word(0), word(10), addr(1), false, true, vec![word(90), word(95)]);
    p.step(EngineEvent::TickData { start_index: word(0), volume: word(50) }).unwrap();
    p.step(EngineEvent::OrderRead { volume: word(50) }).unwrap();
    p.step(EngineEvent::OrderRead { volume: word(0) }).unwrap();
    let a = p.step(EngineEvent::Matched { remaining: word(0) }).unwrap();
    assert!(matches!(a, EngineAction::Done));
    assert_eq!(p.phase, Phase::Finished);
}

#[test]
fn ring_index_wraps_at_256() {
    let engine = LiquidBookEngine::new();
    let (mut p, _) = engine.place_order(word(0), word(10), addr(1), false, true, vec![word(90)]);
    let a = p.step(EngineEvent::TickData { start_index: word(255), volume: word(5) }).unwrap();
    assert!(matches!(a, EngineAction::ReadOrder { order_index, .. } if order_index == word(255)));
    let a = p.step(EngineEvent::OrderRead { volume: word(5) }).unwrap();
    assert!(matches!(a, EngineAction::ReadOrder { order_index, .. } if order_index == word(0)));
}

#[test]
fn unexpected_events_are_refused() {
    let engine = LiquidBookEngine::new();
    let (mut p, _) = engine.place_order(word(100), word(70), addr(1), true, false, vec![word(90)]);
    assert!(p.step(EngineEvent::Matched { remaining: word(0) }).is_none());
    assert_eq!(p.phase, Phase::AwaitTickData);
    assert!(p.step(EngineEvent::OrderRead { volume: word(1) }).is_none());
}

#[test]
fn empty_tick_moves_on_without_matching() {
    let engine = LiquidBookEngine::new();
    let (mut p, _) = engine.place_order(word(100), word(70), addr(1), true, false, vec![word(90)]);
    p.step(EngineEvent::TickData { start_index: word(0), volume: word(8) }).unwrap();
    let a = p.step(EngineEvent::OrderRead { volume: word(0) }).unwrap();
    assert!(matches!(a, EngineAction::InsertOrder { tick, volume, .. } if tick == word(90) && volume == word(70)));
}

#[test]
fn engine_addresses() {
    let mut engine = LiquidBookEngine::new();
    engine.initialize(addr(1), addr(2), addr(3), addr(4));
    assert_eq!(engine.tick_manager_address, addr(1));
    assert_eq!(engine.order_manager_address, addr(2));
    assert_eq!(engine.bitmap_manager_address, addr(3));
    assert_eq!(engine.matcher_manager_address, addr(4));
}
