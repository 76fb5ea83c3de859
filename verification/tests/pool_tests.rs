use liquid_book::address::Address;
use liquid_book::lending_execute::{LendingCall, LendingExecute};
use liquid_book::pool_manager::{EngineOrder, PoolInitialization, PoolManager};
use liquid_book::pool_orderbook::{LockedTransfer, PoolLiquidBook, SetCurrentTick};
use liquid_book::uint::U256;

fn word(v: u128) -> U256 {
    U256::from_u128(v)
}

fn addr(b: u8) -> Address {
    Address::new([b; 20])
}

#[test]
fn pools_are_registered_once() {
    let mut pm = PoolManager::new();
    pm.initialize(addr(7));
    let init = pm.add_pool(addr(1), addr(2), addr(3), addr(4), addr(5), -10, word(100), addr(9));
    assert_eq!(
        init,
        Some(PoolInitialization {
            pool_address: addr(1),
            asset_token: addr(2),
            stable_token: addr(3),
            pool_manager: addr(9),
            engine_manager: addr(4),
            bitmap_manager: addr(5),
            balance_manager: addr(7),
            current_tick: -10,
            lot_size: word(100),
        })
    );
    assert_eq!(pm.add_pool(addr(1), addr(2), addr(3), addr(4), addr(5), 0, word(1), addr(9)), None);
    assert_eq!(pm.pool_addresses, vec![addr(1)]);
    assert!(pm.add_pool(addr(11), addr(2), addr(3), addr(4), addr(5), 0, word(1), addr(9)).is_some());
    assert_eq!(pm.pool_addresses, vec![addr(1), addr(11)]);
}

#[test]
fn orders_are_forwarded_with_the_sender() {
    let pm = PoolManager::new();
    assert_eq!(
        pm.place_order(addr(1), word(5), -3, true, false, addr(8)),
        EngineOrder { pool_address: addr(1), volume: word(5), tick: -3, user: addr(8), is_buy: true, is_market: false }
    );
}

#[test]
fn pool_initialization_and_getters() {
    let mut pool = PoolLiquidBook::new();
    let req = pool.initialize(addr(1), addr(2), addr(3), addr(4), addr(5), addr(6), 42, word(10));
    assert_eq!(req, SetCurrentTick { bitmap_manager: addr(5), tick: 42 });
    assert_eq!(pool.get_token_address(true), addr(2));
    assert_eq!(pool.get_token_address(false), addr(1));
    assert_eq!(pool.get_engine_address(), addr(4));
    assert_eq!(pool.get_lot_size(), word(10));
}

#[test]
fn price_is_volume_times_unit_price_over_decimals() {
    let mut pool = PoolLiquidBook::new();
    let volume = word(3_000_000_000_000_000_000);
    assert_eq!(pool.calculate_price(volume, word(2000), 18), word(6000));
    assert_eq!(pool.calculate_price(word(7), word(3), 0), word(21));
    assert_eq!(pool.calculate_price(word(7), word(3), 1), word(2));
    assert_eq!(pool.calculate_price(word(1), word(1), 255), word(0));
}

#[test]
fn settlement_moves_price_then_asset() {
    let mut pool = PoolLiquidBook::new();
    pool.initialize(addr(1), addr(2), addr(3), addr(4), addr(5), addr(6), 0, word(1));
    let t = pool.transfer_locked(word(5), addr(10), addr(11), word(40), 1);
    assert_eq!(
        t[0],
        LockedTransfer { volume: word(20), token: addr(2), from: addr(10), operator: addr(3), to: addr(11) }
    );
    assert_eq!(
        t[1],
        LockedTransfer { volume: word(5), token: addr(1), from: addr(11), operator: addr(3), to: addr(10) }
    );
}

#[test]
fn lending_calls_name_the_user() {
    let mut lending = LendingExecute::new();
    lending.initialize(addr(4));
    assert_eq!(lending.deposit(word(9), addr(1)), LendingCall { target: addr(4), amount: word(9), sender: addr(1) });
    assert_eq!(lending.withdraw(word(3), addr(2)), LendingCall { target: addr(4), amount: word(3), sender: addr(2) });
}
