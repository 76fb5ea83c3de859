use liquid_book::address::Address;
use liquid_book::tick::TickManager;
use liquid_book::tick_manager::TickManager as UnsignedTickManager;
use liquid_book::uint::U256;
use liquid_book::bitmap_manager::BitmapManager;

fn word(v: u128) -> U256 {
    U256::from_u128(v)
}

fn addr(b: u8) -> Address {
    Address::new([b; 20])
}

#[test]
fn first_order_at_a_tick_initializes_it() {
    let mut ticks = TickManager::new();
    assert_eq!(ticks.set_tick_data(100, word(50), true, false), Some(100));
    assert_eq!(ticks.get_tick_data(100), (word(0), word(1), word(50), true));
}

#[test]
fn opposite_and_same_side_orders() {
    let mut ticks = TickManager::new();
    ticks.set_tick_data(100, word(50), true, false);
    assert_eq!(ticks.set_tick_data(100, word(20), false, false), None);
    assert_eq!(ticks.get_tick_data(100), (word(0), word(2), word(30), true));
    assert_eq!(ticks.set_tick_data(100, word(40), true, false), None);
    assert_eq!(ticks.get_tick_data(100), (word(0), word(3), word(70), true));
    assert_eq!(ticks.set_tick_data(100, word(100), false, false), None);
    assert_eq!(ticks.get_tick_data(100), (word(0), word(4), word(30), false));
}

#[test]
fn opposite_order_that_exactly_matches_empties_the_tick() {
    let mut ticks = TickManager::new();
    ticks.set_tick_data(-7, word(50), true, false);
    assert_eq!(ticks.set_tick_data(-7, word(50), false, false), Some(-7));
    assert_eq!(ticks.get_tick_data(-7), (word(0), word(2), word(0), true));
}

#[test]
fn removing_an_existing_order_advances_the_ring() {
    let mut ticks = TickManager::new();
    ticks.set_tick_data(100, word(50), true, false);
    assert_eq!(ticks.set_tick_data(100, word(0), false, true), Some(100));
    assert_eq!(ticks.get_tick_data(100), (word(1), word(0), word(0), false));
}

#[test]
fn updating_an_existing_order_sets_the_volume() {
    let mut ticks = TickManager::new();
    ticks.set_tick_data(3, word(50), false, false);
    assert_eq!(ticks.set_tick_data(3, word(10), false, true), None);
    assert_eq!(ticks.get_tick_data(3), (word(0), word(1), word(10), true));
}

#[test]
fn tick_manager_addresses() {
    let mut ticks = TickManager::new();
    ticks.initialize(addr(1), addr(2), addr(3));
    assert_eq!(ticks.engine_address, addr(1));
    assert_eq!(ticks.bitmap_manager_address, addr(2));
    assert_eq!(ticks.order_manager_address, addr(3));
}

#[test]
fn unsigned_tick_manager_updates() {
    let mut ticks = UnsignedTickManager::new();
    ticks.initialize(addr(1), addr(2), addr(3));
    ticks.update_tick(word(9), word(40), true, false);
    assert_eq!(ticks.get_tick_data(word(9)), (word(0), word(1), word(40), true));
    ticks.update_tick(word(9), word(15), false, false);
    assert_eq!(ticks.get_tick_data(word(9)), (word(0), word(2), word(25), true));
    ticks.update_tick(word(9), word(5), true, false);
    assert_eq!(ticks.get_tick_data(word(9)), (word(0), word(3), word(0), true));
    ticks.update_tick(word(9), word(0), true, true);
    assert_eq!(ticks.get_tick_data(word(9)), (word(1), word(3), word(0), true));
}

#[test]
fn unsigned_tick_manager_records() {
    let mut ticks = UnsignedTickManager::new();
    ticks.set_tick_data(word(2), (word(5), word(6), word(7), true));
    assert_eq!(ticks.get_tick_data(word(2)), (word(5), word(6), word(7), true));
    ticks.set_current_tick(word(11));
    assert_eq!(ticks.get_current_tick(), word(11));
}

#[test]
fn a_tick_beyond_32_bits_is_refused_only_when_its_bit_must_flip() {
    let mut ticks = TickManager::new();
    let far = 1i128 << 40;
    assert_eq!(ticks.set_tick_data_checked(far, word(50), true, false), None);
    assert_eq!(ticks.get_tick_data(far), (word(0), word(0), word(0), false));
    assert_eq!(ticks.set_tick_data_checked(far, word(0), true, false), Some(None));
    assert_eq!(ticks.get_tick_data(far), (word(0), word(1), word(0), true));
    assert_eq!(ticks.set_tick_data_checked(7, word(5), false, false), Some(Some(7)));
}

#[test]
fn bitmap_bits_follow_tick_volumes_over_a_sequence_of_updates() {
    let mut ticks = TickManager::new();
    let mut bitmap = BitmapManager::new();
    let calls: [(i128, u128, bool, bool); 6] = [
        (5, 50, true, false),
        (5, 20, false, false),
        (1 << 40, 0, true, false),
        (9, 10, false, false),
        (5, 30, false, false),
        (9, 0, false, true),
    ];
    for (tick, volume, is_buy, existing) in calls {
        if let Some(t) = ticks.set_tick_data(tick, word(volume), is_buy, existing) {
            bitmap.flip(t);
        }
        for t in [5i32, 9] {
            let (_, _, v, _) = ticks.get_tick_data(i128::from(t));
            assert_eq!(bitmap.next_tick(t, true) == (t, true), v != word(0));
        }
    }
}
