use liquid_book::bitmap_manager::BitmapManager;
use liquid_book::tick_bitmap::{TickBitmap, TickBitmapStorage};
use liquid_book::uint::U256;

#[test]
fn test_position() {
    assert_eq!(TickBitmap::position(0), (0, 0));
    assert_eq!(TickBitmap::position(256), (1, 0));
    assert_eq!(TickBitmap::position(257), (1, 1));
    assert_eq!(TickBitmap::position(-1), (-1, 255));
    assert_eq!(TickBitmap::position(-256), (-1, 0));
    assert_eq!(TickBitmap::position(-257), (-2, 255));
}

#[test]
fn position_truncates_the_word_index_to_16_bits() {
    assert_eq!(TickBitmap::position(65536 * 256 + 3), (0, 3));
    assert_eq!(TickBitmap::position(i32::MIN), (0, 0));
    assert_eq!(TickBitmap::position(i32::MAX), (-1, 255));
}

#[test]
fn flip_sets_and_clears_a_bit() {
    let mut storage = TickBitmapStorage::new();
    TickBitmap::flip_tick(&mut storage, 5, 1);
    assert_eq!(storage.get(0), Some(U256::from_u128(1 << 5)));
    TickBitmap::flip_tick(&mut storage, 7, 1);
    assert_eq!(storage.get(0), Some(U256::from_u128((1 << 5) | (1 << 7))));
    TickBitmap::flip_tick(&mut storage, 5, 1);
    assert_eq!(storage.get(0), Some(U256::from_u128(1 << 7)));
    TickBitmap::flip_tick(&mut storage, 7, 1);
    assert_eq!(storage.get(0), Some(U256::from_u128(0)));
}

#[test]
fn flip_uses_the_spacing() {
    let mut storage = TickBitmapStorage::new();
    TickBitmap::flip_tick(&mut storage, 600, 10);
    assert_eq!(storage.get(0), Some(U256::from_u128(1 << 60)));
    TickBitmap::flip_tick(&mut storage, -10, 10);
    assert_eq!(storage.get(-1), Some(U256::from_limbs([0, 0, 0, 1u64 << 63])));
}

#[test]
fn next_tick_searching_down() {
    let mut manager = BitmapManager::new();
    manager.flip(5);
    assert_eq!(manager.next_tick(10, true), (5, true));
    assert_eq!(manager.next_tick(5, true), (5, true));
    assert_eq!(manager.next_tick(4, true), (0, false));
    assert_eq!(manager.next_tick(300, true), (256, false));
}

#[test]
fn next_tick_searching_up() {
    let mut manager = BitmapManager::new();
    manager.flip(5);
    assert_eq!(manager.next_tick(0, false), (5, true));
    assert_eq!(manager.next_tick(4, false), (5, true));
    assert_eq!(manager.next_tick(5, false), (255, false));
    assert_eq!(manager.next_tick(255, false), (511, false));
}

#[test]
fn next_tick_with_negative_ticks() {
    let mut manager = BitmapManager::new();
    assert_eq!(manager.flip(-1), (-1, 255));
    assert_eq!(manager.next_tick(-1, true), (-1, true));
    assert_eq!(manager.next_tick(-2, false), (-1, true));
    assert_eq!(manager.next_tick(-300, true), (-512, false));
    assert_eq!(manager.next_tick(-2, true), (-256, false));
}

#[test]
fn next_tick_with_spacing() {
    let mut storage = TickBitmapStorage::new();
    TickBitmap::flip_tick(&mut storage, 50, 10);
    assert_eq!(TickBitmap::next_initialized_tick_within_one_word(&storage, 78, 10, true), (50, true));
    assert_eq!(TickBitmap::next_initialized_tick_within_one_word(&storage, 12, 10, false), (50, true));
    assert_eq!(TickBitmap::next_initialized_tick_within_one_word(&storage, 49, 10, true), (0, false));
    assert_eq!(TickBitmap::next_initialized_tick_within_one_word(&storage, -5, 10, true), (-2560, false));
}

#[test]
fn flipping_twice_leaves_the_tick_uninitialized() {
    let mut manager = BitmapManager::new();
    manager.flip(42);
    manager.flip(42);
    assert_eq!(manager.next_tick(100, true), (0, false));
}

#[test]
fn best_ticks_for_a_buy_walk_up() {
    let mut manager = BitmapManager::new();
    manager.flip(5);
    manager.flip(300);
    assert_eq!(manager.top_n_best_ticks(true), vec![5, 300]);
}

#[test]
fn best_ticks_for_a_sell_walk_down() {
    let mut manager = BitmapManager::new();
    manager.flip(-3);
    manager.flip(5);
    assert_eq!(manager.top_n_best_ticks(false), vec![-3]);
}

#[test]
fn best_ticks_start_from_the_current_tick() {
    let mut manager = BitmapManager::new();
    manager.flip(5);
    manager.flip(300);
    assert_eq!(manager.set_current_tick(100), 100);
    assert_eq!(manager.get_current_tick(), 100);
    assert_eq!(manager.top_n_best_ticks(true), vec![300]);
    assert_eq!(manager.top_n_best_ticks(false), vec![5]);
}

#[test]
fn best_ticks_from_an_out_of_range_current_tick_start_at_zero() {
    let mut manager = BitmapManager::new();
    manager.flip(5);
    manager.set_current_tick(i128::from(i32::MAX) + 1);
    assert_eq!(manager.top_n_best_ticks(true), vec![5]);
}

#[test]
fn price_of_ticks() {
    assert_eq!(BitmapManager::convert_from_tick_to_price(0), U256::from_u128(1));
    assert_eq!(BitmapManager::convert_from_tick_to_price(-5), U256::from_u128(1));
    assert_eq!(BitmapManager::convert_from_tick_to_price(1), U256::from_u128(1));
    assert_eq!(BitmapManager::convert_from_tick_to_price(10_000), U256::from_u128(2));
    assert_eq!(BitmapManager::convert_from_tick_to_price(100_000), U256::from_u128(21905));
}

#[test]
fn position_through_the_manager() {
    let mut manager = BitmapManager::new();
    assert_eq!(manager.position(-257), (-2, 255));
}

#[test]
fn checked_best_ticks_agree_with_the_walk() {
    let mut manager = BitmapManager::new();
    manager.flip(5);
    manager.flip(300);
    assert_eq!(manager.top_n_best_ticks_checked(true), Some(vec![5, 300]));
    assert_eq!(manager.top_n_best_ticks_checked(false), Some(vec![]));
}

#[test]
fn checked_best_ticks_refuse_a_buy_from_the_largest_tick() {
    let mut manager = BitmapManager::new();
    manager.set_current_tick(i128::from(i32::MAX));
    assert_eq!(manager.top_n_best_ticks_checked(true), None);
}

#[test]
fn checked_best_ticks_refuse_a_sell_reaching_the_smallest_tick() {
    let mut manager = BitmapManager::new();
    manager.set_current_tick(i128::from(i32::MIN) + 300);
    assert_eq!(manager.top_n_best_ticks_checked(false), None);
}

#[test]
fn checked_price_of_ticks() {
    assert_eq!(BitmapManager::convert_from_tick_to_price_checked(-5), Some(U256::from_u128(1)));
    assert_eq!(BitmapManager::convert_from_tick_to_price_checked(10_000), Some(U256::from_u128(2)));
    assert_eq!(BitmapManager::convert_from_tick_to_price_checked(100_000), Some(U256::from_u128(21905)));
    assert_eq!(BitmapManager::convert_from_tick_to_price_checked(700_000), None);
}

#[test]
fn a_negative_spacing_compresses_toward_zero() {
    let mut storage = TickBitmapStorage::new();
    TickBitmap::flip_tick(&mut storage, 4, -2);
    assert_eq!(storage.get(-1), Some(U256::from_limbs([0, 0, 0, 1u64 << 62])));
    assert_eq!(TickBitmap::next_initialized_tick_within_one_word(&storage, 4, -2, true), (4, true));
    assert_eq!(TickBitmap::next_initialized_tick_within_one_word(&storage, 6, -2, false), (4, true));
    assert_eq!(TickBitmap::next_initialized_tick_within_one_word(&storage, -3, -2, true), (0, false));
}
