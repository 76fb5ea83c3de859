use liquid_book::address::Address;
use liquid_book::order::OrderManager;
use liquid_book::order_book::{Order, OrderBook, OrderPosition};
use liquid_book::order_codec::{
    decode_order_data, encode_order_data, encode_order_key_i128, encode_order_key_u256, slot_of,
};
use liquid_book::storage::LiquidBookStorage;
use liquid_book::tick::TickUpdate;
use liquid_book::tick_state::TickData;
use liquid_book::uint::U256;

fn addr(b: u8) -> Address {
    let mut bytes = [0u8; 20];
    for (i, x) in bytes.iter_mut().enumerate() {
        *x = b.wrapping_add(i as u8);
    }
    Address::new(bytes)
}

fn word(v: u128) -> U256 {
    U256::from_u128(v)
}

#[test]
fn order_key_of_a_signed_tick() {
    let key = encode_order_key_i128(-1, word(5));
    assert_eq!(key.len(), 49);
    assert!(key[..16].iter().all(|b| *b == 0xff));
    assert_eq!(key[16], b'-');
    assert!(key[17..48].iter().all(|b| *b == 0));
    assert_eq!(key[48], 5);
}

#[test]
fn order_key_of_a_word_tick() {
    let key = encode_order_key_u256(word(0x0102), U256::from_limbs([0, 0, 0, 1u64 << 63]));
    assert_eq!(key.len(), 65);
    assert_eq!(key[30], 0x01);
    assert_eq!(key[31], 0x02);
    assert_eq!(key[32], b'-');
    assert_eq!(key[33], 0x80);
    assert!(key[34..].iter().all(|b| *b == 0));
}

#[test]
fn order_record_keeps_the_low_96_bits_of_the_volume() {
    let user = addr(1);
    let volume = U256::from_limbs([7, 1u64 << 32, 0, 0]);
    let record = encode_order_data(user, volume);
    assert_eq!(&record[..20], &user.bytes[..]);
    assert_eq!(record[20..28], [0, 0, 0, 0, 0, 0, 0, 0]);
    assert_eq!(record[28..32], [0, 0, 0, 7]);
    let (u, v) = decode_order_data(&record.to_vec());
    assert_eq!(u, user);
    assert_eq!(v, word(7));
}

#[test]
fn order_record_roundtrip() {
    let user = addr(9);
    let volume = word(123_456_789);
    let record = encode_order_data(user, volume);
    assert_eq!(decode_order_data(&record.to_vec()), (user, volume));
}

#[test]
fn decode_reads_only_the_first_32_bytes() {
    let mut bytes = vec![0u8; 40];
    bytes[0] = 0xaa;
    bytes[31] = 3;
    bytes[35] = 9;
    let (u, v) = decode_order_data(&bytes);
    assert_eq!(u.bytes[0], 0xaa);
    assert_eq!(v, word(3));
}

#[test]
fn slot_is_the_keccak_hash_of_the_key() {
    let empty = slot_of(&Vec::new());
    let expected: [u8; 32] = [
        0xc5, 0xd2, 0x46, 0x01, 0x86, 0xf7, 0x23, 0x3c, 0x92, 0x7e, 0x7d, 0xb2, 0xdc, 0xc7, 0x03,
        0xc0, 0xe5, 0x00, 0xb6, 0x53, 0xca, 0x82, 0x27, 0x3b, 0x7b, 0xfa, 0xd8, 0x04, 0x5d, 0x85,
        0xa4, 0x70,
    ];
    assert_eq!(empty.bytes, expected);
    assert_ne!(slot_of(&vec![1u8]).bytes, slot_of(&vec![2u8]).bytes);
}

#[test]
fn storage_read_after_write() {
    let mut storage = LiquidBookStorage::new();
    let user = addr(3);
    storage.write_order(word(10), word(4), user, word(500));
    assert_eq!(storage.read_order(word(10), word(4)), Ok((user, word(500))));
    assert_eq!(storage.read_order(word(10), word(5)), Ok((Address::zero(), word(0))));
    storage.delete_order(word(10), word(4));
    assert_eq!(storage.read_order(word(10), word(4)), Ok((Address::zero(), word(0))));
}

#[test]
fn storage_insert_and_update_orders() {
    let mut storage = LiquidBookStorage::new();
    let a = addr(1);
    let b = addr(2);
    storage.insert_order(word(10), word(50), a, true);
    assert_eq!(storage.get_tick_data(word(10)), (word(0), word(1), word(50), true));
    assert_eq!(storage.read_order(word(10), word(0)), Ok((a, word(50))));
    storage.insert_order(word(10), word(20), b, true);
    assert_eq!(storage.get_tick_data(word(10)), (word(0), word(2), word(0), true));
    assert_eq!(storage.read_order(word(10), word(1)), Ok((b, word(20))));
    storage.update_order(word(10), word(30), word(1));
    assert_eq!(storage.read_order(word(10), word(1)), Ok((b, word(30))));
    assert_eq!(storage.get_tick_data(word(10)), (word(0), word(2), U256::from_limbs([u64::MAX - 29, u64::MAX, 0, 0]), true));
    storage.update_order(word(10), word(0), word(0));
    assert_eq!(storage.read_order(word(10), word(0)), Ok((Address::zero(), word(0))));
    assert_eq!(storage.get_tick_data(word(10)).0, word(1));
}

#[test]
fn storage_opposite_orders_reduce_the_volume() {
    let mut storage = LiquidBookStorage::new();
    storage.update_tick(word(7), word(40), true, false);
    assert_eq!(storage.get_tick_data(word(7)), (word(0), word(1), word(40), true));
    storage.update_tick(word(7), word(15), false, false);
    assert_eq!(storage.get_tick_data(word(7)), (word(0), word(2), word(25), true));
    storage.update_tick(word(7), word(100), false, false);
    assert_eq!(storage.get_tick_data(word(7)), (word(0), word(3), word(75), false));
}

#[test]
fn storage_tick_data_and_current_tick() {
    let mut storage = LiquidBookStorage::new();
    storage.set_tick_data(word(3), (word(1), word(2), word(3), true));
    assert_eq!(storage.get_tick_data(word(3)), (word(1), word(2), word(3), true));
    assert_eq!(storage.get_tick_data(word(4)), (word(0), word(0), word(0), false));
    storage.set_current_tick(word(77));
    assert_eq!(storage.get_current_tick(), word(77));
}

#[test]
fn storage_encoders() {
    let storage = LiquidBookStorage::new();
    assert_eq!(storage.encode_order_key(word(1), word(2)), Ok(encode_order_key_u256(word(1), word(2))));
    let record = storage.encode_order_data(addr(4), word(6)).unwrap();
    assert_eq!(storage.decode_order_data(record.to_vec()), Ok((addr(4), word(6))));
}

#[test]
fn order_manager_insert_uses_the_ring_index() {
    let mut manager = OrderManager::new();
    let user = addr(5);
    let (index, update) = manager.insert_order(-20, word(8), user, false, (word(3), word(258), word(0), true));
    assert_eq!(index, word(5));
    assert_eq!(update, TickUpdate { tick: -20, volume: word(8), is_buy: false, is_existing_order: false });
    assert_eq!(manager.read_order(-20, word(5)), Ok((user, word(8))));
}

#[test]
fn order_manager_insert_index_wraps() {
    let mut manager = OrderManager::new();
    let start = U256::from_limbs([u64::MAX; 4]);
    let (index, _) = manager.insert_order(1, word(1), addr(1), true, (start, word(2), word(0), true));
    assert_eq!(index, word(1));
}

#[test]
fn order_manager_update_and_delete() {
    let mut manager = OrderManager::new();
    let user = addr(6);
    manager.write_order(4, word(0), user, word(10));
    let update = manager.update_order(4, word(3), word(0));
    assert_eq!(update, TickUpdate { tick: 4, volume: word(3), is_buy: false, is_existing_order: true });
    assert_eq!(manager.read_order(4, word(0)), Ok((user, word(3))));
    manager.update_order(4, word(0), word(0));
    assert_eq!(manager.read_order(4, word(0)), Ok((Address::zero(), word(0))));
}

#[test]
fn order_manager_encoders() {
    let mut manager = OrderManager::new();
    manager.initialize(addr(1), addr(2), addr(3));
    assert_eq!(manager.engine_address, addr(1));
    assert_eq!(manager.bitmap_manager_address, addr(2));
    assert_eq!(manager.tick_manager_address, addr(3));
    assert_eq!(manager.encode_order_key(-1, word(0)), Ok(encode_order_key_i128(-1, word(0))));
    let record = manager.encode_order_data(addr(7), word(1)).unwrap();
    assert_eq!(manager.decode_order_data(record.to_vec()), Ok((addr(7), word(1))));
    manager.delete_order(-1, word(0));
    assert_eq!(manager.read_order(-1, word(0)), Ok((Address::zero(), word(0))));
}

#[test]
fn order_book_appends_orders() {
    let mut book = OrderBook::new();
    book.add_order_to_orderbook(word(5), word(100), true);
    assert_eq!(book.buy_volume, word(500));
    assert_eq!(book.sell_volume, word(0));
    book.add_order_to_orderbook(word(2), word(100), false);
    assert_eq!(book.sell_volume, word(200));
    assert_eq!(book.buy_volume, word(500));
    assert_eq!(book.order_counts.get(100), Some(2));
    assert_eq!(
        book.tick_orders.get(OrderPosition { tick: 100, index: 1 }),
        Some(Order { user: Address::zero(), quantity: 2 })
    );
}

#[test]
fn order_book_records() {
    let mut book = OrderBook::new();
    book.write_order(word(1), word(2), addr(8), word(9));
    assert_eq!(book.read_order(word(1), word(2)), Ok((addr(8), word(9))));
    assert_eq!(book.encode_order_key(word(1), word(2)), Ok(encode_order_key_u256(word(1), word(2))));
    let record = book.encode_order_data(addr(8), word(9)).unwrap();
    assert_eq!(book.decode_order_data(record.to_vec()), Ok((addr(8), word(9))));
}

#[test]
fn tick_data_words() {
    let t = TickData { start_index: 1, length: 2, volume: 3, is_buy: true };
    assert_eq!(t.to_words(), (word(1), word(2), word(3), true));
    assert_eq!(TickData::from_words((word(1), word(2), word(3), true)), t);
}

#[test]
fn distinct_positions_have_distinct_keys_and_slots() {
    let a = encode_order_key_i128(1, word(2));
    let b = encode_order_key_i128(2, word(1));
    assert_ne!(a, b);
    assert_ne!(slot_of(&a), slot_of(&b));
    let mut manager = OrderManager::new();
    manager.write_order(1, word(2), addr(1), word(7));
    manager.write_order(2, word(1), addr(2), word(9));
    assert_eq!(manager.read_order(1, word(2)), Ok((addr(1), word(7))));
    assert_eq!(manager.read_order(2, word(1)), Ok((addr(2), word(9))));
}

#[test]
fn a_written_volume_reads_back_modulo_2_pow_96() {
    let mut manager = OrderManager::new();
    manager.write_order(-3, word(0), addr(4), word((1u128 << 96) + 11));
    assert_eq!(manager.read_order(-3, word(0)), Ok((addr(4), word(11))));
}
