//! Verified core of an on-chain limit order book: 256-bit words, tick
//! bitmaps, order records, tick bookkeeping, balances and matching.
use vstd::prelude::*;

pub mod uint;
pub mod bit_math;
pub mod table;
pub mod address;
pub mod tick_bitmap;
pub mod bitmap_manager;
pub mod order_codec;
pub mod tick_state;
pub mod storage;
pub mod tick_manager;
pub mod tick;
pub mod balance_manager;
pub mod matcher;
pub mod order;
pub mod order_book;
pub mod engine;
pub mod pool_manager;
pub mod pool_orderbook;
pub mod lending_execute;

verus! {

} // verus!
