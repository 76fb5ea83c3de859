# liquid_book

The logic of an on-chain limit order book, written in Verus and proved
against its contracts.

- `src/` is the verified library. Each contract of the order book is a
  module that holds the contract's state as plain values and the decisions
  it makes: `balance_manager`, `bitmap_manager` (with `tick_bitmap` and
  `bit_math`), `tick` and `tick_manager`, `order`, `order_book`, `storage`,
  `matcher`, `engine`, `pool_manager`, `pool_orderbook`, `lending_execute`.
  Where a contract calls another one, the library returns the call to make
  (or, for the engine, runs as a state machine fed with the replies).
  `uint` is the 256-bit word, whose arithmetic is done by
  `alloy_primitives::U256`; `order_codec` lays out order records in storage
  slots named by keccak-256.
- `tests/` runs the library on concrete values.
- `app/` is the glue to the chain: the Solidity ABI, conversions, and one
  driver per contract entry point that makes the calls and emits the logs
  that the library's decisions ask for.
