//! Byte layouts of order records and of the storage keys they live under.
//!
//! An order key is the tick's big-endian bytes, a `-`, and the 32 big-endian
//! bytes of the order index; the record is stored in the slot named by the
//! key's Keccak-256 hash. A record is 32 bytes: the user's 20 address bytes
//! followed by the low 12 bytes of the volume.
use vstd::prelude::*;
use vstd::arithmetic::power2::*;
use vstd::arithmetic::div_mod::*;
use crate::uint::{U256, be_value};
use crate::address::Address;
use crate::table::{Table, TableKey};

verus! {

broadcast use vstd::array::group_array_axioms;

/// The `n` big-endian bytes of `v` (of `v mod 256^n` when `v` is larger).
pub open spec fn be_bytes(v: nat, n: nat) -> Seq<u8>
    decreases n,
{
    if n == 0 {
        Seq::empty()
    } else {
        be_bytes(v / 256, (n - 1) as nat).push((v % 256) as u8)
    }
}

/// A byte string is the big-endian encoding of its own value.
pub proof fn lemma_be_bytes_of_value(s: Seq<u8>)
    ensures
        s == be_bytes(be_value(s), s.len()),
    decreases s.len(),
{
    if s.len() > 0 {
        let d = s.drop_last();
        lemma_be_bytes_of_value(d);
        let v = be_value(s);
        assert(v == be_value(d) * 256 + s.last() as nat);
        assert(v / 256 == be_value(d) && v % 256 == s.last() as nat);
        assert(s =~= d.push(s.last()));
    }
}

/// The last `k` bytes of an `n`-byte encoding encode the value modulo `256^k`.
pub proof fn lemma_be_bytes_suffix(v: nat, n: nat, k: nat)
    requires
        k <= n,
    ensures
        be_bytes(v, n).subrange(n - k, n as int) == be_bytes(v, k),
        be_bytes(v, n).len() == n,
    decreases n,
{
    if n > 0 {
        lemma_be_bytes_suffix(v / 256, (n - 1) as nat, if k > 0 { (k - 1) as nat } else { 0 });
        if k > 0 {
            assert(be_bytes(v, n).subrange(n - k, n as int) =~= be_bytes(v / 256, (n - 1) as nat).subrange(
                n - k,
                n - 1,
            ).push((v % 256) as u8));
        } else {
            assert(be_bytes(v, n).subrange(n - k, n as int) =~= Seq::<u8>::empty());
        }
    }
}

/// The value of a `k`-byte encoding is the value modulo `2^(8k)`.
pub proof fn lemma_be_value_of_bytes(v: nat, k: nat)
    ensures
        be_value(be_bytes(v, k)) == v % pow2(8 * k),
    decreases k,
{
    lemma2_to64();
    if k > 0 {
        lemma_be_value_of_bytes(v / 256, (k - 1) as nat);
        let b = be_bytes(v, k);
        assert(b.drop_last() =~= be_bytes(v / 256, (k - 1) as nat));
        let p = pow2((8 * (k - 1)) as nat);
        lemma_pow2_pos((8 * (k - 1)) as nat);
        lemma_pow2_adds(8, (8 * (k - 1)) as nat);
        assert(8 + (8 * (k - 1)) as nat == 8 * k);
        lemma_mod_breakdown(v as int, 256, p as int);
    }
}

/// Leading zero bytes do not change the value.
pub proof fn lemma_be_value_leading_zeros(z: Seq<u8>, s: Seq<u8>)
    requires
        forall|i: int| 0 <= i < z.len() ==> z[i] == 0,
    ensures
        be_value(z + s) == be_value(s),
    decreases s.len(),
{
    if s.len() == 0 {
        lemma_be_value_zeros(z);
        assert(z + s =~= z);
    } else {
        assert((z + s).drop_last() =~= z + s.drop_last());
        lemma_be_value_leading_zeros(z, s.drop_last());
    }
}

/// All-zero bytes have value zero.
pub proof fn lemma_be_value_zeros(z: Seq<u8>)
    requires
        forall|i: int| 0 <= i < z.len() ==> z[i] == 0,
    ensures
        be_value(z) == 0,
    decreases z.len(),
{
    if z.len() > 0 {
        lemma_be_value_zeros(z.drop_last());
    }
}

/// A storage slot name: 32 bytes.
#[derive(Clone, Copy, Debug, PartialEq, Eq)]
pub struct StorageSlot {
    pub bytes: [u8; 32],
}

impl TableKey for StorageSlot {
    fn same_key(&self, other: &Self) -> (r: bool) {
        let mut i: usize = 0;
        while i < 32
            invariant
                i <= 32,
                forall|j: int| 0 <= j < i ==> self.bytes@[j] == other.bytes@[j],
            decreases 32 - i,
        {
            if self.bytes[i] != other.bytes[i] {
                return false;
            }
            i = i + 1;
        }
        assert(self.bytes =~= other.bytes);
        true
    }
}

/// Raw 32-byte storage slots; a slot never written reads as zeros.
pub type SlotStorage = Table<StorageSlot, [u8; 32]>;

/// The Keccak-256 hash of a byte string.
pub uninterp spec fn keccak256_of(data: Seq<u8>) -> Seq<u8>;

/// Calls `alloy_primitives::keccak256`; the contract names its result
/// `keccak256_of` of the input bytes and says nothing more of it.
#[verifier::external_body]
pub(crate) fn keccak256(data: &Vec<u8>) -> (r: [u8; 32])
    ensures
        r@ == keccak256_of(data@),
{
    alloy_primitives::keccak256(data.as_slice()).0
}

/// Calls `i128::to_be_bytes`: the 16 big-endian bytes of the two's-complement
/// representation.
#[verifier::external_body]
pub(crate) fn i128_to_be_bytes(x: i128) -> (r: [u8; 16])
    ensures
        be_value(r@) == x as u128,
{
    x.to_be_bytes()
}

/// The byte `-` that separates the tick from the index in an order key.
pub open spec fn key_separator() -> u8 {
    45
}

/// The order key for a tick given by its big-endian bytes.
pub open spec fn order_key(tick_bytes: Seq<u8>, order_index: nat) -> Seq<u8> {
    tick_bytes + seq![key_separator()] + be_bytes(order_index, 32)
}

/// The 32-byte order record of `user` and `volume`.
pub open spec fn order_record(user: Address, volume: nat) -> Seq<u8> {
    user.bytes@ + be_bytes(volume, 32).subrange(20, 32)
}

/// The slot holding the record stored under `key`: named by the key's hash.
pub open spec fn slot_for(key: Seq<u8>) -> StorageSlot {
    StorageSlot { bytes: choose|b: [u8; 32]| b@ == keccak256_of(key) }
}

/// Thirty-two zero bytes.
pub open spec fn zero_record() -> Seq<u8> {
    Seq::new(32, |i: int| 0u8)
}

/// The record stored under `key`, zeros when none was stored.
pub open spec fn record_at(slots: Map<StorageSlot, [u8; 32]>, key: Seq<u8>) -> Seq<u8> {
    if slots.contains_key(slot_for(key)) {
        slots[slot_for(key)]@
    } else {
        zero_record()
    }
}

/// The slot named by the hash of `key`.
pub fn slot_of(key: &Vec<u8>) -> (r: StorageSlot)
    ensures
        r == slot_for(key@),
{
    let hash = keccak256(key);
    let slot = StorageSlot { bytes: hash };
    proof {
        let b = choose|b: [u8; 32]| b@ == keccak256_of(key@);
        assert(b@ == hash@);
        assert(b =~= hash);
    }
    slot
}

/// The record stored under `key`.
pub fn load_record(slots: &SlotStorage, key: &Vec<u8>) -> (r: [u8; 32])
    ensures
        r@ == record_at(slots@, key@),
{
    match slots.get(slot_of(key)) {
        Some(record) => record,
        None => {
            let zeros = [0u8; 32];
            assert(zeros@ =~= zero_record());
            zeros
        },
    }
}

/// Stores `record` under `key`.
pub fn store_record(slots: &mut SlotStorage, key: &Vec<u8>, record: [u8; 32])
    ensures
        final(slots)@ == old(slots)@.insert(slot_for(key@), record),
        record_at(final(slots)@, key@) == record@,
{
    slots.insert(slot_of(key), record);
}

/// `after` is `before` with only the slot of `key` changed, to `record`.
pub open spec fn slot_written(
    before: Map<StorageSlot, [u8; 32]>,
    after: Map<StorageSlot, [u8; 32]>,
    key: Seq<u8>,
    record: Seq<u8>,
) -> bool {
    &&& after == before.insert(slot_for(key), after[slot_for(key)])
    &&& record_at(after, key) == record
}

/// After an order record is written under `key`, the record read back under
/// `key` decodes to the user and the volume modulo `2^96`, and every key whose
/// slot differs reads as before.
pub proof fn lemma_read_after_write(
    before: Map<StorageSlot, [u8; 32]>,
    after: Map<StorageSlot, [u8; 32]>,
    key: Seq<u8>,
    user: Address,
    volume: nat,
    other: Seq<u8>,
)
    requires
        slot_written(before, after, key, order_record(user, volume)),
    ensures
        record_at(after, key).subrange(0, 20) == user.bytes@,
        be_value(record_at(after, key).subrange(20, 32)) == volume % pow2(96),
        slot_for(other) != slot_for(key) ==> record_at(after, other) == record_at(before, other),
{
    lemma_decode_encode(user, volume);
}

/// The 32 big-endian bytes of a word, as a sequence.
fn word_be_bytes(w: U256) -> (r: [u8; 32])
    ensures
        r@ == be_bytes(w@, 32),
{
    let b = w.to_be_bytes();
    proof {
        lemma_be_bytes_of_value(b@);
    }
    b
}

/// Appends `bytes` to `out`.
fn append_bytes(out: &mut Vec<u8>, bytes: &[u8])
    ensures
        final(out)@ == old(out)@ + bytes@,
{
    let mut i: usize = 0;
    while i < bytes.len()
        invariant
            i <= bytes@.len(),
            out@ == old(out)@ + bytes@.subrange(0, i as int),
        decreases bytes@.len() - i,
    {
        out.push(bytes[i]);
        assert(bytes@.subrange(0, i + 1) =~= bytes@.subrange(0, i as int).push(bytes@[i as int]));
        i = i + 1;
    }
    assert(bytes@.subrange(0, bytes@.len() as int) =~= bytes@);
}

/// The bytes of a record as a vector.
pub fn record_to_vec(record: &[u8; 32]) -> (r: Vec<u8>)
    ensures
        r@ == record@,
{
    let mut out: Vec<u8> = Vec::new();
    append_bytes(&mut out, record.as_slice());
    out
}

/// The order key: `tick_bytes`, `-`, and the index's 32 big-endian bytes.
pub fn encode_order_key(tick_bytes: &[u8], order_index: U256) -> (r: Vec<u8>)
    ensures
        r@ == order_key(tick_bytes@, order_index@),
{
    let mut encoded: Vec<u8> = Vec::new();
    append_bytes(&mut encoded, tick_bytes);
    encoded.push(45u8);
    let index_bytes = word_be_bytes(order_index);
    append_bytes(&mut encoded, index_bytes.as_slice());
    assert(encoded@ =~= order_key(tick_bytes@, order_index@));
    encoded
}

/// The order key of a tick given as a word.
pub fn encode_order_key_u256(tick: U256, order_index: U256) -> (r: Vec<u8>)
    ensures
        r@ == order_key(be_bytes(tick@, 32), order_index@),
{
    let tick_bytes = word_be_bytes(tick);
    encode_order_key(tick_bytes.as_slice(), order_index)
}

/// The order key of a signed 128-bit tick.
pub fn encode_order_key_i128(tick: i128, order_index: U256) -> (r: Vec<u8>)
    ensures
        r@ == order_key(be_bytes(tick as u128 as nat, 16), order_index@),
{
    let tick_bytes = i128_to_be_bytes(tick);
    proof {
        lemma_be_bytes_of_value(tick_bytes@);
    }
    encode_order_key(tick_bytes.as_slice(), order_index)
}

/// The 32-byte record: the user's address, then the low 12 bytes of the
/// volume.
pub fn encode_order_data(user: Address, volume: U256) -> (r: [u8; 32])
    ensures
        r@ == order_record(user, volume@),
{
    let mut encoded = [0u8; 32];
    let mut i: usize = 0;
    while i < 20
        invariant
            i <= 20,
            forall|j: int| 0 <= j < i ==> encoded@[j] == user.bytes@[j],
        decreases 20 - i,
    {
        encoded[i] = user.bytes[i];
        i = i + 1;
    }
    let volume_bytes = word_be_bytes(volume);
    while i < 32
        invariant
            20 <= i <= 32,
            forall|j: int| 0 <= j < 20 ==> encoded@[j] == user.bytes@[j],
            forall|j: int| 20 <= j < i ==> encoded@[j] == volume_bytes@[j],
        decreases 32 - i,
    {
        encoded[i] = volume_bytes[i];
        i = i + 1;
    }
    assert(encoded@ =~= order_record(user, volume@));
    encoded
}

/// Reads a record back: the address from the first 20 bytes and the volume
/// from bytes 20 to 32.
pub fn decode_order_data(encoded: &Vec<u8>) -> (r: (Address, U256))
    requires
        encoded@.len() >= 32,
    ensures
        r.0.bytes@ == encoded@.subrange(0, 20),
        r.1@ == be_value(encoded@.subrange(20, 32)),
{
    let mut user_bytes = [0u8; 20];
    let mut i: usize = 0;
    while i < 20
        invariant
            i <= 20,
            encoded@.len() >= 32,
            forall|j: int| 0 <= j < i ==> user_bytes@[j] == encoded@[j],
        decreases 20 - i,
    {
        user_bytes[i] = encoded[i];
        i = i + 1;
    }
    let mut volume_bytes = [0u8; 32];
    let mut k: usize = 20;
    while k < 32
        invariant
            20 <= k <= 32,
            encoded@.len() >= 32,
            forall|j: int| 0 <= j < 20 ==> volume_bytes@[j] == 0,
            forall|j: int| 20 <= j < k ==> volume_bytes@[j] == encoded@[j],
        decreases 32 - k,
    {
        volume_bytes[k] = encoded[k];
        k = k + 1;
    }
    let volume = U256::from_be_bytes(volume_bytes);
    proof {
        assert(volume_bytes@ =~= volume_bytes@.subrange(0, 20) + encoded@.subrange(20, 32));
        lemma_be_value_leading_zeros(volume_bytes@.subrange(0, 20), encoded@.subrange(20, 32));
    }
    let user = Address::new(user_bytes);
    assert(user.bytes@ =~= encoded@.subrange(0, 20));
    (user, volume)
}

/// Decoding an encoded record gives back the user and the volume modulo
/// `2^96`, the part of it that the record keeps.
pub proof fn lemma_decode_encode(user: Address, volume: nat)
    ensures
        order_record(user, volume).len() == 32,
        order_record(user, volume).subrange(0, 20) == user.bytes@,
        be_value(order_record(user, volume).subrange(20, 32)) == volume % pow2(96),
{
    lemma_be_bytes_suffix(volume, 32, 12);
    lemma_be_value_of_bytes(volume, 12);
    let rec = order_record(user, volume);
    assert(rec.subrange(0, 20) =~= user.bytes@);
    assert(rec.subrange(20, 32) =~= be_bytes(volume, 32).subrange(20, 32));
}

/// Distinct (tick, index) pairs have distinct order keys.
pub proof fn lemma_order_key_injective(t1: Seq<u8>, i1: nat, t2: Seq<u8>, i2: nat)
    requires
        t1.len() == t2.len(),
        i1 < pow2(256),
        i2 < pow2(256),
        order_key(t1, i1) == order_key(t2, i2),
    ensures
        t1 == t2,
        i1 == i2,
{
    let k1 = order_key(t1, i1);
    let k2 = order_key(t2, i2);
    let n = t1.len() as int;
    lemma_be_bytes_suffix(i1, 32, 32);
    lemma_be_bytes_suffix(i2, 32, 32);
    assert(k1.subrange(0, n) =~= t1);
    assert(k2.subrange(0, n) =~= t2);
    assert(k1.subrange(n + 1, n + 33) =~= be_bytes(i1, 32));
    assert(k2.subrange(n + 1, n + 33) =~= be_bytes(i2, 32));
    lemma_be_value_of_bytes(i1, 32);
    lemma_be_value_of_bytes(i2, 32);
    lemma_small_mod(i1, pow2(256));
    lemma_small_mod(i2, pow2(256));
}

} // verus!
