use liquid_book::address::Address;
use liquid_book::balance_manager::{BalanceManager, BalanceManagerError, TokenCall};
use liquid_book::uint::U256;

fn word(v: u128) -> U256 {
    U256::from_u128(v)
}

fn addr(b: u8) -> Address {
    Address::new([b; 20])
}

#[test]
fn initialize_only_once() {
    let mut bm = BalanceManager::new();
    assert_eq!(bm.initialize(addr(1)), Ok(()));
    assert!(bm.initialized);
    assert_eq!(bm.owner, addr(1));
    assert_eq!(bm.initialize(addr(2)), Ok(()));
    assert_eq!(bm.owner, addr(1));
}

#[test]
fn deposit_rules() {
    let mut bm = BalanceManager::new();
    let (user, token) = (addr(1), addr(9));
    assert_eq!(bm.deposit(user, token, word(0), true), Err(BalanceManagerError::ZeroAmount));
    assert_eq!(
        bm.deposit(user, token, word(5), false),
        Err(BalanceManagerError::TransferError { user, token, amount: word(5) })
    );
    assert_eq!(bm.get_balance(user, token), word(0));
    assert_eq!(bm.deposit(user, token, word(5), true), Ok(()));
    assert_eq!(bm.deposit(user, token, word(7), true), Ok(()));
    assert_eq!(bm.get_balance(user, token), word(12));
    assert_eq!(bm.get_balance(user, addr(8)), word(0));
}

#[test]
fn deposit_wraps_at_the_word_size() {
    let mut bm = BalanceManager::new();
    let (user, token) = (addr(1), addr(9));
    bm.deposit(user, token, U256::from_limbs([u64::MAX; 4]), true).unwrap();
    bm.deposit(user, token, word(3), true).unwrap();
    assert_eq!(bm.get_balance(user, token), word(2));
}

#[test]
fn withdraw_rules() {
    let mut bm = BalanceManager::new();
    let (user, token) = (addr(1), addr(9));
    bm.deposit(user, token, word(10), true).unwrap();
    assert_eq!(
        bm.withdraw(user, token, word(11)),
        Err(BalanceManagerError::InsufficientBalance { user, token, want: word(11), have: word(10) })
    );
    assert_eq!(bm.get_balance(user, token), word(10));
    assert_eq!(bm.withdraw(user, token, word(4)), Ok(TokenCall::Transfer { token, to: user, amount: word(4) }));
    assert_eq!(bm.get_balance(user, token), word(6));
}

#[test]
fn withdraw_outcome_follows_the_payment() {
    let (user, token) = (addr(1), addr(9));
    assert_eq!(BalanceManager::withdraw_outcome(user, token, word(4), true), Ok(()));
    assert_eq!(
        BalanceManager::withdraw_outcome(user, token, word(4), false),
        Err(BalanceManagerError::TransferError { user, token, amount: word(4) })
    );
}

#[test]
fn deposit_request_asks_for_a_transfer_from_the_sender() {
    let bm = BalanceManager::new();
    let (this, user, token) = (addr(7), addr(1), addr(9));
    assert_eq!(bm.deposit_request(this, user, token, word(0)), Err(BalanceManagerError::ZeroAmount));
    assert_eq!(
        bm.deposit_request(this, user, token, word(5)),
        Ok(TokenCall::TransferFrom { token, from: user, to: this, amount: word(5) })
    );
}

#[test]
fn deposit_then_withdraw_restores_the_balance() {
    let mut bm = BalanceManager::new();
    let (user, token) = (addr(3), addr(4));
    bm.deposit(user, token, word(100), true).unwrap();
    bm.deposit(user, token, word(25), true).unwrap();
    bm.withdraw(user, token, word(25)).unwrap();
    assert_eq!(bm.get_balance(user, token), word(100));
}

#[test]
fn lock_rules() {
    let mut bm = BalanceManager::new();
    let (user, operator, token) = (addr(1), addr(2), addr(9));
    assert_eq!(
        bm.lock(user, operator, token, word(1)),
        Err(BalanceManagerError::UnauthorizedOperator { user, operator })
    );
    assert_eq!(bm.set_operator(user, operator, true), Ok(true));
    assert_eq!(
        bm.lock(user, operator, token, word(1)),
        Err(BalanceManagerError::InsufficientBalance { user, token, want: word(1), have: word(0) })
    );
    bm.deposit(user, token, word(5), true).unwrap();
    assert_eq!(bm.lock(user, operator, token, word(5)), Ok(()));
    assert_eq!(bm.get_balance(user, token), word(5));
    assert_eq!(bm.get_locked_balance(user, operator, token), word(0));
    bm.set_operator(user, operator, false).unwrap();
    assert_eq!(
        bm.lock(user, operator, token, word(1)),
        Err(BalanceManagerError::UnauthorizedOperator { user, operator })
    );
}

#[test]
fn unlock_rules() {
    let mut bm = BalanceManager::new();
    let (user, operator, token) = (addr(1), addr(2), addr(9));
    assert_eq!(
        bm.unlock(user, operator, token, word(0)),
        Err(BalanceManagerError::UnauthorizedOperator { user, operator })
    );
    bm.set_operator(user, operator, true).unwrap();
    assert_eq!(
        bm.unlock(user, operator, token, word(1)),
        Err(BalanceManagerError::InsufficientBalance { user, token, want: word(1), have: word(0) })
    );
    assert_eq!(bm.unlock(user, operator, token, word(0)), Ok(()));
    assert_eq!(bm.get_balance(user, token), word(0));
}

#[test]
fn transfer_locked_rules() {
    let mut bm = BalanceManager::new();
    let (sender, operator, receiver, token) = (addr(1), addr(2), addr(3), addr(9));
    assert_eq!(
        bm.transfer_locked(sender, operator, receiver, token, word(2)),
        Err(BalanceManagerError::TransferError { user: sender, token, amount: word(2) })
    );
    bm.set_operator(sender, operator, true).unwrap();
    assert_eq!(
        bm.transfer_locked(sender, operator, receiver, token, word(2)),
        Err(BalanceManagerError::InsufficientBalance { user: sender, token, want: word(2), have: word(0) })
    );
    assert_eq!(bm.transfer_locked(sender, operator, receiver, token, word(0)), Ok(()));
}
