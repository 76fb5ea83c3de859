//! The balance contract: users' token balances held by the exchange, balances
//! locked for operators, and which operators each user approved.
//!
//! A refused call changes nothing: every error leaves the state as it was (on
//! chain the call reverts).
use vstd::prelude::*;
use crate::uint::{U256, word_modulus};
use crate::bit_math::U256Extension;
use crate::address::Address;
use crate::table::{Table, TableKey};

verus! {

/// A pair of addresses keying a per-owner entry: (user, token) for balances,
/// (owner, operator) for approvals.
#[derive(Clone, Copy, Debug, PartialEq, Eq)]
pub struct AccountKey {
    pub first: Address,
    pub second: Address,
}

impl TableKey for AccountKey {
    fn same_key(&self, other: &Self) -> (r: bool) {
        self.first.same(&other.first) && self.second.same(&other.second)
    }
}

/// Key of a locked balance: (user, operator, token).
#[derive(Clone, Copy, Debug, PartialEq, Eq)]
pub struct LockKey {
    pub user: Address,
    pub operator: Address,
    pub token: Address,
}

impl TableKey for LockKey {
    fn same_key(&self, other: &Self) -> (r: bool) {
        self.user.same(&other.user) && self.operator.same(&other.operator) && self.token.same(
            &other.token,
        )
    }
}

/// Why a balance operation was refused.
#[derive(Clone, Copy, Debug, PartialEq, Eq)]
pub enum BalanceManagerError {
    AlreadyInitialized,
    InsufficientBalance { user: Address, token: Address, want: U256, have: U256 },
    ZeroAmount,
    TransferError { user: Address, token: Address, amount: U256 },
    UnauthorizedOperator { user: Address, operator: Address },
}

/// A call the balance contract makes on a token contract.
#[derive(Clone, Copy, Debug, PartialEq, Eq)]
pub enum TokenCall {
    /// `token.transferFrom(from, to, amount)`.
    TransferFrom { token: Address, from: Address, to: Address, amount: U256 },
    /// `token.transfer(to, amount)`.
    Transfer { token: Address, to: Address, amount: U256 },
}

/// State of the balance contract.
pub struct BalanceManager {
    pub initialized: bool,
    pub owner: Address,
    /// Operator approvals, by (owner, operator).
    pub is_operator: Table<AccountKey, bool>,
    /// Free balances, by (user, token).
    pub balances: Table<AccountKey, U256>,
    /// Locked balances, by (user, operator, token).
    pub locked_balances: Table<LockKey, U256>,
}

/// The free balance of `user` in `token`.
pub open spec fn balance_of(m: Map<AccountKey, U256>, user: Address, token: Address) -> nat {
    let k = AccountKey { first: user, second: token };
    if m.contains_key(k) {
        m[k]@
    } else {
        0
    }
}

/// The balance of `user` in `token` locked for `operator`.
pub open spec fn locked_of(m: Map<LockKey, U256>, user: Address, operator: Address, token: Address) -> nat {
    let k = LockKey { user, operator, token };
    if m.contains_key(k) {
        m[k]@
    } else {
        0
    }
}

/// Whether `owner` approved `operator`.
pub open spec fn approved(m: Map<AccountKey, bool>, owner: Address, operator: Address) -> bool {
    let k = AccountKey { first: owner, second: operator };
    m.contains_key(k) && m[k]
}

/// `after` holds the balance `v` for (user, token) and agrees with `before`
/// elsewhere.
pub open spec fn balance_set(
    before: Map<AccountKey, U256>,
    after: Map<AccountKey, U256>,
    user: Address,
    token: Address,
    v: nat,
) -> bool {
    let k = AccountKey { first: user, second: token };
    &&& after == before.insert(k, after[k])
    &&& after[k]@ == v
}

/// A deposit followed by a withdrawal of the same amount gives every account
/// back its balance, when the deposit did not wrap around 2^256.
pub proof fn lemma_deposit_then_withdraw(
    b0: Map<AccountKey, U256>,
    b1: Map<AccountKey, U256>,
    b2: Map<AccountKey, U256>,
    user: Address,
    token: Address,
    amount: nat,
    other_user: Address,
    other_token: Address,
)
    requires
        balance_of(b0, user, token) + amount < word_modulus(),
        balance_set(b0, b1, user, token, (balance_of(b0, user, token) + amount) % word_modulus()),
        balance_set(b1, b2, user, token, (balance_of(b1, user, token) - amount) as nat),
    ensures
        balance_of(b2, other_user, other_token) == balance_of(b0, other_user, other_token),
{
    vstd::arithmetic::div_mod::lemma_small_mod(
        balance_of(b0, user, token) + amount,
        word_modulus(),
    );
}

/// Unlocking moves value from the locked balance to the free one: their sum
/// is unchanged when the free balance does not wrap around 2^256.
pub proof fn lemma_unlock_conserves(
    free_before: nat,
    locked_before: nat,
    amount: nat,
    free_after: nat,
    locked_after: nat,
)
    requires
        locked_before >= amount,
        free_before + amount < word_modulus(),
        locked_after == locked_before - amount,
        free_after == (free_before + amount) % word_modulus(),
    ensures
        free_after + locked_after == free_before + locked_before,
{
    vstd::arithmetic::div_mod::lemma_small_mod(free_before + amount, word_modulus());
}

impl BalanceManager {
    /// A fresh contract: not initialized, no balances, no approvals.
    pub fn new() -> (r: BalanceManager)
        ensures
            !r.initialized,
            r.owner.is_zero(),
            r.is_operator@ == Map::<AccountKey, bool>::empty(),
            r.balances@ == Map::<AccountKey, U256>::empty(),
            r.locked_balances@ == Map::<LockKey, U256>::empty(),
    {
        BalanceManager {
            initialized: false,
            owner: Address::zero(),
            is_operator: Table::new(),
            balances: Table::new(),
            locked_balances: Table::new(),
        }
    }

    /// The whole state, for stating that a call left it unchanged.
    pub open spec fn same_state(self, other: BalanceManager) -> bool {
        &&& self.initialized == other.initialized
        &&& self.owner == other.owner
        &&& self.is_operator@ == other.is_operator@
        &&& self.balances@ == other.balances@
        &&& self.locked_balances@ == other.locked_balances@
    }

    /// Sets the owner on the first call; later calls change nothing.
    pub fn initialize(&mut self, owner: Address) -> (r: Result<(), Vec<u8>>)
        ensures
            r is Ok,
            old(self).initialized ==> final(self).same_state(*old(self)),
            !old(self).initialized ==> {
                &&& final(self).initialized
                &&& final(self).owner == owner
                &&& final(self).is_operator@ == old(self).is_operator@
                &&& final(self).balances@ == old(self).balances@
                &&& final(self).locked_balances@ == old(self).locked_balances@
            },
    {
        if self.initialized {
            return Ok(());
        }
        self.initialized = true;
        self.owner = owner;
        Ok(())
    }

    fn balance(&self, user: Address, token: Address) -> (r: U256)
        ensures
            r@ == balance_of(self.balances@, user, token),
    {
        match self.balances.get(AccountKey { first: user, second: token }) {
            Some(b) => b,
            None => U256::zero(),
        }
    }

    fn locked(&self, user: Address, operator: Address, token: Address) -> (r: U256)
        ensures
            r@ == locked_of(self.locked_balances@, user, operator, token),
    {
        match self.locked_balances.get(LockKey { user, operator, token }) {
            Some(b) => b,
            None => U256::zero(),
        }
    }

    fn operator_approved(&self, owner: Address, operator: Address) -> (r: bool)
        ensures
            r == approved(self.is_operator@, owner, operator),
    {
        match self.is_operator.get(AccountKey { first: owner, second: operator }) {
            Some(b) => b,
            None => false,
        }
    }

    /// The free balance of `user` in `token`.
    pub fn get_balance(&self, user: Address, token: Address) -> (r: U256)
        ensures
            r@ == balance_of(self.balances@, user, token),
    {
        self.balance(user, token)
    }

    /// The balance of `user` in `token` locked for `operator`.
    pub fn get_locked_balance(&self, user: Address, operator: Address, token: Address) -> (r: U256)
        ensures
            r@ == locked_of(self.locked_balances@, user, operator, token),
    {
        self.locked(user, operator, token)
    }

    /// The first step of a deposit of `amount` of `token` by `sender` into
    /// `this` contract: a zero amount is refused; otherwise the token's
    /// `transferFrom(sender, this, amount)` is to be made, and its outcome
    /// handed to `deposit`. Nothing changes.
    pub fn deposit_request(&self, this: Address, sender: Address, token: Address, amount: U256) -> (r: Result<
        TokenCall,
        BalanceManagerError,
    >)
        ensures
            amount@ == 0 ==> r == Err::<TokenCall, BalanceManagerError>(BalanceManagerError::ZeroAmount),
            amount@ != 0 ==> r == Ok::<TokenCall, BalanceManagerError>(
                TokenCall::TransferFrom { token, from: sender, to: this, amount },
            ),
    {
        if amount.is_zero() {
            return Err(BalanceManagerError::ZeroAmount);
        }
        Ok(TokenCall::TransferFrom { token, from: sender, to: this, amount })
    }

    /// Credits `amount` of `token` to `sender` once the token's
    /// `transferFrom(sender, this contract, amount)` that `deposit_request`
    /// asked for has been made, with `transfer_succeeded` its outcome. The
    /// credit wraps at 2^256, as the word addition does.
    pub fn deposit(
        &mut self,
        sender: Address,
        token: Address,
        amount: U256,
        transfer_succeeded: bool,
    ) -> (r: Result<(), BalanceManagerError>)
        ensures
            amount@ == 0 ==> r == Err::<(), BalanceManagerError>(BalanceManagerError::ZeroAmount),
            amount@ != 0 && !transfer_succeeded ==> r == Err::<(), BalanceManagerError>(
                BalanceManagerError::TransferError { user: sender, token, amount },
            ),
            r is Err ==> final(self).same_state(*old(self)),
            r is Ok <==> amount@ != 0 && transfer_succeeded,
            r is Ok ==> balance_set(
                old(self).balances@,
                final(self).balances@,
                sender,
                token,
                (balance_of(old(self).balances@, sender, token) + amount@) % word_modulus(),
            ) && final(self).locked_balances@ == old(self).locked_balances@
                && final(self).is_operator@ == old(self).is_operator@ && final(self).initialized
                == old(self).initialized && final(self).owner == old(self).owner,
    {
        if amount.is_zero() {
            return Err(BalanceManagerError::ZeroAmount);
        }
        if !transfer_succeeded {
            return Err(BalanceManagerError::TransferError { user: sender, token, amount });
        }
        let current_token_balance = self.balance(sender, token);
        self.balances.insert(
            AccountKey { first: sender, second: token },
            current_token_balance.wrapping_add(amount),
        );
        Ok(())
    }

    /// Debits `amount` of `token` from `sender` and returns the payment to
    /// make: the token's `transfer(sender, amount)`. The debit comes first;
    /// `withdraw_outcome` then gives the result of the whole call from the
    /// payment's outcome (a refused payment reverts the call, debit included).
    pub fn withdraw(&mut self, sender: Address, token: Address, amount: U256) -> (r: Result<
        TokenCall,
        BalanceManagerError,
    >)
        ensures
            ({
                let have = balance_of(old(self).balances@, sender, token);
                &&& have < amount@ ==> (r matches Err(
                    BalanceManagerError::InsufficientBalance { user, token: t, want, have: h },
                ) && user == sender && t == token && want == amount && h@ == have)
                &&& r is Ok <==> have >= amount@
                &&& r is Ok ==> r == Ok::<TokenCall, BalanceManagerError>(
                    TokenCall::Transfer { token, to: sender, amount },
                )
                &&& r is Ok ==> balance_set(
                    old(self).balances@,
                    final(self).balances@,
                    sender,
                    token,
                    (have - amount@) as nat,
                )
            }),
            r is Err ==> final(self).same_state(*old(self)),
            r is Ok ==> final(self).locked_balances@ == old(self).locked_balances@
                && final(self).is_operator@ == old(self).is_operator@ && final(self).initialized
                == old(self).initialized && final(self).owner == old(self).owner,
    {
        let current_token_balance = self.balance(sender, token);
        if current_token_balance.less_than(amount) {
            return Err(
                BalanceManagerError::InsufficientBalance {
                    user: sender,
                    token,
                    want: amount,
                    have: current_token_balance,
                },
            );
        }
        self.balances.insert(
            AccountKey { first: sender, second: token },
            current_token_balance.wrapping_sub(amount),
        );
        Ok(TokenCall::Transfer { token, to: sender, amount })
    }

    /// The result of a withdrawal whose payment of `amount` of `token` to
    /// `sender` had the outcome `transfer_succeeded`: a refused payment
    /// refuses the withdrawal.
    pub fn withdraw_outcome(sender: Address, token: Address, amount: U256, transfer_succeeded: bool) -> (r:
        Result<(), BalanceManagerError>)
        ensures
            transfer_succeeded ==> r == Ok::<(), BalanceManagerError>(()),
            !transfer_succeeded ==> r == Err::<(), BalanceManagerError>(
                BalanceManagerError::TransferError { user: sender, token, amount },
            ),
    {
        if transfer_succeeded {
            Ok(())
        } else {
            Err(BalanceManagerError::TransferError { user: sender, token, amount })
        }
    }

    /// Approves (or revokes) `operator` for `sender`.
    pub fn set_operator(&mut self, sender: Address, operator: Address, approved: bool) -> (r: Result<bool, BalanceManagerError>)
        ensures
            r == Ok::<bool, BalanceManagerError>(true),
            final(self).is_operator@ == old(self).is_operator@.insert(
                AccountKey { first: sender, second: operator },
                approved,
            ),
            final(self).balances@ == old(self).balances@,
            final(self).locked_balances@ == old(self).locked_balances@,
            final(self).initialized == old(self).initialized,
            final(self).owner == old(self).owner,
    {
        self.is_operator.insert(AccountKey { first: sender, second: operator }, approved);
        Ok(true)
    }

    /// Checks that `operator` may lock `amount` of `user`'s `token`: the
    /// operator must be approved and the free balance must cover the amount.
    /// Nothing is moved.
    pub fn lock(&mut self, user: Address, operator: Address, token: Address, amount: U256) -> (r: Result<(), BalanceManagerError>)
        ensures
            final(self).same_state(*old(self)),
            !approved(old(self).is_operator@, user, operator) ==> r == Err::<(), BalanceManagerError>(
                BalanceManagerError::UnauthorizedOperator { user, operator },
            ),
            approved(old(self).is_operator@, user, operator) && balance_of(old(self).balances@, user, token)
                < amount@ ==> (r matches Err(
                BalanceManagerError::InsufficientBalance { user: u, token: t, want, have },
            ) && u == user && t == token && want == amount && have@ == balance_of(
                old(self).balances@,
                user,
                token,
            )),
            r is Ok <==> approved(old(self).is_operator@, user, operator) && balance_of(
                old(self).balances@,
                user,
                token,
            ) >= amount@,
    {
        if !self.operator_approved(user, operator) {
            return Err(BalanceManagerError::UnauthorizedOperator { user, operator });
        }
        let current_token_balance = self.balance(user, token);
        if current_token_balance.less_than(amount) {
            return Err(
                BalanceManagerError::InsufficientBalance {
                    user,
                    token,
                    want: amount,
                    have: current_token_balance,
                },
            );
        }
        Ok(())
    }

    /// Moves `amount` of `user`'s `token` locked for `operator` back to the
    /// free balance (the credit wraps at 2^256).
    pub fn unlock(&mut self, user: Address, operator: Address, token: Address, amount: U256) -> (r: Result<(), BalanceManagerError>)
        ensures
            ({
                let ok_operator = approved(old(self).is_operator@, user, operator);
                let have = locked_of(old(self).locked_balances@, user, operator, token);
                let free = balance_of(old(self).balances@, user, token);
                &&& !ok_operator ==> r == Err::<(), BalanceManagerError>(
                    BalanceManagerError::UnauthorizedOperator { user, operator },
                )
                &&& ok_operator && have < amount@ ==> (r matches Err(
                    BalanceManagerError::InsufficientBalance { user: u, token: t, want, have: h },
                ) && u == user && t == token && want == amount && h@ == have)
                &&& r is Ok <==> ok_operator && have >= amount@
                &&& r is Ok ==> {
                    let k = LockKey { user, operator, token };
                    &&& final(self).locked_balances@ == old(self).locked_balances@.insert(
                        k,
                        final(self).locked_balances@[k],
                    )
                    &&& final(self).locked_balances@[k]@ == have - amount@
                    &&& balance_set(
                        old(self).balances@,
                        final(self).balances@,
                        user,
                        token,
                        (free + amount@) % word_modulus(),
                    )
                    &&& final(self).is_operator@ == old(self).is_operator@
                    &&& final(self).initialized == old(self).initialized
                    &&& final(self).owner == old(self).owner
                }
            }),
            r is Err ==> final(self).same_state(*old(self)),
    {
        if !self.operator_approved(user, operator) {
            return Err(BalanceManagerError::UnauthorizedOperator { user, operator });
        }
        let current_locked_token_balance = self.locked(user, operator, token);
        if current_locked_token_balance.less_than(amount) {
            return Err(
                BalanceManagerError::InsufficientBalance {
                    user,
                    token,
                    want: amount,
                    have: current_locked_token_balance,
                },
            );
        }
        self.locked_balances.insert(
            LockKey { user, operator, token },
            current_locked_token_balance.wrapping_sub(amount),
        );
        let current_token_balance = self.balance(user, token);
        self.balances.insert(
            AccountKey { first: user, second: token },
            current_token_balance.wrapping_add(amount),
        );
        Ok(())
    }

    /// Checks that `operator` may move `amount` of `sender`'s `token` locked
    /// for it: the operator must be approved and the locked balance must cover
    /// the amount. Nothing is moved.
    pub fn transfer_locked(
        &mut self,
        sender: Address,
        operator: Address,
        receiver: Address,
        token: Address,
        amount: U256,
    ) -> (r: Result<(), BalanceManagerError>)
        ensures
            final(self).same_state(*old(self)),
            !approved(old(self).is_operator@, sender, operator) ==> r == Err::<
                (),
                BalanceManagerError,
            >(BalanceManagerError::TransferError { user: sender, token, amount }),
            approved(old(self).is_operator@, sender, operator) && locked_of(
                old(self).locked_balances@,
                sender,
                operator,
                token,
            ) < amount@ ==> (r matches Err(
                BalanceManagerError::InsufficientBalance { user: u, token: t, want, have },
            ) && u == sender && t == token && want == amount && have@ == locked_of(
                old(self).locked_balances@,
                sender,
                operator,
                token,
            )),
            r is Ok <==> approved(old(self).is_operator@, sender, operator) && locked_of(
                old(self).locked_balances@,
                sender,
                operator,
                token,
            ) >= amount@,
    {
        if !self.operator_approved(sender, operator) {
            return Err(BalanceManagerError::TransferError { user: sender, token, amount });
        }
        let sender_current_locked_token_balance = self.locked(sender, operator, token);
        if sender_current_locked_token_balance.less_than(amount) {
            return Err(
                BalanceManagerError::InsufficientBalance {
                    user: sender,
                    token,
                    want: amount,
                    have: sender_current_locked_token_balance,
                },
            );
        }
        Ok(())
    }
}

} // verus!
