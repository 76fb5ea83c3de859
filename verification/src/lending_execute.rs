//! The lending forwarder: passes a user's deposits and withdrawals on to the
//! lending contract, naming the user.
use vstd::prelude::*;
use crate::uint::U256;
use crate::address::Address;

verus! {

/// A call to the lending contract at `target`: move `amount` for `sender`.
#[derive(Clone, Copy, Debug, PartialEq, Eq)]
pub struct LendingCall {
    pub target: Address,
    pub amount: U256,
    pub sender: Address,
}

/// State of the forwarder: the lending contract it calls.
pub struct LendingExecute {
    pub lending_address: Address,
}

impl LendingExecute {
    /// A forwarder with the zero address.
    pub fn new() -> (r: LendingExecute)
        ensures
            r.lending_address.is_zero(),
    {
        LendingExecute { lending_address: Address::zero() }
    }

    /// Records the lending contract.
    pub fn initialize(&mut self, lending_address: Address)
        ensures
            final(self).lending_address == lending_address,
    {
        self.lending_address = lending_address;
    }

    /// The lending contract's `deposit(amount, sender)` to make.
    pub fn deposit(&self, amount: U256, sender: Address) -> (r: LendingCall)
        ensures
            r == (LendingCall { target: self.lending_address, amount, sender }),
    {
        LendingCall { target: self.lending_address, amount, sender }
    }

    /// The lending contract's `withdraw(amount, sender)` to make.
    pub fn withdraw(&self, amount: U256, sender: Address) -> (r: LendingCall)
        ensures
            r == (LendingCall { target: self.lending_address, amount, sender }),
    {
        LendingCall { target: self.lending_address, amount, sender }
    }
}

} // verus!
