//! The simple Staking contract: callers lock amounts of a token, which add up
//! per caller, and the callers who locked are kept, in the order they first
//! locked.

use vstd::prelude::*;
use crate::bytes::copy_bytes;
use crate::esdt::{Payment, ContractError};
use crate::store::{Store, OrderedSet};

verus! {

/// The simple Staking contract's storage.
pub struct Staking {
    pub locked_token_amount: Store<Vec<u8>, u128>,
    pub locked_tokens: OrderedSet,
    pub stake_epoch: Store<Vec<u8>, u64>,
}

pub struct StakingView {
    pub locked_token_amount: Map<Seq<u8>, u128>,
    pub locked_tokens: Seq<Seq<u8>>,
    pub stake_epoch: Map<Seq<u8>, u64>,
}

impl View for Staking {
    type V = StakingView;

    open spec fn view(&self) -> StakingView {
        StakingView {
            locked_token_amount: self.locked_token_amount@,
            locked_tokens: self.locked_tokens@,
            stake_epoch: self.stake_epoch@,
        }
    }
}

/// The value stored under `k`, or 0.
pub open spec fn amount_of(m: Map<Seq<u8>, u128>, k: Seq<u8>) -> u128 {
    if m.contains_key(k) { m[k] } else { 0 }
}

impl Staking {
    /// The storage of a freshly deployed contract.
    pub fn init() -> (r: Staking)
        ensures
            r@.locked_token_amount == Map::<Seq<u8>, u128>::empty(),
            r@.locked_tokens == Seq::<Seq<u8>>::empty(),
            r@.stake_epoch == Map::<Seq<u8>, u64>::empty(),
    {
        Staking { locked_token_amount: Store::new(), locked_tokens: OrderedSet::new(), stake_epoch: Store::new() }
    }

    /// `stake_token_winter`: adds the payment's amount to what the caller has
    /// locked and records the caller among those who locked.
    pub fn stake_token_winter(&mut self, caller: &Vec<u8>, payment: &Payment) -> (r: Result<(), ContractError>)
        ensures
            if payment.amount == 0 {
                r == Err::<(), ContractError>(ContractError::MustPayMoreThanZero) && final(self)@ == old(self)@
            } else if amount_of(old(self)@.locked_token_amount, caller@) + payment.amount > u128::MAX {
                r == Err::<(), ContractError>(ContractError::AmountOverflow) && final(self)@ == old(self)@
            } else {
                r is Ok && final(self)@ == (StakingView {
                    locked_token_amount: old(self)@.locked_token_amount.insert(
                        caller@,
                        (amount_of(old(self)@.locked_token_amount, caller@) + payment.amount) as u128,
                    ),
                    locked_tokens: if old(self)@.locked_tokens.contains(caller@) {
                        old(self)@.locked_tokens
                    } else {
                        old(self)@.locked_tokens.push(caller@)
                    },
                    ..old(self)@
                })
            },
    {
        if payment.amount == 0 {
            return Err(ContractError::MustPayMoreThanZero);
        }
        let current = self.locked_token_amount(caller);
        if current > u128::MAX - payment.amount {
            return Err(ContractError::AmountOverflow);
        }
        self.locked_token_amount.insert(copy_bytes(caller), current + payment.amount);
        self.locked_tokens.insert(caller);
        Ok(())
    }

    /// `lockedTokenAmount`: what `addr` has locked (0 when nothing).
    pub fn locked_token_amount(&self, addr: &Vec<u8>) -> (r: u128)
        ensures
            r == amount_of(self@.locked_token_amount, addr@),
    {
        match self.locked_token_amount.get(addr) {
            Some(a) => *a,
            None => 0,
        }
    }

    /// `lockedTokens`: the callers who locked, each once, in the order they
    /// first locked.
    pub fn locked_tokens(&self) -> (r: Vec<Vec<u8>>)
        ensures
            r@.map_values(|v: Vec<u8>| v@) == self@.locked_tokens,
    {
        self.locked_tokens.items()
    }

    /// `stakeEpoch`: the epoch recorded for `addr` (0 when none).
    pub fn stake_epoch(&self, addr: &Vec<u8>) -> (r: u64)
        ensures
            r == (if self@.stake_epoch.contains_key(addr@) { self@.stake_epoch[addr@] } else { 0 }),
    {
        match self.stake_epoch.get(addr) {
            Some(a) => *a,
            None => 0,
        }
    }
}

} // verus!
