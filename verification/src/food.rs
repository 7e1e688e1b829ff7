//! The Food contract: staked WINTER generates FOOD, one unit per 1000 staked
//! for every full period of 1200 rounds since the last generation.

use vstd::prelude::*;
use crate::bytes::copy_bytes;
use crate::esdt::{Payment, Action, ActionView, actions_view, ContractError};
use crate::store::Store;
use crate::tokens::{food_type, make_food_type};

verus! {

/// The least stake that generates resources.
pub const MIN_STAKE: u128 = 1000;

/// Rounds that make one generation period.
pub const ROUNDS_REQUIRED: u64 = 1200;

/// The Food contract's storage.
pub struct Food {
    pub token_id: Vec<u8>,
    pub stake_amount: Store<Vec<u8>, u128>,
    pub last_claim_round: Store<Vec<u8>, u64>,
    pub pending_resources: Store<Vec<u8>, u128>,
}

pub struct FoodView {
    pub token_id: Seq<u8>,
    pub stake_amount: Map<Seq<u8>, u128>,
    pub last_claim_round: Map<Seq<u8>, u64>,
    pub pending_resources: Map<Seq<u8>, u128>,
}

impl View for Food {
    type V = FoodView;

    open spec fn view(&self) -> FoodView {
        FoodView {
            token_id: self.token_id@,
            stake_amount: self.stake_amount@,
            last_claim_round: self.last_claim_round@,
            pending_resources: self.pending_resources@,
        }
    }
}

/// The value stored under `k`, or 0.
pub open spec fn amount_of(m: Map<Seq<u8>, u128>, k: Seq<u8>) -> u128 {
    if m.contains_key(k) { m[k] } else { 0 }
}

/// The round stored under `k`, or 0.
pub open spec fn round_of(m: Map<Seq<u8>, u64>, k: Seq<u8>) -> u64 {
    if m.contains_key(k) { m[k] } else { 0 }
}

/// What generating gives: `Ok(amount)` when the stake is large enough and at
/// least one period has passed since `last`; the amount is the stake in
/// thousands times the number of full periods.
pub open spec fn food_generation(stake: u128, last: u64, round: u64) -> Result<u128, ContractError> {
    if stake < MIN_STAKE {
        Err(ContractError::NoStakeFound)
    } else if round < last + ROUNDS_REQUIRED {
        Err(ContractError::NotEnoughRoundsPassed)
    } else if (stake / MIN_STAKE) * ((round - last) / (ROUNDS_REQUIRED as int)) > u128::MAX {
        Err(ContractError::AmountOverflow)
    } else {
        Ok(((stake / MIN_STAKE) * ((round - last) / (ROUNDS_REQUIRED as int))) as u128)
    }
}

impl Food {
    /// The storage of a freshly deployed contract: the token is `FOOD`.
    pub fn init() -> (r: Food)
        ensures
            r@.token_id == food_type(),
            r@.stake_amount == Map::<Seq<u8>, u128>::empty(),
            r@.last_claim_round == Map::<Seq<u8>, u64>::empty(),
            r@.pending_resources == Map::<Seq<u8>, u128>::empty(),
    {
        Food {
            token_id: make_food_type(),
            stake_amount: Store::new(),
            last_claim_round: Store::new(),
            pending_resources: Store::new(),
        }
    }

    /// `getTokenId`: the identifier of the generated token.
    pub fn token_id(&self) -> (r: Vec<u8>)
        ensures
            r@ == self@.token_id,
    {
        copy_bytes(&self.token_id)
    }

    /// The stake of `addr` (0 when none).
    pub fn stake_amount(&self, addr: &Vec<u8>) -> (r: u128)
        ensures
            r == amount_of(self@.stake_amount, addr@),
    {
        match self.stake_amount.get(addr) {
            Some(a) => *a,
            None => 0,
        }
    }

    /// The round of `addr`'s last stake or generation (0 when none).
    pub fn last_claim_round(&self, addr: &Vec<u8>) -> (r: u64)
        ensures
            r == round_of(self@.last_claim_round, addr@),
    {
        match self.last_claim_round.get(addr) {
            Some(a) => *a,
            None => 0,
        }
    }

    /// The resources `addr` may claim (0 when none).
    pub fn pending_resources(&self, addr: &Vec<u8>) -> (r: u128)
        ensures
            r == amount_of(self@.pending_resources, addr@),
    {
        match self.pending_resources.get(addr) {
            Some(a) => *a,
            None => 0,
        }
    }

    /// `stakeWinter`: records the single payment as the caller's stake (it
    /// replaces any earlier one) and `block_round` as the start of its
    /// generation; at least `MIN_STAKE` is needed.
    pub fn stake_winter(&mut self, caller: &Vec<u8>, payments: &Vec<Payment>, block_round: u64) -> (r: Result<(), ContractError>)
        ensures
            if payments@.len() != 1 {
                r == Err::<(), ContractError>(ContractError::IncorrectNumberOfTransfers) && final(self)@ == old(self)@
            } else if payments@[0].amount < MIN_STAKE {
                r == Err::<(), ContractError>(ContractError::MinimumStakeNotMet) && final(self)@ == old(self)@
            } else {
                r is Ok && final(self)@ == (FoodView {
                    stake_amount: old(self)@.stake_amount.insert(caller@, payments@[0].amount),
                    last_claim_round: old(self)@.last_claim_round.insert(caller@, block_round),
                    ..old(self)@
                })
            },
    {
        if payments.len() != 1 {
            return Err(ContractError::IncorrectNumberOfTransfers);
        }
        let amount = payments[0].amount;
        if amount < MIN_STAKE {
            return Err(ContractError::MinimumStakeNotMet);
        }
        self.stake_amount.insert(copy_bytes(caller), amount);
        self.last_claim_round.insert(copy_bytes(caller), block_round);
        Ok(())
    }

    /// `generateResources`: turns the periods passed since the caller's last
    /// generation into pending FOOD (replacing what was pending) and restarts
    /// the count at `block_round`; nothing changes when the amount is 0.
    pub fn generate_resources(&mut self, caller: &Vec<u8>, block_round: u64) -> (r: Result<(), ContractError>)
        ensures
            match food_generation(
                amount_of(old(self)@.stake_amount, caller@),
                round_of(old(self)@.last_claim_round, caller@),
                block_round,
            ) {
                Err(e) => r == Err::<(), ContractError>(e) && final(self)@ == old(self)@,
                Ok(amount) => r is Ok && if amount > 0 {
                    final(self)@ == (FoodView {
                        pending_resources: old(self)@.pending_resources.insert(caller@, amount),
                        last_claim_round: old(self)@.last_claim_round.insert(caller@, block_round),
                        ..old(self)@
                    })
                } else {
                    final(self)@ == old(self)@
                },
            },
    {
        let stake = self.stake_amount(caller);
        let last = self.last_claim_round(caller);
        if stake < MIN_STAKE {
            return Err(ContractError::NoStakeFound);
        }
        if block_round < last || block_round - last < ROUNDS_REQUIRED {
            return Err(ContractError::NotEnoughRoundsPassed);
        }
        let multiplier = stake / MIN_STAKE;
        let rounds_passed = (block_round - last) / ROUNDS_REQUIRED;
        let amount = match multiplier.checked_mul(rounds_passed as u128) {
            Some(a) => a,
            None => {
                return Err(ContractError::AmountOverflow);
            },
        };
        if amount > 0 {
            self.pending_resources.insert(copy_bytes(caller), amount);
            self.last_claim_round.insert(copy_bytes(caller), block_round);
        }
        Ok(())
    }

    /// `claimResources`: mints the caller's pending FOOD and sends it to them.
    pub fn claim_resources(&mut self, caller: &Vec<u8>) -> (r: Result<Vec<Action>, ContractError>)
        ensures
            if amount_of(old(self)@.pending_resources, caller@) == 0 {
                r == Err::<Vec<Action>, ContractError>(ContractError::NoResourcesToClaim) && final(self)@ == old(self)@
            } else {
                r is Ok && actions_view(r->Ok_0@) == seq![
                    ActionView::Mint {
                        token_id: old(self)@.token_id,
                        nonce: 0,
                        amount: amount_of(old(self)@.pending_resources, caller@),
                    },
                    ActionView::Send {
                        to: caller@,
                        token_id: old(self)@.token_id,
                        nonce: 0,
                        amount: amount_of(old(self)@.pending_resources, caller@),
                    },
                ] && final(self)@ == (FoodView {
                    pending_resources: old(self)@.pending_resources.remove(caller@),
                    ..old(self)@
                })
            },
    {
        let amount = self.pending_resources(caller);
        if amount == 0 {
            return Err(ContractError::NoResourcesToClaim);
        }
        let mut actions: Vec<Action> = Vec::new();
        actions.push(Action::Mint { token_id: copy_bytes(&self.token_id), nonce: 0, amount: amount });
        actions.push(Action::Send { to: copy_bytes(caller), token_id: copy_bytes(&self.token_id), nonce: 0, amount: amount });
        self.pending_resources.remove(caller);
        proof {
            assert(actions_view(actions@) =~= seq![
                ActionView::Mint { token_id: old(self)@.token_id, nonce: 0, amount: amount },
                ActionView::Send { to: caller@, token_id: old(self)@.token_id, nonce: 0, amount: amount },
            ]);
        }
        Ok(actions)
    }
}

/// No FOOD is generated before a full period has passed since the last
/// stake or generation.
pub proof fn law_generation_waits_a_period(stake: u128, last: u64, round: u64)
    requires
        round < last + ROUNDS_REQUIRED,
    ensures
        food_generation(stake, last, round) is Err,
{
}

/// After a claim nothing is pending, so claiming again is refused until more
/// is generated.
pub proof fn law_claim_clears(s: FoodView, caller: Seq<u8>)
    ensures
        amount_of(s.pending_resources.remove(caller), caller) == 0,
{
}

} // verus!
