//! The Wood contract: staked WINTER generates WOOD, 20 units per 1000
//! staked each time the staker asks for a generation.

use vstd::prelude::*;
use crate::bytes::copy_bytes;
use crate::esdt::{Payment, Action, ActionView, actions_view, ContractError, TokenKind, TokenSlot, TokenSlotView,
    begin_issue_spec};
use crate::store::Store;
use crate::tokens::{wood_type, make_wood_type};

verus! {

/// The least stake that generates resources.
pub const MIN_STAKE: u128 = 1000;

/// Units generated per 1000 staked.
pub const ROUNDS_REQUIRED: u128 = 20;

/// The Wood contract's storage.
pub struct Wood {
    pub token_id: Vec<u8>,
    pub token_manager: TokenSlot,
    pub stake_amount: Store<Vec<u8>, u128>,
    pub last_claim_round: Store<Vec<u8>, u64>,
    pub pending_resources: Store<Vec<u8>, u128>,
}

pub struct WoodView {
    pub token_id: Seq<u8>,
    pub token_manager: TokenSlotView,
    pub stake_amount: Map<Seq<u8>, u128>,
    pub last_claim_round: Map<Seq<u8>, u64>,
    pub pending_resources: Map<Seq<u8>, u128>,
}

impl View for Wood {
    type V = WoodView;

    open spec fn view(&self) -> WoodView {
        WoodView {
            token_id: self.token_id@,
            token_manager: self.token_manager@,
            stake_amount: self.stake_amount@,
            last_claim_round: self.last_claim_round@,
            pending_resources: self.pending_resources@,
        }
    }
}

/// The value stored under `k`, or 0.
pub open spec fn amount_of(m: Map<Seq<u8>, u128>, k: Seq<u8>) -> u128 {
    if m.contains_key(k) { m[k] } else { 0 }
}

/// The round stored under `k`, or 0.
pub open spec fn round_of(m: Map<Seq<u8>, u64>, k: Seq<u8>) -> u64 {
    if m.contains_key(k) { m[k] } else { 0 }
}

/// What generating gives: `Ok(amount)` when the stake is large enough; the
/// amount is the stake in thousands times `ROUNDS_REQUIRED`.
pub open spec fn wood_generation(stake: u128) -> Result<u128, ContractError> {
    if stake < MIN_STAKE {
        Err(ContractError::NoStakeFound)
    } else {
        Ok(((stake / MIN_STAKE) * ROUNDS_REQUIRED) as u128)
    }
}

impl Wood {
    /// The storage of a freshly deployed contract: the token is `WOOD`.
    pub fn init() -> (r: Wood)
        ensures
            r@.token_id == wood_type(),
            r@.token_manager == TokenSlotView::NotSet,
            r@.stake_amount == Map::<Seq<u8>, u128>::empty(),
            r@.last_claim_round == Map::<Seq<u8>, u64>::empty(),
            r@.pending_resources == Map::<Seq<u8>, u128>::empty(),
    {
        Wood {
            token_id: make_wood_type(),
            token_manager: TokenSlot::NotSet,
            stake_amount: Store::new(),
            last_claim_round: Store::new(),
            pending_resources: Store::new(),
        }
    }

    /// `getTokenId`: the identifier of the generated token.
    pub fn token_id(&self) -> (r: Vec<u8>)
        ensures
            r@ == self@.token_id,
    {
        copy_bytes(&self.token_id)
    }

    /// The stake of `addr` (0 when none).
    pub fn stake_amount(&self, addr: &Vec<u8>) -> (r: u128)
        ensures
            r == amount_of(self@.stake_amount, addr@),
    {
        match self.stake_amount.get(addr) {
            Some(a) => *a,
            None => 0,
        }
    }

    /// The round of `addr`'s last stake or generation (0 when none).
    pub fn last_claim_round(&self, addr: &Vec<u8>) -> (r: u64)
        ensures
            r == round_of(self@.last_claim_round, addr@),
    {
        match self.last_claim_round.get(addr) {
            Some(a) => *a,
            None => 0,
        }
    }

    /// The resources `addr` may claim (0 when none).
    pub fn pending_resources(&self, addr: &Vec<u8>) -> (r: u128)
        ensures
            r == amount_of(self@.pending_resources, addr@),
    {
        match self.pending_resources.get(addr) {
            Some(a) => *a,
            None => 0,
        }
    }

    /// `stakeWinter`: records the single payment as the caller's stake (it
    /// replaces any earlier one) and `block_round` as the start of its
    /// generation; at least `MIN_STAKE` is needed.
    pub fn stake_winter(&mut self, caller: &Vec<u8>, payments: &Vec<Payment>, block_round: u64) -> (r: Result<(), ContractError>)
        ensures
            if payments@.len() != 1 {
                r == Err::<(), ContractError>(ContractError::IncorrectNumberOfTransfers) && final(self)@ == old(self)@
            } else if payments@[0].amount < MIN_STAKE {
                r == Err::<(), ContractError>(ContractError::MinimumStakeNotMet) && final(self)@ == old(self)@
            } else {
                r is Ok && final(self)@ == (WoodView {
                    stake_amount: old(self)@.stake_amount.insert(caller@, payments@[0].amount),
                    last_claim_round: old(self)@.last_claim_round.insert(caller@, block_round),
                    ..old(self)@
                })
            },
    {
        if payments.len() != 1 {
            return Err(ContractError::IncorrectNumberOfTransfers);
        }
        let amount = payments[0].amount;
        if amount < MIN_STAKE {
            return Err(ContractError::MinimumStakeNotMet);
        }
        self.stake_amount.insert(copy_bytes(caller), amount);
        self.last_claim_round.insert(copy_bytes(caller), block_round);
        Ok(())
    }

    /// `generateResources`: makes the stake's generation pending (replacing
    /// what was pending) and records `block_round`; nothing changes when the
    /// amount is 0.
    pub fn generate_resources(&mut self, caller: &Vec<u8>, block_round: u64) -> (r: Result<(), ContractError>)
        ensures
            match wood_generation(amount_of(old(self)@.stake_amount, caller@)) {
                Err(e) => r == Err::<(), ContractError>(e) && final(self)@ == old(self)@,
                Ok(amount) => r is Ok && if amount > 0 {
                    final(self)@ == (WoodView {
                        pending_resources: old(self)@.pending_resources.insert(caller@, amount),
                        last_claim_round: old(self)@.last_claim_round.insert(caller@, block_round),
                        ..old(self)@
                    })
                } else {
                    final(self)@ == old(self)@
                },
            },
    {
        let stake = self.stake_amount(caller);
        if stake < MIN_STAKE {
            return Err(ContractError::NoStakeFound);
        }
        let multiplier = stake / MIN_STAKE;
        assert(multiplier * ROUNDS_REQUIRED <= u128::MAX) by (nonlinear_arith)
            requires
                multiplier == stake / MIN_STAKE,
        ;
        let amount = multiplier * ROUNDS_REQUIRED;
        if amount > 0 {
            self.pending_resources.insert(copy_bytes(caller), amount);
            self.last_claim_round.insert(copy_bytes(caller), block_round);
        }
        Ok(())
    }

    /// `claimResources`: mints the caller's pending WOOD and sends it to them.
    pub fn claim_resources(&mut self, caller: &Vec<u8>) -> (r: Result<Vec<Action>, ContractError>)
        ensures
            if amount_of(old(self)@.pending_resources, caller@) == 0 {
                r == Err::<Vec<Action>, ContractError>(ContractError::NoResourcesToClaim) && final(self)@ == old(self)@
            } else {
                r is Ok && actions_view(r->Ok_0@) == seq![
                    ActionView::Mint {
                        token_id: old(self)@.token_id,
                        nonce: 0,
                        amount: amount_of(old(self)@.pending_resources, caller@),
                    },
                    ActionView::Send {
                        to: caller@,
                        token_id: old(self)@.token_id,
                        nonce: 0,
                        amount: amount_of(old(self)@.pending_resources, caller@),
                    },
                ] && final(self)@ == (WoodView {
                    pending_resources: old(self)@.pending_resources.remove(caller@),
                    ..old(self)@
                })
            },
    {
        let amount = self.pending_resources(caller);
        if amount == 0 {
            return Err(ContractError::NoResourcesToClaim);
        }
        let mut actions: Vec<Action> = Vec::new();
        actions.push(Action::Mint { token_id: copy_bytes(&self.token_id), nonce: 0, amount: amount });
        actions.push(Action::Send { to: copy_bytes(caller), token_id: copy_bytes(&self.token_id), nonce: 0, amount: amount });
        self.pending_resources.remove(caller);
        proof {
            assert(actions_view(actions@) =~= seq![
                ActionView::Mint { token_id: old(self)@.token_id, nonce: 0, amount: amount },
                ActionView::Send { to: caller@, token_id: old(self)@.token_id, nonce: 0, amount: amount },
            ]);
        }
        Ok(actions)
    }
    /// The callback of `issue`: records the issued token as the generated
    /// one; a failed issue is refused.
    pub fn wood_token_callback(&mut self, issued: Option<Vec<u8>>) -> (r: Result<(), ContractError>)
        ensures
            match issued {
                Some(id) => r is Ok && final(self)@ == (WoodView { token_id: id@, ..old(self)@ }),
                None => r == Err::<(), ContractError>(ContractError::TokenIssueFailed) && final(self)@ == old(self)@,
            },
    {
        match issued {
            Some(id) => {
                self.token_id = id;
                Ok(())
            },
            None => Err(ContractError::TokenIssueFailed),
        }
    }

    /// `issue`: asks for the fungible WOOD token, paying `egld_value`.
    pub fn issue_token(&mut self, name: Vec<u8>, ticker: Vec<u8>, egld_value: u128) -> (r: Result<Vec<Action>, ContractError>)
        ensures
            match begin_issue_spec(old(self)@.token_manager) {
                Ok(slot) => r is Ok && final(self)@ == (WoodView { token_manager: slot, ..old(self)@ })
                    && actions_view(r->Ok_0@) == seq![ActionView::IssueAndSetAllRoles {
                        kind: TokenKind::Fungible,
                        issue_cost: egld_value,
                        name: name@,
                        ticker: ticker@,
                        num_decimals: 0,
                    }],
                Err(e) => r == Err::<Vec<Action>, ContractError>(e) && final(self)@ == old(self)@,
            },
    {
        self.token_manager.begin_issue()?;
        let ghost nm = name@;
        let ghost tk = ticker@;
        let mut actions: Vec<Action> = Vec::new();
        actions.push(Action::IssueAndSetAllRoles {
            kind: TokenKind::Fungible,
            issue_cost: egld_value,
            name: name,
            ticker: ticker,
            num_decimals: 0,
        });
        proof {
            assert(actions_view(actions@) =~= seq![ActionView::IssueAndSetAllRoles {
                kind: TokenKind::Fungible,
                issue_cost: egld_value,
                name: nm,
                ticker: tk,
                num_decimals: 0,
            }]);
        }
        Ok(actions)
    }
}

/// After a claim nothing is pending, so claiming again is refused until more
/// is generated.
pub proof fn law_claim_clears(s: WoodView, caller: Seq<u8>)
    ensures
        amount_of(s.pending_resources.remove(caller), caller) == 0,
{
}

} // verus!
