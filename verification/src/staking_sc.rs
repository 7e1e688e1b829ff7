//! The WINTER Staking contract: stakers earn 1% of their stake per claim,
//! at most once a day and from five epochs after they first staked, paid in
//! a reward token the contract issues.

use vstd::prelude::*;
use crate::bytes::{bytes_eq, copy_bytes, ticker_of, token_ticker};
use crate::esdt::{Payment, Action, ActionView, actions_view, ContractError, TokenKind, TokenSlot, TokenSlotView,
    begin_issue_spec, set_token_id_spec};
use crate::store::Store;
use crate::tokens::{winter_ticker, make_winter_ticker};

verus! {

/// The EGLD that issuing the reward token costs (0.05 EGLD).
pub const ISSUE_COST: u128 = 50_000_000_000_000_000;

/// Epochs after the first stake before rewards can be claimed.
pub const STAKING_EPOCHS: u64 = 5;

/// Seconds between two claims.
pub const CLAIM_INTERVAL: u64 = 86400;

/// A staker's position.
#[derive(Debug, PartialEq, Eq)]
pub struct StakingPosition {
    pub stake_amount: u128,
    pub last_claim_timestamp: u64,
    pub stake_epoch: u64,
    pub reward_recipient: Option<Vec<u8>>,
}

pub struct StakingPositionView {
    pub stake_amount: u128,
    pub last_claim_timestamp: u64,
    pub stake_epoch: u64,
    pub reward_recipient: Option<Seq<u8>>,
}

impl View for StakingPosition {
    type V = StakingPositionView;

    open spec fn view(&self) -> StakingPositionView {
        StakingPositionView {
            stake_amount: self.stake_amount,
            last_claim_timestamp: self.last_claim_timestamp,
            stake_epoch: self.stake_epoch,
            reward_recipient: match &self.reward_recipient {
                Some(r) => Some(r@),
                None => None,
            },
        }
    }
}

impl StakingPosition {
    /// A copy of this position.
    pub fn duplicate(&self) -> (r: StakingPosition)
        ensures
            r@ == self@,
    {
        StakingPosition {
            stake_amount: self.stake_amount,
            last_claim_timestamp: self.last_claim_timestamp,
            stake_epoch: self.stake_epoch,
            reward_recipient: match &self.reward_recipient {
                Some(r) => Some(copy_bytes(r)),
                None => None,
            },
        }
    }
}

/// The WINTER Staking contract's storage.
pub struct Staking {
    pub staking_position: Store<Vec<u8>, StakingPosition>,
    pub token_manager: TokenSlot,
}

pub struct StakingView {
    pub staking_position: Map<Seq<u8>, StakingPositionView>,
    pub token_manager: TokenSlotView,
}

impl View for Staking {
    type V = StakingView;

    open spec fn view(&self) -> StakingView {
        StakingView { staking_position: self.staking_position@, token_manager: self.token_manager@ }
    }
}

/// The reward of a claim: 1% of the stake.
pub open spec fn reward_of(stake: u128) -> u128 {
    stake / 100
}

/// What staking checks: a single payment of a WINTER token, and a total
/// stake that fits.
pub open spec fn stake_check(s: StakingView, caller: Seq<u8>, ps: Seq<Payment>) -> Result<(), ContractError> {
    if ps.len() != 1 {
        Err(ContractError::IncorrectNumberOfTransfers)
    } else if ticker_of(ps[0].token_id@) is None {
        Err(ContractError::BadTickerFormat)
    } else if ticker_of(ps[0].token_id@) != Some(winter_ticker()) {
        Err(ContractError::OnlyWinterTokens)
    } else if s.staking_position.contains_key(caller)
        && s.staking_position[caller].stake_amount + ps[0].amount > u128::MAX {
        Err(ContractError::AmountOverflow)
    } else {
        Ok(())
    }
}

/// The position after staking `amount`: added to an existing position, or a
/// new one started at `epoch` and `timestamp` with no other recipient.
pub open spec fn staked(s: StakingView, caller: Seq<u8>, amount: u128, epoch: u64, timestamp: u64) -> StakingPositionView {
    if s.staking_position.contains_key(caller) {
        StakingPositionView {
            stake_amount: (s.staking_position[caller].stake_amount + amount) as u128,
            ..s.staking_position[caller]
        }
    } else {
        StakingPositionView {
            stake_amount: amount,
            last_claim_timestamp: timestamp,
            stake_epoch: epoch,
            reward_recipient: None,
        }
    }
}

/// What claiming checks: a position with a stake, five epochs since the
/// first stake, a day since the last claim.
pub open spec fn claim_check(s: StakingView, caller: Seq<u8>, epoch: u64, timestamp: u64) -> Result<(), ContractError> {
    if !s.staking_position.contains_key(caller) {
        Err(ContractError::NoStakingPosition)
    } else if s.staking_position[caller].stake_amount == 0 {
        Err(ContractError::NothingStaked)
    } else if epoch < s.staking_position[caller].stake_epoch + STAKING_EPOCHS {
        Err(ContractError::StakingPeriodNotMet)
    } else if timestamp < s.staking_position[caller].last_claim_timestamp + CLAIM_INTERVAL {
        Err(ContractError::ClaimOncePerDay)
    } else if reward_of(s.staking_position[caller].stake_amount) > 0 && !(s.token_manager is Token) {
        Err(ContractError::InvalidTokenId)
    } else {
        Ok(())
    }
}

/// Where rewards of `caller`'s position go: its recipient, else the caller.
pub open spec fn recipient_of(p: StakingPositionView, caller: Seq<u8>) -> Seq<u8> {
    match p.reward_recipient {
        Some(r) => r,
        None => caller,
    }
}

/// What issuing the reward token checks: the owner calls, no token was asked
/// for yet, and the exact issue cost is paid.
pub open spec fn issue_check(s: StakingView, caller: Seq<u8>, owner: Seq<u8>, egld_value: u128) -> Result<TokenSlotView, ContractError> {
    if caller != owner {
        Err(ContractError::OnlyOwner)
    } else if !(s.token_manager is NotSet) {
        Err(ContractError::TokenAlreadyIssued)
    } else if egld_value != ISSUE_COST {
        Err(ContractError::InsufficientFunds)
    } else {
        begin_issue_spec(s.token_manager)
    }
}

impl Staking {
    /// The storage of a freshly deployed contract.
    pub fn init() -> (r: Staking)
        ensures
            r@.staking_position == Map::<Seq<u8>, StakingPositionView>::empty(),
            r@.token_manager == TokenSlotView::NotSet,
    {
        Staking { staking_position: Store::new(), token_manager: TokenSlot::NotSet }
    }

    /// The position of `addr`, if any.
    pub fn staking_position(&self, addr: &Vec<u8>) -> (r: Option<StakingPosition>)
        ensures
            match r {
                Some(p) => self@.staking_position.contains_key(addr@) && p@ == self@.staking_position[addr@],
                None => !self@.staking_position.contains_key(addr@),
            },
    {
        match self.staking_position.get(addr) {
            Some(p) => Some(p.duplicate()),
            None => None,
        }
    }

    /// The reward token, once issued.
    pub fn reward_token_id(&self) -> (r: Option<Vec<u8>>)
        ensures
            match self@.token_manager {
                TokenSlotView::Token(id) => r is Some && r->Some_0@ == id,
                _ => r is None,
            },
    {
        match self.token_manager.token_id() {
            Ok(id) => Some(id),
            Err(_) => None,
        }
    }

    /// `stakeTokenWinter`: adds the single WINTER payment to the caller's
    /// position, or opens one at `epoch` and `timestamp`.
    pub fn stake_token_winter(&mut self, caller: &Vec<u8>, payments: &Vec<Payment>, epoch: u64, timestamp: u64) -> (r: Result<(), ContractError>)
        ensures
            match stake_check(old(self)@, caller@, payments@) {
                Ok(()) => r is Ok && final(self)@ == (StakingView {
                    staking_position: old(self)@.staking_position.insert(
                        caller@,
                        staked(old(self)@, caller@, payments@[0].amount, epoch, timestamp),
                    ),
                    ..old(self)@
                }),
                Err(e) => r == Err::<(), ContractError>(e) && final(self)@ == old(self)@,
            },
    {
        if payments.len() != 1 {
            return Err(ContractError::IncorrectNumberOfTransfers);
        }
        let payment = &payments[0];
        let ticker = match token_ticker(&payment.token_id) {
            Some(t) => t,
            None => {
                return Err(ContractError::BadTickerFormat);
            },
        };
        if !bytes_eq(&ticker, &make_winter_ticker()) {
            return Err(ContractError::OnlyWinterTokens);
        }
        let position = match self.staking_position.get(caller) {
            Some(p) => {
                if p.stake_amount > u128::MAX - payment.amount {
                    return Err(ContractError::AmountOverflow);
                }
                let mut q = p.duplicate();
                q.stake_amount = p.stake_amount + payment.amount;
                q
            },
            None => StakingPosition {
                stake_amount: payment.amount,
                last_claim_timestamp: timestamp,
                stake_epoch: epoch,
                reward_recipient: None,
            },
        };
        self.staking_position.insert(copy_bytes(caller), position);
        Ok(())
    }

    /// `claimRewards`: mints 1% of the caller's stake and sends it to the
    /// position's recipient (the caller when none is set), then records
    /// `timestamp` as the last claim. A reward of 0 changes nothing.
    pub fn claim_rewards(&mut self, caller: &Vec<u8>, epoch: u64, timestamp: u64) -> (r: Result<Vec<Action>, ContractError>)
        ensures
            match claim_check(old(self)@, caller@, epoch, timestamp) {
                Err(e) => r == Err::<Vec<Action>, ContractError>(e) && final(self)@ == old(self)@,
                Ok(()) => {
                    let p = old(self)@.staking_position[caller@];
                    let reward = reward_of(p.stake_amount);
                    r is Ok && if reward > 0 {
                        actions_view(r->Ok_0@) == seq![
                            ActionView::Mint { token_id: old(self)@.token_manager->Token_0, nonce: 0, amount: reward },
                            ActionView::Send {
                                to: recipient_of(p, caller@),
                                token_id: old(self)@.token_manager->Token_0,
                                nonce: 0,
                                amount: reward,
                            },
                        ] && final(self)@ == (StakingView {
                            staking_position: old(self)@.staking_position.insert(
                                caller@,
                                StakingPositionView { last_claim_timestamp: timestamp, ..p },
                            ),
                            ..old(self)@
                        })
                    } else {
                        r->Ok_0@.len() == 0 && final(self)@ == old(self)@
                    }
                },
            },
    {
        let position = match self.staking_position.get(caller) {
            Some(p) => p.duplicate(),
            None => {
                return Err(ContractError::NoStakingPosition);
            },
        };
        if position.stake_amount == 0 {
            return Err(ContractError::NothingStaked);
        }
        if epoch < position.stake_epoch || epoch - position.stake_epoch < STAKING_EPOCHS {
            return Err(ContractError::StakingPeriodNotMet);
        }
        if timestamp < position.last_claim_timestamp || timestamp - position.last_claim_timestamp < CLAIM_INTERVAL {
            return Err(ContractError::ClaimOncePerDay);
        }
        let reward = position.stake_amount / 100;
        let mut actions: Vec<Action> = Vec::new();
        if reward > 0 {
            let recipient = match &position.reward_recipient {
                Some(r) => copy_bytes(r),
                None => copy_bytes(caller),
            };
            let reward_token = self.token_manager.token_id()?;
            let ghost tid = reward_token@;
            let ghost to = recipient@;
            actions.push(Action::Mint { token_id: copy_bytes(&reward_token), nonce: 0, amount: reward });
            actions.push(Action::Send { to: recipient, token_id: reward_token, nonce: 0, amount: reward });
            let mut updated = position;
            updated.last_claim_timestamp = timestamp;
            self.staking_position.insert(copy_bytes(caller), updated);
            proof {
                assert(actions_view(actions@) =~= seq![
                    ActionView::Mint { token_id: tid, nonce: 0, amount: reward },
                    ActionView::Send { to: to, token_id: tid, nonce: 0, amount: reward },
                ]);
            }
        }
        Ok(actions)
    }

    /// `setRewardRecipient`: future rewards of the caller's position go to
    /// `recipient`.
    pub fn set_reward_recipient(&mut self, caller: &Vec<u8>, recipient: Vec<u8>) -> (r: Result<(), ContractError>)
        ensures
            if old(self)@.staking_position.contains_key(caller@) {
                r is Ok && final(self)@ == (StakingView {
                    staking_position: old(self)@.staking_position.insert(
                        caller@,
                        StakingPositionView {
                            reward_recipient: Some(recipient@),
                            ..old(self)@.staking_position[caller@]
                        },
                    ),
                    ..old(self)@
                })
            } else {
                r == Err::<(), ContractError>(ContractError::NoStakingPosition) && final(self)@ == old(self)@
            },
    {
        let mut position = match self.staking_position.get(caller) {
            Some(p) => p.duplicate(),
            None => {
                return Err(ContractError::NoStakingPosition);
            },
        };
        position.reward_recipient = Some(recipient);
        self.staking_position.insert(copy_bytes(caller), position);
        Ok(())
    }

    /// `issueToken`: the owner asks for the reward token, paying exactly
    /// `ISSUE_COST`.
    pub fn issue_token(&mut self, caller: &Vec<u8>, owner: &Vec<u8>, name: Vec<u8>, ticker: Vec<u8>, egld_value: u128) -> (r: Result<Vec<Action>, ContractError>)
        ensures
            match issue_check(old(self)@, caller@, owner@, egld_value) {
                Ok(slot) => r is Ok && final(self)@ == (StakingView { token_manager: slot, ..old(self)@ })
                    && actions_view(r->Ok_0@) == seq![ActionView::IssueAndSetAllRoles {
                        kind: TokenKind::Fungible,
                        issue_cost: egld_value,
                        name: name@,
                        ticker: ticker@,
                        num_decimals: 0,
                    }],
                Err(e) => r == Err::<Vec<Action>, ContractError>(e) && final(self)@ == old(self)@,
            },
    {
        if !bytes_eq(caller, owner) {
            return Err(ContractError::OnlyOwner);
        }
        if !self.token_manager.is_empty() {
            return Err(ContractError::TokenAlreadyIssued);
        }
        if egld_value != ISSUE_COST {
            return Err(ContractError::InsufficientFunds);
        }
        self.token_manager.begin_issue()?;
        let ghost nm = name@;
        let ghost tk = ticker@;
        let mut actions: Vec<Action> = Vec::new();
        actions.push(Action::IssueAndSetAllRoles {
            kind: TokenKind::Fungible,
            issue_cost: egld_value,
            name: name,
            ticker: ticker,
            num_decimals: 0,
        });
        proof {
            assert(actions_view(actions@) =~= seq![ActionView::IssueAndSetAllRoles {
                kind: TokenKind::Fungible,
                issue_cost: egld_value,
                name: nm,
                ticker: tk,
                num_decimals: 0,
            }]);
        }
        Ok(actions)
    }

    /// The callback of `issueToken`: records the issued reward token; a
    /// failed issue changes nothing.
    pub fn issue_callback(&mut self, issued: Option<Vec<u8>>) -> (r: Result<(), ContractError>)
        ensures
            match issued {
                Some(id) => match set_token_id_spec(old(self)@.token_manager, id@) {
                    Ok(slot) => r is Ok && final(self)@ == (StakingView { token_manager: slot, ..old(self)@ }),
                    Err(e) => r == Err::<(), ContractError>(e) && final(self)@ == old(self)@,
                },
                None => r is Ok && final(self)@ == old(self)@,
            },
    {
        match issued {
            Some(id) => self.token_manager.set_token_id(id),
            None => Ok(()),
        }
    }
}

/// Rewards are claimed at most once a day: after a claim at `timestamp`,
/// a claim before `timestamp + CLAIM_INTERVAL` is refused.
pub proof fn law_claim_once_per_day(s: StakingView, caller: Seq<u8>, timestamp: u64, epoch2: u64, timestamp2: u64)
    requires
        s.staking_position.contains_key(caller),
        timestamp2 < timestamp + CLAIM_INTERVAL,
    ensures
        claim_check(
            StakingView {
                staking_position: s.staking_position.insert(
                    caller,
                    StakingPositionView { last_claim_timestamp: timestamp, ..s.staking_position[caller] },
                ),
                ..s
            },
            caller,
            epoch2,
            timestamp2,
        ) is Err,
{
}

/// Staking adds to what was staked.
pub proof fn law_stakes_add_up(s: StakingView, caller: Seq<u8>, amount: u128, epoch: u64, timestamp: u64)
    requires
        s.staking_position.contains_key(caller),
        s.staking_position[caller].stake_amount + amount <= u128::MAX,
    ensures
        staked(s, caller, amount, epoch, timestamp).stake_amount == s.staking_position[caller].stake_amount + amount,
        staked(s, caller, amount, epoch, timestamp).stake_epoch == s.staking_position[caller].stake_epoch,
{
}

/// The reward token is issued once: after an issue has started, asking again
/// is refused.
pub proof fn law_issue_once(s: StakingView, caller: Seq<u8>, owner: Seq<u8>, egld_value: u128, egld_value2: u128)
    requires
        issue_check(s, caller, owner, egld_value) is Ok,
    ensures
        issue_check(
            StakingView { token_manager: issue_check(s, caller, owner, egld_value)->Ok_0, ..s },
            caller,
            owner,
            egld_value2,
        ) == Err::<TokenSlotView, ContractError>(ContractError::TokenAlreadyIssued),
{
}

/// A claim's reward is exactly 1% of the stake, rounded down, for every
/// stake.
pub proof fn law_reward_is_one_percent(stake: u128)
    ensures
        reward_of(stake) * 100 <= stake,
        stake < (reward_of(stake) + 1) * 100,
{
}

} // verus!
