//! The Resource contract: staked WINTER generates FOOD, WOOD, STONE or GOLD,
//! one unit per 1000 staked for every full period of the resource's rounds.

use vstd::prelude::*;
use crate::bytes::{bytes_eq, copy_bytes, ticker_of, token_ticker};
use crate::esdt::{Payment, PaymentView, payments_view, Action, ActionView, actions_view, ContractError, TokenKind, TokenSlot, TokenSlotView,
    begin_issue_spec};
use crate::store::Store;
use crate::tokens::{food_type, make_food_type, wood_type, make_wood_type, stone_type, make_stone_type,
    gold_type, make_gold_type, winter_ticker, make_winter_ticker};

verus! {

/// The least stake that generates resources.
pub const MIN_STAKE: u128 = 1000;

/// A resource type's token and the rounds of one generation period.
#[derive(Debug, PartialEq, Eq)]
pub struct ResourceConfig {
    pub token_id: Vec<u8>,
    pub rounds_required: u64,
}

pub struct ResourceConfigView {
    pub token_id: Seq<u8>,
    pub rounds_required: u64,
}

impl View for ResourceConfig {
    type V = ResourceConfigView;

    open spec fn view(&self) -> ResourceConfigView {
        ResourceConfigView { token_id: self.token_id@, rounds_required: self.rounds_required }
    }
}

/// The Resource contract's storage.
pub struct Resource {
    pub resource_configs: Store<Vec<u8>, ResourceConfig>,
    pub token_managers: Store<Vec<u8>, TokenSlot>,
    pub stake_amount: Store<Vec<u8>, u128>,
    pub last_claim_round: Store<Vec<u8>, u64>,
    pub pending_resources: Store<(Vec<u8>, Vec<u8>), u128>,
}

pub struct ResourceView {
    pub resource_configs: Map<Seq<u8>, ResourceConfigView>,
    pub token_managers: Map<Seq<u8>, TokenSlotView>,
    pub stake_amount: Map<Seq<u8>, u128>,
    pub last_claim_round: Map<Seq<u8>, u64>,
    pub pending_resources: Map<(Seq<u8>, Seq<u8>), u128>,
}

impl View for Resource {
    type V = ResourceView;

    open spec fn view(&self) -> ResourceView {
        ResourceView {
            resource_configs: self.resource_configs@,
            token_managers: self.token_managers@,
            stake_amount: self.stake_amount@,
            last_claim_round: self.last_claim_round@,
            pending_resources: self.pending_resources@,
        }
    }
}

/// The value stored under `k`, or 0.
pub open spec fn amount_of(m: Map<Seq<u8>, u128>, k: Seq<u8>) -> u128 {
    if m.contains_key(k) { m[k] } else { 0 }
}

/// The round stored under `k`, or 0.
pub open spec fn round_of(m: Map<Seq<u8>, u64>, k: Seq<u8>) -> u64 {
    if m.contains_key(k) { m[k] } else { 0 }
}

/// The pending amount of `resource_type` for `addr`, or 0.
pub open spec fn pending_of(m: Map<(Seq<u8>, Seq<u8>), u128>, addr: Seq<u8>, resource_type: Seq<u8>) -> u128 {
    if m.contains_key((addr, resource_type)) { m[(addr, resource_type)] } else { 0 }
}

/// The generation period of each resource type: WOOD 600 rounds, FOOD 1200,
/// STONE 1800, GOLD 2400; other types cannot be issued.
pub open spec fn rounds_for(resource_type: Seq<u8>) -> Option<u64> {
    if resource_type == food_type() {
        Some(1200)
    } else if resource_type == wood_type() {
        Some(600)
    } else if resource_type == stone_type() {
        Some(1800)
    } else if resource_type == gold_type() {
        Some(2400)
    } else {
        None
    }
}

/// The full periods of `rounds_required` rounds from `last` to `round`.
pub open spec fn periods_passed(last: u64, round: u64, rounds_required: u64) -> int {
    if rounds_required == 0 || round < last {
        0
    } else {
        (round - last) / (rounds_required as int)
    }
}

/// What generating a resource gives: the stake in thousands times the full
/// periods passed since `last`.
pub open spec fn generation(s: ResourceView, caller: Seq<u8>, resource_type: Seq<u8>, round: u64) -> Result<u128, ContractError> {
    let stake = amount_of(s.stake_amount, caller);
    if stake < MIN_STAKE {
        Err(ContractError::NoStakeFound)
    } else if !s.resource_configs.contains_key(resource_type) {
        Err(ContractError::ResourceConfigMissing)
    } else {
        let amount = (stake / MIN_STAKE) * periods_passed(
            round_of(s.last_claim_round, caller),
            round,
            s.resource_configs[resource_type].rounds_required,
        );
        if amount > u128::MAX {
            Err(ContractError::AmountOverflow)
        } else {
            Ok(amount as u128)
        }
    }
}

/// The state of a resource type's token: not asked for until it is.
pub open spec fn slot_of(m: Map<Seq<u8>, TokenSlotView>, resource_type: Seq<u8>) -> TokenSlotView {
    if m.contains_key(resource_type) { m[resource_type] } else { TokenSlotView::NotSet }
}

/// What asking for a resource type's token checks: a known type, not yet
/// configured, whose own token was not asked for yet.
pub open spec fn issue_check(s: ResourceView, resource_type: Seq<u8>) -> Result<(u64, TokenSlotView), ContractError> {
    if s.resource_configs.contains_key(resource_type) {
        Err(ContractError::ResourceTypeExists)
    } else {
        match rounds_for(resource_type) {
            None => Err(ContractError::InvalidResourceType),
            Some(rounds) => match begin_issue_spec(slot_of(s.token_managers, resource_type)) {
                Err(e) => Err(e),
                Ok(slot) => Ok((rounds, slot)),
            },
        }
    }
}

/// What staking checks: a single payment, of WINTER, of at least
/// `MIN_STAKE`. Gives the amount staked.
pub open spec fn stake_check(ps: Seq<PaymentView>) -> Result<u128, ContractError> {
    if ps.len() != 1 {
        Err(ContractError::IncorrectNumberOfTransfers)
    } else {
        match ticker_of(ps[0].token_id) {
            None => Err(ContractError::BadTickerFormat),
            Some(t) => if t != winter_ticker() {
                Err(ContractError::OnlyWinterTokens)
            } else if ps[0].amount < MIN_STAKE {
                Err(ContractError::MinimumStakeNotMet)
            } else {
                Ok(ps[0].amount)
            },
        }
    }
}

impl Resource {
    /// The storage of a freshly deployed contract.
    pub fn init() -> (r: Resource)
        ensures
            r@.resource_configs == Map::<Seq<u8>, ResourceConfigView>::empty(),
            r@.token_managers == Map::<Seq<u8>, TokenSlotView>::empty(),
            r@.stake_amount == Map::<Seq<u8>, u128>::empty(),
            r@.last_claim_round == Map::<Seq<u8>, u64>::empty(),
            r@.pending_resources == Map::<(Seq<u8>, Seq<u8>), u128>::empty(),
    {
        Resource {
            resource_configs: Store::new(),
            token_managers: Store::new(),
            stake_amount: Store::new(),
            last_claim_round: Store::new(),
            pending_resources: Store::new(),
        }
    }

    /// The configuration of `resource_type`, if it was issued.
    pub fn resource_config(&self, resource_type: &Vec<u8>) -> (r: Option<ResourceConfig>)
        ensures
            match r {
                Some(c) => self@.resource_configs.contains_key(resource_type@)
                    && c@ == self@.resource_configs[resource_type@],
                None => !self@.resource_configs.contains_key(resource_type@),
            },
    {
        match self.resource_configs.get(resource_type) {
            Some(c) => Some(ResourceConfig { token_id: copy_bytes(&c.token_id), rounds_required: c.rounds_required }),
            None => None,
        }
    }

    /// The stake of `addr` (0 when none).
    pub fn stake_amount(&self, addr: &Vec<u8>) -> (r: u128)
        ensures
            r == amount_of(self@.stake_amount, addr@),
    {
        match self.stake_amount.get(addr) {
            Some(a) => *a,
            None => 0,
        }
    }

    /// The round of `addr`'s last stake or generation (0 when none).
    pub fn last_claim_round(&self, addr: &Vec<u8>) -> (r: u64)
        ensures
            r == round_of(self@.last_claim_round, addr@),
    {
        match self.last_claim_round.get(addr) {
            Some(a) => *a,
            None => 0,
        }
    }

    /// The amount of `resource_type` that `addr` may claim (0 when none).
    pub fn pending_resources(&self, addr: &Vec<u8>, resource_type: &Vec<u8>) -> (r: u128)
        ensures
            r == pending_of(self@.pending_resources, addr@, resource_type@),
    {
        let key = (copy_bytes(addr), copy_bytes(resource_type));
        match self.pending_resources.get(&key) {
            Some(a) => *a,
            None => 0,
        }
    }

    /// `stakeWinter`: records the single payment, which must be WINTER, as
    /// the caller's stake (it replaces any earlier one) and `block_round` as
    /// the start of its generation; at least `MIN_STAKE` is needed.
    pub fn stake_winter(&mut self, caller: &Vec<u8>, payments: &Vec<Payment>, block_round: u64) -> (r: Result<(), ContractError>)
        ensures
            match stake_check(payments_view(payments@)) {
                Err(e) => r == Err::<(), ContractError>(e) && final(self)@ == old(self)@,
                Ok(amount) => r is Ok && final(self)@ == (ResourceView {
                    stake_amount: old(self)@.stake_amount.insert(caller@, amount),
                    last_claim_round: old(self)@.last_claim_round.insert(caller@, block_round),
                    ..old(self)@
                }),
            },
    {
        if payments.len() != 1 {
            return Err(ContractError::IncorrectNumberOfTransfers);
        }
        match token_ticker(&payments[0].token_id) {
            None => {
                return Err(ContractError::BadTickerFormat);
            },
            Some(t) => {
                if !bytes_eq(&t, &make_winter_ticker()) {
                    return Err(ContractError::OnlyWinterTokens);
                }
            },
        }
        let amount = payments[0].amount;
        if amount < MIN_STAKE {
            return Err(ContractError::MinimumStakeNotMet);
        }
        self.stake_amount.insert(copy_bytes(caller), amount);
        self.last_claim_round.insert(copy_bytes(caller), block_round);
        Ok(())
    }

    /// `generateResources`: turns the periods of `resource_type` passed since
    /// the caller's last generation into pending resources of that type
    /// (replacing what was pending) and restarts the count at `block_round`;
    /// nothing changes when the amount is 0.
    pub fn generate_resources(&mut self, caller: &Vec<u8>, resource_type: &Vec<u8>, block_round: u64) -> (r: Result<(), ContractError>)
        ensures
            match generation(old(self)@, caller@, resource_type@, block_round) {
                Err(e) => r == Err::<(), ContractError>(e) && final(self)@ == old(self)@,
                Ok(amount) => r is Ok && if amount > 0 {
                    final(self)@ == (ResourceView {
                        pending_resources: old(self)@.pending_resources.insert((caller@, resource_type@), amount),
                        last_claim_round: old(self)@.last_claim_round.insert(caller@, block_round),
                        ..old(self)@
                    })
                } else {
                    final(self)@ == old(self)@
                },
            },
    {
        let stake = self.stake_amount(caller);
        let last = self.last_claim_round(caller);
        if stake < MIN_STAKE {
            return Err(ContractError::NoStakeFound);
        }
        let rounds_required = match self.resource_configs.get(resource_type) {
            Some(c) => c.rounds_required,
            None => {
                return Err(ContractError::ResourceConfigMissing);
            },
        };
        let multiplier = stake / MIN_STAKE;
        let periods: u64 = if rounds_required == 0 || block_round < last {
            0
        } else {
            (block_round - last) / rounds_required
        };
        let amount = match multiplier.checked_mul(periods as u128) {
            Some(a) => a,
            None => {
                return Err(ContractError::AmountOverflow);
            },
        };
        if amount > 0 {
            self.pending_resources.insert((copy_bytes(caller), copy_bytes(resource_type)), amount);
            self.last_claim_round.insert(copy_bytes(caller), block_round);
        }
        Ok(())
    }

    /// `claimResources`: mints the caller's pending resources of
    /// `resource_type` and sends them to the caller.
    pub fn claim_resources(&mut self, caller: &Vec<u8>, resource_type: &Vec<u8>) -> (r: Result<Vec<Action>, ContractError>)
        ensures
            if pending_of(old(self)@.pending_resources, caller@, resource_type@) == 0 {
                r == Err::<Vec<Action>, ContractError>(ContractError::NoResourcesToClaim) && final(self)@ == old(self)@
            } else if !old(self)@.resource_configs.contains_key(resource_type@) {
                r == Err::<Vec<Action>, ContractError>(ContractError::ResourceConfigMissing) && final(self)@ == old(self)@
            } else {
                r is Ok && actions_view(r->Ok_0@) == seq![
                    ActionView::Mint {
                        token_id: old(self)@.resource_configs[resource_type@].token_id,
                        nonce: 0,
                        amount: pending_of(old(self)@.pending_resources, caller@, resource_type@),
                    },
                    ActionView::Send {
                        to: caller@,
                        token_id: old(self)@.resource_configs[resource_type@].token_id,
                        nonce: 0,
                        amount: pending_of(old(self)@.pending_resources, caller@, resource_type@),
                    },
                ] && final(self)@ == (ResourceView {
                    pending_resources: old(self)@.pending_resources.remove((caller@, resource_type@)),
                    ..old(self)@
                })
            },
    {
        let amount = self.pending_resources(caller, resource_type);
        if amount == 0 {
            return Err(ContractError::NoResourcesToClaim);
        }
        let token_id = match self.resource_configs.get(resource_type) {
            Some(c) => copy_bytes(&c.token_id),
            None => {
                return Err(ContractError::ResourceConfigMissing);
            },
        };
        let ghost tid = token_id@;
        let mut actions: Vec<Action> = Vec::new();
        actions.push(Action::Mint { token_id: copy_bytes(&token_id), nonce: 0, amount: amount });
        actions.push(Action::Send { to: copy_bytes(caller), token_id: token_id, nonce: 0, amount: amount });
        self.pending_resources.remove(&(copy_bytes(caller), copy_bytes(resource_type)));
        proof {
            assert(actions_view(actions@) =~= seq![
                ActionView::Mint { token_id: tid, nonce: 0, amount: amount },
                ActionView::Send { to: caller@, token_id: tid, nonce: 0, amount: amount },
            ]);
        }
        Ok(actions)
    }

    /// The generation period of `resource_type`, when it is a known type.
    pub fn rounds_required_for(resource_type: &Vec<u8>) -> (r: Option<u64>)
        ensures
            r == rounds_for(resource_type@),
    {
        if bytes_eq(resource_type, &make_food_type()) {
            Some(1200)
        } else if bytes_eq(resource_type, &make_wood_type()) {
            Some(600)
        } else if bytes_eq(resource_type, &make_stone_type()) {
            Some(1800)
        } else if bytes_eq(resource_type, &make_gold_type()) {
            Some(2400)
        } else {
            None
        }
    }

    /// `issueToken`: asks for the token of a new resource type, paying
    /// `egld_value`. Gives the issue action and the type's generation period,
    /// which comes back with the callback.
    pub fn issue_token(&mut self, resource_type: &Vec<u8>, name: Vec<u8>, ticker: Vec<u8>, egld_value: u128) -> (r: Result<(Vec<Action>, u64), ContractError>)
        ensures
            match issue_check(old(self)@, resource_type@) {
                Ok((rounds, slot)) => r is Ok && r->Ok_0.1 == rounds
                    && final(self)@ == (ResourceView {
                        token_managers: old(self)@.token_managers.insert(resource_type@, slot),
                        ..old(self)@
                    })
                    && actions_view(r->Ok_0.0@) == seq![ActionView::IssueAndSetAllRoles {
                        kind: TokenKind::Fungible,
                        issue_cost: egld_value,
                        name: name@,
                        ticker: ticker@,
                        num_decimals: 0,
                    }],
                Err(e) => r == Err::<(Vec<Action>, u64), ContractError>(e) && final(self)@ == old(self)@,
            },
    {
        if self.resource_configs.contains(resource_type) {
            return Err(ContractError::ResourceTypeExists);
        }
        let rounds_required = match Self::rounds_required_for(resource_type) {
            Some(r) => r,
            None => {
                return Err(ContractError::InvalidResourceType);
            },
        };
        match self.token_managers.get(resource_type) {
            Some(TokenSlot::Pending) => {
                return Err(ContractError::IssueAlreadyCalled);
            },
            Some(TokenSlot::Token(_)) => {
                return Err(ContractError::TokenIdAlreadySet);
            },
            _ => {},
        }
        self.token_managers.insert(copy_bytes(resource_type), TokenSlot::Pending);
        let ghost nm = name@;
        let ghost tk = ticker@;
        let mut actions: Vec<Action> = Vec::new();
        actions.push(Action::IssueAndSetAllRoles {
            kind: TokenKind::Fungible,
            issue_cost: egld_value,
            name: name,
            ticker: ticker,
            num_decimals: 0,
        });
        proof {
            assert(actions_view(actions@) =~= seq![ActionView::IssueAndSetAllRoles {
                kind: TokenKind::Fungible,
                issue_cost: egld_value,
                name: nm,
                ticker: tk,
                num_decimals: 0,
            }]);
        }
        Ok((actions, rounds_required))
    }

    /// The callback of `issueToken`: records the issued token as the
    /// configuration of `resource_type`; a failed issue is refused.
    pub fn token_callback(&mut self, resource_type: &Vec<u8>, rounds_required: u64, issued: Option<Vec<u8>>) -> (r: Result<(), ContractError>)
        ensures
            match issued {
                Some(id) => r is Ok && final(self)@ == (ResourceView {
                    resource_configs: old(self)@.resource_configs.insert(
                        resource_type@,
                        ResourceConfigView { token_id: id@, rounds_required: rounds_required },
                    ),
                    ..old(self)@
                }),
                None => r == Err::<(), ContractError>(ContractError::TokenIssueFailed) && final(self)@ == old(self)@,
            },
    {
        match issued {
            Some(id) => {
                self.resource_configs.insert(copy_bytes(resource_type), ResourceConfig { token_id: id, rounds_required });
                Ok(())
            },
            None => Err(ContractError::TokenIssueFailed),
        }
    }
}

/// Each resource type's token is asked for once: once its issue has started,
/// that type cannot be issued again, and once it is configured, it is refused
/// as existing; the other types are not affected.
pub proof fn law_issue_once(s: ResourceView, resource_type: Seq<u8>, other_type: Seq<u8>, id: Seq<u8>)
    requires
        issue_check(s, resource_type) is Ok,
    ensures
        issue_check(
            ResourceView {
                token_managers: s.token_managers.insert(resource_type, issue_check(s, resource_type)->Ok_0.1),
                ..s
            },
            resource_type,
        ) == Err::<(u64, TokenSlotView), ContractError>(ContractError::IssueAlreadyCalled),
        other_type != resource_type ==> issue_check(
            ResourceView {
                token_managers: s.token_managers.insert(resource_type, issue_check(s, resource_type)->Ok_0.1),
                ..s
            },
            other_type,
        ) == issue_check(s, other_type),
        issue_check(
            ResourceView {
                resource_configs: s.resource_configs.insert(
                    resource_type,
                    ResourceConfigView { token_id: id, rounds_required: issue_check(s, resource_type)->Ok_0.0 },
                ),
                ..s
            },
            resource_type,
        ) == Err::<(u64, TokenSlotView), ContractError>(ContractError::ResourceTypeExists),
{
}

/// Only WINTER can be staked: a stake that is accepted came as a single
/// payment whose ticker is WINTER, of at least `MIN_STAKE`.
pub proof fn law_only_winter_staked(ps: Seq<PaymentView>)
    requires
        stake_check(ps) is Ok,
    ensures
        ps.len() == 1,
        ticker_of(ps[0].token_id) == Some(winter_ticker()),
        stake_check(ps)->Ok_0 == ps[0].amount,
        ps[0].amount >= MIN_STAKE,
{
}

/// A stake of `k` thousand generates `k` units per period, and that is what
/// becomes pending.
pub proof fn law_generation_scales_with_stake(s: ResourceView, caller: Seq<u8>, resource_type: Seq<u8>, round: u64, k: u128)
    requires
        k >= 1,
        amount_of(s.stake_amount, caller) == k * 1000,
        generation(s, caller, resource_type, round) is Ok,
    ensures
        generation(s, caller, resource_type, round)->Ok_0 == k * periods_passed(
            round_of(s.last_claim_round, caller),
            round,
            s.resource_configs[resource_type].rounds_required,
        ),
        pending_of(
            s.pending_resources.insert((caller, resource_type), generation(s, caller, resource_type, round)->Ok_0),
            caller,
            resource_type,
        ) == k * periods_passed(
            round_of(s.last_claim_round, caller),
            round,
            s.resource_configs[resource_type].rounds_required,
        ),
{
    assert((k * 1000) / 1000 == k) by (nonlinear_arith);
}

/// After a claim nothing of that type is pending, so claiming again is
/// refused until more is generated.
pub proof fn law_claim_clears(s: ResourceView, caller: Seq<u8>, resource_type: Seq<u8>)
    ensures
        pending_of(s.pending_resources.remove((caller, resource_type)), caller, resource_type) == 0,
{
}

/// What is generated is the stake's share in whole thousands times the full
/// periods passed, for every stake: at most `stake * periods / 1000`, and
/// less than one unit per period below it.
pub proof fn law_generation_is_floor_share(s: ResourceView, caller: Seq<u8>, resource_type: Seq<u8>, round: u64)
    requires
        generation(s, caller, resource_type, round) is Ok,
    ensures
        ({
            let amount = generation(s, caller, resource_type, round)->Ok_0 as int;
            let stake = amount_of(s.stake_amount, caller) as int;
            let periods = periods_passed(
                round_of(s.last_claim_round, caller),
                round,
                s.resource_configs[resource_type].rounds_required,
            );
            &&& periods >= 0
            &&& amount * 1000 <= stake * periods
            &&& stake * periods < (amount + periods) * 1000 || periods == 0
        }),
{
    let amount = generation(s, caller, resource_type, round)->Ok_0 as int;
    let stake = amount_of(s.stake_amount, caller) as int;
    let last = round_of(s.last_claim_round, caller);
    let rounds = s.resource_configs[resource_type].rounds_required;
    let periods = periods_passed(last, round, rounds);
    if rounds != 0 && round >= last {
        assert(periods >= 0) by (nonlinear_arith)
            requires
                periods == (round - last) / (rounds as int),
                round - last >= 0,
                rounds > 0,
        ;
    }
    let q = stake / 1000;
    let r = stake % 1000;
    assert(stake == 1000 * q + r && 0 <= r < 1000);
    assert(amount == q * periods);
    assert(amount * 1000 <= stake * periods && (stake * periods < (amount + periods) * 1000 || periods == 0))
        by (nonlinear_arith)
        requires
            stake == 1000 * q + r,
            0 <= r < 1000,
            amount == q * periods,
            periods >= 0,
    ;
}

} // verus!
