//! The Ore contract: STONE is smelted into ORE, which can be claimed from the
//! next block on.

use vstd::prelude::*;
use crate::bytes::copy_bytes;
use crate::esdt::{Payment, PaymentView, payments_view, Action, ActionView, actions_view, ContractError,
    TokenKind, TokenSlot, TokenSlotView, begin_issue_spec, tally, tally_resources, resource_burns,
    resource_burn_actions, lemma_tally_errors, lemma_tally_class_totals, lemma_same_prefix_one_class,
    lemma_paid_class_burned, lemma_paid_has_payment, law_single_token_burned_once, in_class, class_burns, burnable};
use crate::store::Store;
use crate::tokens::{stone_prefix, make_stone_prefix};

verus! {

/// STONE needed to mine ORE.
pub const STONE_REQUIRED: u128 = 20;

/// ORE yielded by each mining.
pub const ORE_PER_CLAIM: u128 = 1;

/// The Ore contract's storage.
pub struct Ore {
    pub ore_token_id: Vec<u8>,
    pub token_manager: TokenSlot,
    pub next_nonce: u64,
    pub pending_claims: Store<Vec<u8>, u64>,
}

pub struct OreView {
    pub ore_token_id: Seq<u8>,
    pub token_manager: TokenSlotView,
    pub next_nonce: u64,
    pub pending_claims: Map<Seq<u8>, u64>,
}

impl View for Ore {
    type V = OreView;

    open spec fn view(&self) -> OreView {
        OreView {
            ore_token_id: self.ore_token_id@,
            token_manager: self.token_manager@,
            next_nonce: self.next_nonce,
            pending_claims: self.pending_claims@,
        }
    }
}

/// What paying for ORE checks: only STONE paid, enough of it, a STONE token
/// to burn, and a claim block that fits. Gives the STONE amount.
pub open spec fn mint_ore_check(ps: Seq<PaymentView>, block_nonce: u64) -> Result<u128, ContractError> {
    match tally(ps, 6, stone_prefix(), stone_prefix(), true) {
        Err(e) => Err(e),
        Ok((stone, _)) => if stone < STONE_REQUIRED {
            Err(ContractError::NotEnoughStone)
        } else if resource_burns(ps, 6, stone_prefix(), stone_prefix()).len() == 0 {
            Err(ContractError::StoneTokenNotFound)
        } else if block_nonce == u64::MAX {
            Err(ContractError::CounterOverflow)
        } else {
            Ok(stone)
        },
    }
}

impl Ore {
    /// The storage of a freshly deployed contract.
    pub fn init() -> (r: Ore)
        ensures
            r@.ore_token_id == Seq::<u8>::empty(),
            r@.token_manager == TokenSlotView::NotSet,
            r@.next_nonce == 0,
            r@.pending_claims == Map::<Seq<u8>, u64>::empty(),
    {
        Ore {
            ore_token_id: Vec::new(),
            token_manager: TokenSlot::NotSet,
            next_nonce: 0,
            pending_claims: Store::new(),
        }
    }

    /// The identifier of the ORE token (empty before it is issued).
    pub fn ore_token_id(&self) -> (r: Vec<u8>)
        ensures
            r@ == self@.ore_token_id,
    {
        copy_bytes(&self.ore_token_id)
    }

    /// The block from which `addr` may claim, if a claim is pending.
    pub fn pending_claim(&self, addr: &Vec<u8>) -> (r: Option<u64>)
        ensures
            r == (if self@.pending_claims.contains_key(addr@) {
                Some(self@.pending_claims[addr@])
            } else {
                None::<u64>
            }),
    {
        match self.pending_claims.get(addr) {
            Some(b) => Some(*b),
            None => None,
        }
    }

    /// Counts the STONE paid (refusing any other token) and checks there is
    /// enough.
    pub fn get_and_validate_resources(payments: &Vec<Payment>) -> (r: Result<u128, ContractError>)
        ensures
            match tally(payments_view(payments@), 6, stone_prefix(), stone_prefix(), true) {
                Err(e) => r == Err::<u128, ContractError>(e),
                Ok((s, _)) => if s < STONE_REQUIRED {
                    r == Err::<u128, ContractError>(ContractError::NotEnoughStone)
                } else {
                    r == Ok::<u128, ContractError>(s)
                },
            },
    {
        let prefix = make_stone_prefix();
        let (stone, _) = tally_resources(payments, 6, &prefix, &prefix, true)?;
        if stone < STONE_REQUIRED {
            return Err(ContractError::NotEnoughStone);
        }
        Ok(stone)
    }

    /// The burns of the paid STONE: once per token it was paid in, of the
    /// whole amount paid in that token, with nonce 0 (once, of its total, when
    /// paid in a single token); refused when no STONE payment is found.
    pub fn burn_resources(payments: &Vec<Payment>) -> (r: Result<Vec<Action>, ContractError>)
        requires
            burnable(payments_view(payments@), 6, stone_prefix(), stone_prefix()),
        ensures
            if resource_burns(payments_view(payments@), 6, stone_prefix(), stone_prefix()).len() == 0 {
                r == Err::<Vec<Action>, ContractError>(ContractError::StoneTokenNotFound)
            } else {
                r is Ok && actions_view(r->Ok_0@) == resource_burns(payments_view(payments@), 6, stone_prefix(), stone_prefix())
            },
    {
        let prefix = make_stone_prefix();
        let actions = resource_burn_actions(payments, 6, &prefix, &prefix);
        if actions.len() == 0 {
            return Err(ContractError::StoneTokenNotFound);
        }
        Ok(actions)
    }

    /// `mintOre`: pays STONE for ORE that the caller may claim from the next
    /// block on. The STONE is burned.
    pub fn mint_ore(&mut self, caller: &Vec<u8>, payments: &Vec<Payment>, block_nonce: u64) -> (r: Result<Vec<Action>, ContractError>)
        ensures
            match mint_ore_check(payments_view(payments@), block_nonce) {
                Ok(_) => r is Ok
                    && actions_view(r->Ok_0@) == resource_burns(payments_view(payments@), 6, stone_prefix(), stone_prefix())
                    && final(self)@ == (OreView {
                        pending_claims: old(self)@.pending_claims.insert(caller@, (block_nonce + 1) as u64),
                        ..old(self)@
                    }),
                Err(e) => r == Err::<Vec<Action>, ContractError>(e) && final(self)@ == old(self)@,
            },
    {
        Self::get_and_validate_resources(payments)?;
        proof {
            lemma_tally_class_totals(payments_view(payments@), 6, stone_prefix(), stone_prefix(), true);
        }
        let actions = Self::burn_resources(payments)?;
        if block_nonce == u64::MAX {
            return Err(ContractError::CounterOverflow);
        }
        self.pending_claims.insert(copy_bytes(caller), block_nonce + 1);
        Ok(actions)
    }

    /// The ORE minted and sent to `to`.
    pub fn mint_helper(&self, to: &Vec<u8>) -> (r: Vec<Action>)
        ensures
            actions_view(r@) == seq![
                ActionView::Mint { token_id: self@.ore_token_id, nonce: 0, amount: ORE_PER_CLAIM },
                ActionView::Send { to: to@, token_id: self@.ore_token_id, nonce: 0, amount: ORE_PER_CLAIM },
            ],
    {
        let mut actions: Vec<Action> = Vec::new();
        actions.push(Action::Mint { token_id: copy_bytes(&self.ore_token_id), nonce: 0, amount: ORE_PER_CLAIM });
        actions.push(Action::Send { to: copy_bytes(to), token_id: copy_bytes(&self.ore_token_id), nonce: 0, amount: ORE_PER_CLAIM });
        proof {
            assert(actions_view(actions@) =~= seq![
                ActionView::Mint { token_id: self@.ore_token_id, nonce: 0, amount: ORE_PER_CLAIM },
                ActionView::Send { to: to@, token_id: self@.ore_token_id, nonce: 0, amount: ORE_PER_CLAIM },
            ]);
        }
        actions
    }

    /// `claimOre`: once the claim block is reached, ORE is minted and sent to
    /// the caller and the pending claim is cleared.
    pub fn claim_ore(&mut self, caller: &Vec<u8>, block_nonce: u64) -> (r: Result<Vec<Action>, ContractError>)
        ensures
            if !old(self)@.pending_claims.contains_key(caller@) {
                r == Err::<Vec<Action>, ContractError>(ContractError::NoPendingClaim) && final(self)@ == old(self)@
            } else if block_nonce < old(self)@.pending_claims[caller@] {
                r == Err::<Vec<Action>, ContractError>(ContractError::TooEarlyToClaim) && final(self)@ == old(self)@
            } else {
                r is Ok && actions_view(r->Ok_0@) == seq![
                    ActionView::Mint { token_id: old(self)@.ore_token_id, nonce: 0, amount: ORE_PER_CLAIM },
                    ActionView::Send { to: caller@, token_id: old(self)@.ore_token_id, nonce: 0, amount: ORE_PER_CLAIM },
                ] && final(self)@ == (OreView { pending_claims: old(self)@.pending_claims.remove(caller@), ..old(self)@ })
            },
    {
        let claim_block = match self.pending_claims.get(caller) {
            None => {
                return Err(ContractError::NoPendingClaim);
            },
            Some(b) => *b,
        };
        if block_nonce < claim_block {
            return Err(ContractError::TooEarlyToClaim);
        }
        let actions = self.mint_helper(caller);
        self.pending_claims.remove(caller);
        Ok(actions)
    }

    /// The callback of `issue`: records the ORE token; a failed issue is
    /// refused.
    pub fn ore_token_callback(&mut self, issued: Option<Vec<u8>>) -> (r: Result<(), ContractError>)
        ensures
            match issued {
                Some(id) => r is Ok && final(self)@ == (OreView { ore_token_id: id@, next_nonce: 1, ..old(self)@ }),
                None => r == Err::<(), ContractError>(ContractError::TokenIssueFailed) && final(self)@ == old(self)@,
            },
    {
        match issued {
            Some(id) => {
                self.ore_token_id = id;
                self.next_nonce = 1;
                Ok(())
            },
            None => Err(ContractError::TokenIssueFailed),
        }
    }

    /// `issue`: asks for the fungible ORE token, paying `egld_value`.
    pub fn issue_token(&mut self, name: Vec<u8>, ticker: Vec<u8>, egld_value: u128) -> (r: Result<Vec<Action>, ContractError>)
        ensures
            match begin_issue_spec(old(self)@.token_manager) {
                Ok(slot) => r is Ok && final(self)@ == (OreView { token_manager: slot, ..old(self)@ })
                    && actions_view(r->Ok_0@) == seq![ActionView::IssueAndSetAllRoles {
                        kind: TokenKind::Fungible,
                        issue_cost: egld_value,
                        name: name@,
                        ticker: ticker@,
                        num_decimals: 0,
                    }],
                Err(e) => r == Err::<Vec<Action>, ContractError>(e) && final(self)@ == old(self)@,
            },
    {
        self.token_manager.begin_issue()?;
        let ghost nm = name@;
        let ghost tk = ticker@;
        let mut actions: Vec<Action> = Vec::new();
        actions.push(Action::IssueAndSetAllRoles {
            kind: TokenKind::Fungible,
            issue_cost: egld_value,
            name: name,
            ticker: ticker,
            num_decimals: 0,
        });
        proof {
            assert(actions_view(actions@) =~= seq![ActionView::IssueAndSetAllRoles {
                kind: TokenKind::Fungible,
                issue_cost: egld_value,
                name: nm,
                ticker: tk,
                num_decimals: 0,
            }]);
        }
        Ok(actions)
    }
}

/// Paying enough STONE always leaves a STONE token to burn: `mintOre` is
/// never refused for want of one; STONE paid in one token is burned once, of
/// the amount counted, with nonce 0.
pub proof fn law_stone_found(ps: Seq<PaymentView>, block_nonce: u64, stone_id: Seq<u8>)
    ensures
        mint_ore_check(ps, block_nonce) != Err::<u128, ContractError>(ContractError::StoneTokenNotFound),
        mint_ore_check(ps, block_nonce) is Ok && (forall|k: int| 0 <= k < ps.len()
            && in_class(#[trigger] ps[k], 6, stone_prefix(), stone_prefix(), false) ==> ps[k].token_id == stone_id)
            ==> resource_burns(ps, 6, stone_prefix(), stone_prefix()) == seq![
                ActionView::Burn { token_id: stone_id, nonce: 0, amount: mint_ore_check(ps, block_nonce)->Ok_0 },
            ],
{
    lemma_tally_errors(ps, 6, stone_prefix(), stone_prefix(), true);
    lemma_same_prefix_one_class(ps, 6, stone_prefix(), true);
    if tally(ps, 6, stone_prefix(), stone_prefix(), true) is Ok {
        lemma_tally_class_totals(ps, 6, stone_prefix(), stone_prefix(), true);
        lemma_paid_class_burned(ps, 6, stone_prefix(), stone_prefix(), false);
        assert(resource_burns(ps, 6, stone_prefix(), stone_prefix())
            =~= class_burns(ps, 6, stone_prefix(), stone_prefix(), false));
        if mint_ore_check(ps, block_nonce) is Ok && (forall|k: int| 0 <= k < ps.len()
            && in_class(#[trigger] ps[k], 6, stone_prefix(), stone_prefix(), false) ==> ps[k].token_id == stone_id) {
            lemma_paid_has_payment(ps, 6, stone_prefix(), stone_prefix(), false);
            law_single_token_burned_once(ps, 6, stone_prefix(), stone_prefix(), false, stone_id);
        }
    }
}

/// ORE mined at block `block_nonce` can be claimed from the next block on and
/// not before.
pub proof fn law_claim_next_block(s: OreView, caller: Seq<u8>, block_nonce: u64, claim_at: u64)
    requires
        block_nonce < u64::MAX,
    ensures
        s.pending_claims.insert(caller, (block_nonce + 1) as u64).contains_key(caller),
        (claim_at < s.pending_claims.insert(caller, (block_nonce + 1) as u64)[caller]) <==> (claim_at <= block_nonce),
{
}

/// After a claim, the caller has no pending claim, so claiming again is
/// refused until ORE is mined again.
pub proof fn law_claim_once(s: OreView, caller: Seq<u8>)
    ensures
        !s.pending_claims.remove(caller).contains_key(caller),
{
}

} // verus!
