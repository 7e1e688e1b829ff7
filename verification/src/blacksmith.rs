//! The Blacksmith contract: shields are forged from ORE and swords from GOLD
//! and ORE; the tool NFT can be claimed after a waiting period.

use vstd::prelude::*;
use crate::bytes::copy_bytes;
use crate::esdt::{Payment, PaymentView, payments_view, Action, ActionView, actions_view, ContractError,
    TokenKind, TokenSlot, TokenSlotView, begin_issue_spec, tally, tally_resources, resource_burns,
    resource_burn_actions, burnable, burned_of, paid_of, law_burns_match_payments, lemma_tally_class_totals,
    lemma_same_prefix_one_class, law_single_token_burned_once, lemma_paid_has_payment, in_class, class_burns, class_total};
use crate::store::Store;
use crate::tokens::{gold_prefix, make_gold_prefix, ore_prefix, make_ore_prefix, shield_name,
    make_shield_name, sword_name, make_sword_name};

verus! {

/// Blocks a caller waits between paying for a tool and claiming it.
pub const BLOCKS_IN_HOUR: u64 = 600;

/// ORE needed for a shield.
pub const ORE_REQUIRED_FOR_SHIELD: u128 = 2;

/// GOLD needed for a sword.
pub const GOLD_REQUIRED_FOR_SWORD: u128 = 1;

/// ORE needed for a sword.
pub const ORE_REQUIRED_FOR_SWORD: u128 = 3;

/// The two tools the Blacksmith forges.
#[derive(PartialEq, Eq, Structural, Clone, Copy, Debug)]
pub enum Tool {
    Shield,
    Sword,
}

/// A tool ordered and paid for: which one, and the block from which it may be
/// claimed.
#[derive(PartialEq, Eq, Structural, Clone, Copy, Debug)]
pub struct PendingTool {
    pub claim_block: u64,
    pub tool: Tool,
}

impl View for PendingTool {
    type V = PendingTool;

    open spec fn view(&self) -> PendingTool {
        *self
    }
}

/// The Blacksmith contract's storage.
pub struct Blacksmith {
    pub tool_token_id: Vec<u8>,
    pub token_manager: TokenSlot,
    pub next_nonce: u64,
    pub pending_claims: Store<Vec<u8>, PendingTool>,
}

pub struct BlacksmithView {
    pub tool_token_id: Seq<u8>,
    pub token_manager: TokenSlotView,
    pub next_nonce: u64,
    pub pending_claims: Map<Seq<u8>, PendingTool>,
}

impl View for Blacksmith {
    type V = BlacksmithView;

    open spec fn view(&self) -> BlacksmithView {
        BlacksmithView {
            tool_token_id: self.tool_token_id@,
            token_manager: self.token_manager@,
            next_nonce: self.next_nonce,
            pending_claims: self.pending_claims@,
        }
    }
}

/// What claiming `tool` checks: the caller ordered that tool, its waiting
/// period is over, and a nonce is left for the new NFT.
pub open spec fn claim_check(s: BlacksmithView, caller: Seq<u8>, tool: Tool, block_nonce: u64) -> Result<(), ContractError> {
    if !s.pending_claims.contains_key(caller) || s.pending_claims[caller].tool != tool {
        Err(ContractError::NoPendingClaim)
    } else if block_nonce < s.pending_claims[caller].claim_block {
        Err(ContractError::TooEarlyToClaim)
    } else if s.next_nonce == u64::MAX {
        Err(ContractError::CounterOverflow)
    } else {
        Ok(())
    }
}

/// The storage after `caller` ordered `tool` at block `block_nonce`.
pub open spec fn ordered(s: BlacksmithView, caller: Seq<u8>, tool: Tool, block_nonce: u64) -> BlacksmithView {
    BlacksmithView {
        pending_claims: s.pending_claims.insert(
            caller,
            PendingTool { claim_block: (block_nonce + BLOCKS_IN_HOUR) as u64, tool: tool },
        ),
        ..s
    }
}

/// The name of a tool's NFT.
pub open spec fn tool_name(tool: Tool) -> Seq<u8> {
    match tool {
        Tool::Shield => shield_name(),
        Tool::Sword => sword_name(),
    }
}

/// What paying for a shield counts and checks: only ORE paid, enough of it,
/// and a claim block that fits.
pub open spec fn shield_check(ps: Seq<PaymentView>, block_nonce: u64) -> Result<u128, ContractError> {
    match tally(ps, 4, ore_prefix(), ore_prefix(), true) {
        Err(e) => Err(e),
        Ok((ore, _)) => if ore < ORE_REQUIRED_FOR_SHIELD {
            Err(ContractError::NotEnoughOre)
        } else if block_nonce + BLOCKS_IN_HOUR > u64::MAX {
            Err(ContractError::CounterOverflow)
        } else {
            Ok(ore)
        },
    }
}

/// What paying for a sword counts and checks: only GOLD and ORE paid, enough
/// of each, and a claim block that fits.
pub open spec fn sword_check(ps: Seq<PaymentView>, block_nonce: u64) -> Result<(u128, u128), ContractError> {
    match tally(ps, 5, gold_prefix(), ore_prefix(), true) {
        Err(e) => Err(e),
        Ok((gold, ore)) => if gold < GOLD_REQUIRED_FOR_SWORD {
            Err(ContractError::NotEnoughGold)
        } else if ore < ORE_REQUIRED_FOR_SWORD {
            Err(ContractError::NotEnoughOre)
        } else if block_nonce + BLOCKS_IN_HOUR > u64::MAX {
            Err(ContractError::CounterOverflow)
        } else {
            Ok((gold, ore))
        },
    }
}

/// The actions that deliver a new tool named `name` to `to`.
pub open spec fn tool_actions(s: BlacksmithView, to: Seq<u8>, name: Seq<u8>) -> Seq<ActionView> {
    seq![
        ActionView::CreateNft { token_id: s.tool_token_id, amount: 1, name: name },
        ActionView::Send { to: to, token_id: s.tool_token_id, nonce: s.next_nonce, amount: 1 },
    ]
}

impl Blacksmith {
    /// The storage of a freshly deployed contract.
    pub fn init() -> (r: Blacksmith)
        ensures
            r@.tool_token_id == Seq::<u8>::empty(),
            r@.token_manager == TokenSlotView::NotSet,
            r@.next_nonce == 0,
            r@.pending_claims == Map::<Seq<u8>, PendingTool>::empty(),
    {
        Blacksmith {
            tool_token_id: Vec::new(),
            token_manager: TokenSlot::NotSet,
            next_nonce: 0,
            pending_claims: Store::new(),
        }
    }

    /// The identifier of the TOOL collection (empty before it is issued).
    pub fn tool_token_id(&self) -> (r: Vec<u8>)
        ensures
            r@ == self@.tool_token_id,
    {
        copy_bytes(&self.tool_token_id)
    }

    /// The nonce the next minted tool gets.
    pub fn next_nonce(&self) -> (r: u64)
        ensures
            r == self@.next_nonce,
    {
        self.next_nonce
    }

    /// The tool `addr` ordered and may claim, if any.
    pub fn pending_claim(&self, addr: &Vec<u8>) -> (r: Option<PendingTool>)
        ensures
            r == (if self@.pending_claims.contains_key(addr@) {
                Some(self@.pending_claims[addr@])
            } else {
                None::<PendingTool>
            }),
    {
        match self.pending_claims.get(addr) {
            Some(b) => Some(*b),
            None => None,
        }
    }

    /// Counts the ORE paid for a shield (refusing any other token) and checks
    /// there is enough.
    pub fn validate_resources_for_shield(payments: &Vec<Payment>) -> (r: Result<u128, ContractError>)
        ensures
            match tally(payments_view(payments@), 4, ore_prefix(), ore_prefix(), true) {
                Err(e) => r == Err::<u128, ContractError>(e),
                Ok((o, _)) => if o < ORE_REQUIRED_FOR_SHIELD {
                    r == Err::<u128, ContractError>(ContractError::NotEnoughOre)
                } else {
                    r == Ok::<u128, ContractError>(o)
                },
            },
    {
        let ore_prefix = make_ore_prefix();
        let (ore, _) = tally_resources(payments, 4, &ore_prefix, &ore_prefix, true)?;
        if ore < ORE_REQUIRED_FOR_SHIELD {
            return Err(ContractError::NotEnoughOre);
        }
        Ok(ore)
    }

    /// The burns of the ORE paid for a shield: once per token it was paid in,
    /// of the whole amount paid in that token, with nonce 0 (once, of its
    /// total, when paid in a single token).
    pub fn burn_resources_for_shield(payments: &Vec<Payment>) -> (r: Vec<Action>)
        requires
            burnable(payments_view(payments@), 4, ore_prefix(), ore_prefix()),
        ensures
            actions_view(r@) == resource_burns(payments_view(payments@), 4, ore_prefix(), ore_prefix()),
    {
        let ore_prefix = make_ore_prefix();
        resource_burn_actions(payments, 4, &ore_prefix, &ore_prefix)
    }

    /// Counts the GOLD and ORE paid for a sword (refusing any other token) and
    /// checks there is enough.
    pub fn validate_resources_for_sword(payments: &Vec<Payment>) -> (r: Result<(u128, u128), ContractError>)
        ensures
            match tally(payments_view(payments@), 5, gold_prefix(), ore_prefix(), true) {
                Err(e) => r == Err::<(u128, u128), ContractError>(e),
                Ok((g, o)) => if g < GOLD_REQUIRED_FOR_SWORD {
                    r == Err::<(u128, u128), ContractError>(ContractError::NotEnoughGold)
                } else if o < ORE_REQUIRED_FOR_SWORD {
                    r == Err::<(u128, u128), ContractError>(ContractError::NotEnoughOre)
                } else {
                    r == Ok::<(u128, u128), ContractError>((g, o))
                },
            },
    {
        let (gold, ore) = tally_resources(payments, 5, &make_gold_prefix(), &make_ore_prefix(), true)?;
        if gold < GOLD_REQUIRED_FOR_SWORD {
            return Err(ContractError::NotEnoughGold);
        }
        if ore < ORE_REQUIRED_FOR_SWORD {
            return Err(ContractError::NotEnoughOre);
        }
        Ok((gold, ore))
    }

    /// The burns of the GOLD and ORE paid for a sword: each resource once per
    /// token it was paid in, of the whole amount paid in that token, with
    /// nonce 0 (once, of its total, when paid in a single token).
    pub fn burn_resources_for_sword(payments: &Vec<Payment>) -> (r: Vec<Action>)
        requires
            burnable(payments_view(payments@), 5, gold_prefix(), ore_prefix()),
        ensures
            actions_view(r@) == resource_burns(payments_view(payments@), 5, gold_prefix(), ore_prefix()),
    {
        resource_burn_actions(payments, 5, &make_gold_prefix(), &make_ore_prefix())
    }

    /// Records that `caller` ordered `tool` and may claim it from
    /// `block_nonce + BLOCKS_IN_HOUR`; an earlier order is replaced.
    fn set_pending_claim(&mut self, caller: &Vec<u8>, block_nonce: u64, tool: Tool) -> (r: Result<(), ContractError>)
        ensures
            if block_nonce + BLOCKS_IN_HOUR > u64::MAX {
                r == Err::<(), ContractError>(ContractError::CounterOverflow) && final(self)@ == old(self)@
            } else {
                r is Ok && final(self)@ == ordered(old(self)@, caller@, tool, block_nonce)
            },
    {
        if block_nonce > u64::MAX - BLOCKS_IN_HOUR {
            return Err(ContractError::CounterOverflow);
        }
        self.pending_claims.insert(copy_bytes(caller), PendingTool { claim_block: block_nonce + BLOCKS_IN_HOUR, tool: tool });
        Ok(())
    }

    /// `mintShield`: pays ORE for a shield that the caller may claim
    /// `BLOCKS_IN_HOUR` blocks later. The ORE is burned.
    pub fn mint_shield(&mut self, caller: &Vec<u8>, payments: &Vec<Payment>, block_nonce: u64) -> (r: Result<Vec<Action>, ContractError>)
        ensures
            match shield_check(payments_view(payments@), block_nonce) {
                Ok(_) => r is Ok
                    && actions_view(r->Ok_0@) == resource_burns(payments_view(payments@), 4, ore_prefix(), ore_prefix())
                    && final(self)@ == ordered(old(self)@, caller@, Tool::Shield, block_nonce),
                Err(e) => r == Err::<Vec<Action>, ContractError>(e) && final(self)@ == old(self)@,
            },
    {
        Self::validate_resources_for_shield(payments)?;
        proof {
            lemma_tally_class_totals(payments_view(payments@), 4, ore_prefix(), ore_prefix(), true);
        }
        let actions = Self::burn_resources_for_shield(payments);
        self.set_pending_claim(caller, block_nonce, Tool::Shield)?;
        Ok(actions)
    }

    /// `mintSword`: pays GOLD and ORE for a sword that the caller may claim
    /// `BLOCKS_IN_HOUR` blocks later. The GOLD and ORE are burned.
    pub fn mint_sword(&mut self, caller: &Vec<u8>, payments: &Vec<Payment>, block_nonce: u64) -> (r: Result<Vec<Action>, ContractError>)
        ensures
            match sword_check(payments_view(payments@), block_nonce) {
                Ok(_) => r is Ok
                    && actions_view(r->Ok_0@) == resource_burns(payments_view(payments@), 5, gold_prefix(), ore_prefix())
                    && final(self)@ == ordered(old(self)@, caller@, Tool::Sword, block_nonce),
                Err(e) => r == Err::<Vec<Action>, ContractError>(e) && final(self)@ == old(self)@,
            },
    {
        Self::validate_resources_for_sword(payments)?;
        proof {
            lemma_tally_class_totals(payments_view(payments@), 5, gold_prefix(), ore_prefix(), true);
        }
        let actions = Self::burn_resources_for_sword(payments);
        self.set_pending_claim(caller, block_nonce, Tool::Sword)?;
        Ok(actions)
    }

    /// Whether `caller` ordered `tool` and may claim it at `block_nonce`.
    pub fn is_claim_ready(&self, caller: &Vec<u8>, tool: Tool, block_nonce: u64) -> (r: bool)
        ensures
            r == (self@.pending_claims.contains_key(caller@) && self@.pending_claims[caller@].tool == tool
                && block_nonce >= self@.pending_claims[caller@].claim_block),
    {
        match self.pending_claims.get(caller) {
            Some(p) => p.tool == tool && block_nonce >= p.claim_block,
            None => false,
        }
    }

    /// Creates the next tool NFT, named `name`, and sends it to `to`.
    fn mint_tool(&mut self, to: &Vec<u8>, name: Vec<u8>) -> (r: Result<Vec<Action>, ContractError>)
        ensures
            if old(self)@.next_nonce == u64::MAX {
                r == Err::<Vec<Action>, ContractError>(ContractError::CounterOverflow) && final(self)@ == old(self)@
            } else {
                r is Ok && actions_view(r->Ok_0@) == tool_actions(old(self)@, to@, name@)
                    && final(self)@ == (BlacksmithView { next_nonce: (old(self)@.next_nonce + 1) as u64, ..old(self)@ })
            },
    {
        if self.next_nonce == u64::MAX {
            return Err(ContractError::CounterOverflow);
        }
        let nonce = self.next_nonce;
        let ghost nm = name@;
        let mut actions: Vec<Action> = Vec::new();
        actions.push(Action::CreateNft { token_id: copy_bytes(&self.tool_token_id), amount: 1, name: name });
        actions.push(Action::Send { to: copy_bytes(to), token_id: copy_bytes(&self.tool_token_id), nonce: nonce, amount: 1 });
        self.next_nonce = nonce + 1;
        proof {
            assert(actions_view(actions@) =~= tool_actions(old(self)@, to@, nm));
        }
        Ok(actions)
    }

    /// Mints a SHIELD NFT for `to`.
    pub fn mint_helper_shield(&mut self, to: &Vec<u8>) -> (r: Result<Vec<Action>, ContractError>)
        ensures
            if old(self)@.next_nonce == u64::MAX {
                r == Err::<Vec<Action>, ContractError>(ContractError::CounterOverflow) && final(self)@ == old(self)@
            } else {
                r is Ok && actions_view(r->Ok_0@) == tool_actions(old(self)@, to@, shield_name())
                    && final(self)@ == (BlacksmithView { next_nonce: (old(self)@.next_nonce + 1) as u64, ..old(self)@ })
            },
    {
        self.mint_tool(to, make_shield_name())
    }

    /// Mints a SWORD NFT for `to`.
    pub fn mint_helper_sword(&mut self, to: &Vec<u8>) -> (r: Result<Vec<Action>, ContractError>)
        ensures
            if old(self)@.next_nonce == u64::MAX {
                r == Err::<Vec<Action>, ContractError>(ContractError::CounterOverflow) && final(self)@ == old(self)@
            } else {
                r is Ok && actions_view(r->Ok_0@) == tool_actions(old(self)@, to@, sword_name())
                    && final(self)@ == (BlacksmithView { next_nonce: (old(self)@.next_nonce + 1) as u64, ..old(self)@ })
            },
    {
        self.mint_tool(to, make_sword_name())
    }

    /// Checks and settles the claim of `tool` by `caller`.
    fn claim_tool(&mut self, caller: &Vec<u8>, tool: Tool, block_nonce: u64) -> (r: Result<Vec<Action>, ContractError>)
        ensures
            match claim_check(old(self)@, caller@, tool, block_nonce) {
                Ok(()) => r is Ok && actions_view(r->Ok_0@) == tool_actions(old(self)@, caller@, tool_name(tool))
                    && final(self)@ == (BlacksmithView {
                        next_nonce: (old(self)@.next_nonce + 1) as u64,
                        pending_claims: old(self)@.pending_claims.remove(caller@),
                        ..old(self)@
                    }),
                Err(e) => r == Err::<Vec<Action>, ContractError>(e) && final(self)@ == old(self)@,
            },
    {
        match self.pending_claims.get(caller) {
            None => {
                return Err(ContractError::NoPendingClaim);
            },
            Some(p) => {
                if p.tool != tool {
                    return Err(ContractError::NoPendingClaim);
                }
                if block_nonce < p.claim_block {
                    return Err(ContractError::TooEarlyToClaim);
                }
            },
        }
        let actions = match tool {
            Tool::Shield => self.mint_helper_shield(caller)?,
            Tool::Sword => self.mint_helper_sword(caller)?,
        };
        self.pending_claims.remove(caller);
        Ok(actions)
    }

    /// `claimShield`: once the waiting period of a shield order is over, a
    /// SHIELD NFT is created and sent to the caller, and the order is cleared.
    /// A caller who ordered no shield is refused.
    pub fn claim_shield(&mut self, caller: &Vec<u8>, block_nonce: u64) -> (r: Result<Vec<Action>, ContractError>)
        ensures
            match claim_check(old(self)@, caller@, Tool::Shield, block_nonce) {
                Ok(()) => r is Ok && actions_view(r->Ok_0@) == tool_actions(old(self)@, caller@, shield_name())
                    && final(self)@ == (BlacksmithView {
                        next_nonce: (old(self)@.next_nonce + 1) as u64,
                        pending_claims: old(self)@.pending_claims.remove(caller@),
                        ..old(self)@
                    }),
                Err(e) => r == Err::<Vec<Action>, ContractError>(e) && final(self)@ == old(self)@,
            },
    {
        self.claim_tool(caller, Tool::Shield, block_nonce)
    }

    /// `claimSword`: once the waiting period of a sword order is over, a SWORD
    /// NFT is created and sent to the caller, and the order is cleared. A
    /// caller who ordered no sword is refused.
    pub fn claim_sword(&mut self, caller: &Vec<u8>, block_nonce: u64) -> (r: Result<Vec<Action>, ContractError>)
        ensures
            match claim_check(old(self)@, caller@, Tool::Sword, block_nonce) {
                Ok(()) => r is Ok && actions_view(r->Ok_0@) == tool_actions(old(self)@, caller@, sword_name())
                    && final(self)@ == (BlacksmithView {
                        next_nonce: (old(self)@.next_nonce + 1) as u64,
                        pending_claims: old(self)@.pending_claims.remove(caller@),
                        ..old(self)@
                    }),
                Err(e) => r == Err::<Vec<Action>, ContractError>(e) && final(self)@ == old(self)@,
            },
    {
        self.claim_tool(caller, Tool::Sword, block_nonce)
    }

    /// The callback of `issue`: records the TOOL collection and restarts the
    /// nonces at 1; a failed issue is refused.
    pub fn tool_token_callback(&mut self, issued: Option<Vec<u8>>) -> (r: Result<(), ContractError>)
        ensures
            match issued {
                Some(id) => r is Ok && final(self)@ == (BlacksmithView {
                    tool_token_id: id@,
                    next_nonce: 1,
                    ..old(self)@
                }),
                None => r == Err::<(), ContractError>(ContractError::TokenIssueFailed) && final(self)@ == old(self)@,
            },
    {
        match issued {
            Some(id) => {
                self.tool_token_id = id;
                self.next_nonce = 1;
                Ok(())
            },
            None => Err(ContractError::TokenIssueFailed),
        }
    }

    /// `issue`: asks for the TOOL NFT collection, paying `egld_value`.
    pub fn issue_tool_token(&mut self, name: Vec<u8>, ticker: Vec<u8>, egld_value: u128) -> (r: Result<Vec<Action>, ContractError>)
        ensures
            match begin_issue_spec(old(self)@.token_manager) {
                Ok(slot) => r is Ok && final(self)@ == (BlacksmithView { token_manager: slot, ..old(self)@ })
                    && actions_view(r->Ok_0@) == seq![ActionView::IssueAndSetAllRoles {
                        kind: TokenKind::NonFungible,
                        issue_cost: egld_value,
                        name: name@,
                        ticker: ticker@,
                        num_decimals: 0,
                    }],
                Err(e) => r == Err::<Vec<Action>, ContractError>(e) && final(self)@ == old(self)@,
            },
    {
        self.token_manager.begin_issue()?;
        let ghost nm = name@;
        let ghost tk = ticker@;
        let mut actions: Vec<Action> = Vec::new();
        actions.push(Action::IssueAndSetAllRoles {
            kind: TokenKind::NonFungible,
            issue_cost: egld_value,
            name: name,
            ticker: ticker,
            num_decimals: 0,
        });
        proof {
            assert(actions_view(actions@) =~= seq![ActionView::IssueAndSetAllRoles {
                kind: TokenKind::NonFungible,
                issue_cost: egld_value,
                name: nm,
                ticker: tk,
                num_decimals: 0,
            }]);
        }
        Ok(actions)
    }
}

/// A tool paid for at block `block_nonce` cannot be claimed before
/// `block_nonce + BLOCKS_IN_HOUR`, and can from then on.
pub proof fn law_claim_waits_an_hour(s: BlacksmithView, caller: Seq<u8>, tool: Tool, block_nonce: u64, claim_at: u64)
    requires
        block_nonce + BLOCKS_IN_HOUR <= u64::MAX,
        s.next_nonce < u64::MAX,
    ensures
        (claim_check(ordered(s, caller, tool, block_nonce), caller, tool, claim_at) is Ok)
            <==> (claim_at >= block_nonce + BLOCKS_IN_HOUR),
{
}

/// A claim is tied to the order: a caller who ordered one tool cannot claim
/// the other, and a caller who ordered nothing cannot claim at all.
pub proof fn law_claim_matches_order(s: BlacksmithView, caller: Seq<u8>, block_nonce: u64, claim_at: u64)
    requires
        block_nonce + BLOCKS_IN_HOUR <= u64::MAX,
    ensures
        claim_check(ordered(s, caller, Tool::Shield, block_nonce), caller, Tool::Sword, claim_at)
            == Err::<(), ContractError>(ContractError::NoPendingClaim),
        claim_check(ordered(s, caller, Tool::Sword, block_nonce), caller, Tool::Shield, claim_at)
            == Err::<(), ContractError>(ContractError::NoPendingClaim),
        !s.pending_claims.contains_key(caller) ==> claim_check(s, caller, Tool::Shield, claim_at)
            == Err::<(), ContractError>(ContractError::NoPendingClaim),
        !s.pending_claims.contains_key(caller) ==> claim_check(s, caller, Tool::Sword, claim_at)
            == Err::<(), ContractError>(ContractError::NoPendingClaim),
{
}

/// Forging a sword burns exactly the GOLD and ORE that was paid: of each
/// token identifier, what was paid under it, at most once and with nonce 0.
pub proof fn law_sword_burns_payment(ps: Seq<PaymentView>, block_nonce: u64, token_id: Seq<u8>)
    requires
        sword_check(ps, block_nonce) is Ok,
    ensures
        burned_of(resource_burns(ps, 5, gold_prefix(), ore_prefix()), token_id)
            == paid_of(ps, 5, gold_prefix(), ore_prefix(), token_id),
{
    law_burns_match_payments(ps, 5, gold_prefix(), ore_prefix(), true, token_id);
}

/// GOLD paid in one token and ORE paid in one token are burned once each, of
/// the amounts counted, with nonce 0: GOLD first, then ORE.
pub proof fn law_sword_burns_once(ps: Seq<PaymentView>, block_nonce: u64, gold_id: Seq<u8>, ore_id: Seq<u8>)
    requires
        sword_check(ps, block_nonce) is Ok,
        forall|k: int| 0 <= k < ps.len() && in_class(#[trigger] ps[k], 5, gold_prefix(), ore_prefix(), false)
            ==> ps[k].token_id == gold_id,
        forall|k: int| 0 <= k < ps.len() && in_class(#[trigger] ps[k], 5, gold_prefix(), ore_prefix(), true)
            ==> ps[k].token_id == ore_id,
    ensures
        resource_burns(ps, 5, gold_prefix(), ore_prefix()) == seq![
            ActionView::Burn { token_id: gold_id, nonce: 0, amount: sword_check(ps, block_nonce)->Ok_0.0 },
            ActionView::Burn { token_id: ore_id, nonce: 0, amount: sword_check(ps, block_nonce)->Ok_0.1 },
        ],
{
    lemma_tally_class_totals(ps, 5, gold_prefix(), ore_prefix(), true);
    lemma_paid_has_payment(ps, 5, gold_prefix(), ore_prefix(), false);
    lemma_paid_has_payment(ps, 5, gold_prefix(), ore_prefix(), true);
    law_single_token_burned_once(ps, 5, gold_prefix(), ore_prefix(), false, gold_id);
    law_single_token_burned_once(ps, 5, gold_prefix(), ore_prefix(), true, ore_id);
    assert(resource_burns(ps, 5, gold_prefix(), ore_prefix()) =~= seq![
        ActionView::Burn { token_id: gold_id, nonce: 0, amount: sword_check(ps, block_nonce)->Ok_0.0 },
        ActionView::Burn { token_id: ore_id, nonce: 0, amount: sword_check(ps, block_nonce)->Ok_0.1 },
    ]);
}

/// Forging a shield burns exactly the ORE that was paid: of each token
/// identifier, what was paid under it, at most once and with nonce 0; ORE
/// paid in one token is burned once, of the amount counted.
pub proof fn law_shield_burns_payment(ps: Seq<PaymentView>, block_nonce: u64, token_id: Seq<u8>)
    requires
        shield_check(ps, block_nonce) is Ok,
    ensures
        burned_of(resource_burns(ps, 4, ore_prefix(), ore_prefix()), token_id)
            == paid_of(ps, 4, ore_prefix(), ore_prefix(), token_id),
        (forall|k: int| 0 <= k < ps.len() && in_class(#[trigger] ps[k], 4, ore_prefix(), ore_prefix(), false)
            ==> ps[k].token_id == token_id) ==> resource_burns(ps, 4, ore_prefix(), ore_prefix()) == seq![
            ActionView::Burn { token_id: token_id, nonce: 0, amount: shield_check(ps, block_nonce)->Ok_0 },
        ],
{
    law_burns_match_payments(ps, 4, ore_prefix(), ore_prefix(), true, token_id);
    lemma_tally_class_totals(ps, 4, ore_prefix(), ore_prefix(), true);
    lemma_same_prefix_one_class(ps, 4, ore_prefix(), true);
    if forall|k: int| 0 <= k < ps.len() && in_class(#[trigger] ps[k], 4, ore_prefix(), ore_prefix(), false)
        ==> ps[k].token_id == token_id {
        lemma_paid_has_payment(ps, 4, ore_prefix(), ore_prefix(), false);
        law_single_token_burned_once(ps, 4, ore_prefix(), ore_prefix(), false, token_id);
        assert(resource_burns(ps, 4, ore_prefix(), ore_prefix()) =~= class_burns(ps, 4, ore_prefix(), ore_prefix(), false));
    }
}

/// The storage and the actions after successful claims, in turn, from `s`:
/// each claim is a caller and the tool they claim.
pub open spec fn tool_claims_run(s: BlacksmithView, claims: Seq<(Seq<u8>, Tool)>) -> (BlacksmithView, Seq<ActionView>)
    decreases claims.len(),
{
    if claims.len() == 0 {
        (s, Seq::empty())
    } else {
        let (t, actions) = tool_claims_run(s, claims.drop_last());
        let (who, tool) = claims.last();
        (
            BlacksmithView {
                next_nonce: (t.next_nonce + 1) as u64,
                pending_claims: t.pending_claims.remove(who),
                ..t
            },
            actions + tool_actions(t, who, tool_name(tool)),
        )
    }
}

/// Each tool claim creates one NFT of the tool collection, named after the
/// tool, and sends the caller the NFT just created: the one with the nonce
/// the counter held before the claim. Over successive claims the `m`-th claim
/// sends nonce `next_nonce + m`, and the counter moves on by one per claim.
pub proof fn law_tool_claims_send_new_nfts(s: BlacksmithView, claims: Seq<(Seq<u8>, Tool)>)
    requires
        s.next_nonce + claims.len() <= u64::MAX,
    ensures
        tool_claims_run(s, claims).0.next_nonce == s.next_nonce + claims.len(),
        tool_claims_run(s, claims).0.tool_token_id == s.tool_token_id,
        tool_claims_run(s, claims).1.len() == 2 * claims.len(),
        forall|m: int| 0 <= m < claims.len() ==> (#[trigger] tool_claims_run(s, claims).1[2 * m]) == (ActionView::CreateNft {
            token_id: s.tool_token_id,
            amount: 1,
            name: tool_name(claims[m].1),
        }),
        forall|m: int| 0 <= m < claims.len() ==> (#[trigger] tool_claims_run(s, claims).1[2 * m + 1]) == (ActionView::Send {
            to: claims[m].0,
            token_id: s.tool_token_id,
            nonce: (s.next_nonce + m) as u64,
            amount: 1,
        }),
    decreases claims.len(),
{
    if claims.len() > 0 {
        let init = claims.drop_last();
        law_tool_claims_send_new_nfts(s, init);
        let (t, acts) = tool_claims_run(s, init);
        let (who, tool) = claims.last();
        let all = tool_claims_run(s, claims).1;
        assert(all == acts + tool_actions(t, who, tool_name(tool)));
        assert forall|m: int| 0 <= m < claims.len() implies (#[trigger] all[2 * m]) == (ActionView::CreateNft {
            token_id: s.tool_token_id,
            amount: 1,
            name: tool_name(claims[m].1),
        }) by {
            if m < init.len() {
                assert(all[2 * m] == acts[2 * m]);
                assert(init[m] == claims[m]);
                assert(acts[2 * m] == tool_claims_run(s, init).1[2 * m]);
            } else {
                assert(all[2 * m] == tool_actions(t, who, tool_name(tool))[0]);
            }
        }
        assert forall|m: int| 0 <= m < claims.len() implies (#[trigger] all[2 * m + 1]) == (ActionView::Send {
            to: claims[m].0,
            token_id: s.tool_token_id,
            nonce: (s.next_nonce + m) as u64,
            amount: 1,
        }) by {
            if m < init.len() {
                assert(all[2 * m + 1] == acts[2 * m + 1]);
                assert(init[m] == claims[m]);
                assert(acts[2 * m + 1] == tool_claims_run(s, init).1[2 * m + 1]);
            } else {
                assert(all[2 * m + 1] == tool_actions(t, who, tool_name(tool))[1]);
            }
        }
    }
}

} // verus!
