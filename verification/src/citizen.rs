//! The Citizen contract: citizens are minted from WOOD and FOOD after a
//! waiting period, upgraded to soldiers with GOLD and ORE, and equipped with
//! shields and swords.

use vstd::prelude::*;
use crate::bytes::{has_prefix, starts_with, bytes_eq, copy_bytes};
use crate::esdt::{Payment, PaymentView, payments_view, Action, ActionView, actions_view, ContractError,
    TokenKind, TokenSlot, TokenSlotView, begin_issue_spec, tally, tally_resources, resource_burns,
    resource_burn_actions, burnable, burned_of, paid_of, law_burns_match_payments, lemma_tally_class_totals};
use crate::store::Store;
use crate::tokens::{wood_prefix, make_wood_prefix, food_prefix, make_food_prefix, gold_prefix,
    make_gold_prefix, ore_prefix, make_ore_prefix, tool_prefix, make_tool_prefix, soldier_rank,
    make_soldier_rank, citizen_name, make_citizen_name, shield_name, make_shield_name, sword_name,
    make_sword_name};
use crate::attributes::{soldier_attributes, make_soldier_attributes, soldier_stats, soldier_stats_of,
    lemma_soldier_scan};

verus! {

/// Blocks a caller waits between paying for a citizen and claiming it
/// (about an hour of blocks).
pub const BLOCKS_IN_HOUR: u64 = 600;

/// WOOD needed to mint a citizen.
pub const WOOD_REQUIRED: u128 = 10;

/// FOOD needed to mint a citizen.
pub const FOOD_REQUIRED: u128 = 15;

/// GOLD needed to upgrade a citizen to a soldier.
pub const GOLD_REQUIRED: u128 = 5;

/// ORE needed to upgrade a citizen to a soldier.
pub const ORE_REQUIRED: u128 = 5;

/// A character's rank, defense and attack.
#[derive(Debug, PartialEq, Eq)]
pub struct CharacterAttributes {
    pub rank: Vec<u8>,
    pub defense: u8,
    pub attack: u8,
}

/// The Citizen contract's storage.
pub struct Citizen {
    pub citizen_token_id: Vec<u8>,
    pub token_manager: TokenSlot,
    pub next_nonce: u64,
    pub pending_claims: Store<Vec<u8>, u64>,
}

pub struct CitizenView {
    pub citizen_token_id: Seq<u8>,
    pub token_manager: TokenSlotView,
    pub next_nonce: u64,
    pub pending_claims: Map<Seq<u8>, u64>,
}

impl View for Citizen {
    type V = CitizenView;

    open spec fn view(&self) -> CitizenView {
        CitizenView {
            citizen_token_id: self.citizen_token_id@,
            token_manager: self.token_manager@,
            next_nonce: self.next_nonce,
            pending_claims: self.pending_claims@,
        }
    }
}

/// What paying for a citizen counts and checks: the WOOD and FOOD paid, every
/// payment being one of the two, enough of each, and a claim block that fits.
pub open spec fn mint_check(ps: Seq<PaymentView>, block_nonce: u64) -> Result<(u128, u128), ContractError> {
    match tally(ps, 5, wood_prefix(), food_prefix(), true) {
        Err(e) => Err(e),
        Ok((wood, food)) => if wood < WOOD_REQUIRED {
            Err(ContractError::NotEnoughWood)
        } else if food < FOOD_REQUIRED {
            Err(ContractError::NotEnoughFood)
        } else if block_nonce + BLOCKS_IN_HOUR > u64::MAX {
            Err(ContractError::CounterOverflow)
        } else {
            Ok((wood, food))
        },
    }
}

/// What upgrading a citizen checks: three payments, the first being a citizen,
/// and enough GOLD and ORE among them.
pub open spec fn upgrade_check(s: CitizenView, ps: Seq<PaymentView>) -> Result<(u128, u128), ContractError> {
    if ps.len() != 3 {
        Err(ContractError::ExpectedThreeTokens)
    } else if ps[0].token_id != s.citizen_token_id {
        Err(ContractError::InvalidCitizenNft)
    } else {
        match tally(ps, 5, gold_prefix(), ore_prefix(), false) {
            Err(e) => Err(e),
            Ok((gold, ore)) => if gold < GOLD_REQUIRED {
                Err(ContractError::NotEnoughGold)
            } else if ore < ORE_REQUIRED {
                Err(ContractError::NotEnoughOre)
            } else {
                Ok((gold, ore))
            },
        }
    }
}

/// What equipping a soldier checks: two payments, the first a citizen whose
/// attributes make it a soldier, the second a TOOL token named `wanted`
/// (`tool_name` is the name of the TOOL token paid).
pub open spec fn equip_check(
    s: CitizenView,
    ps: Seq<PaymentView>,
    attributes: Seq<u8>,
    tool_name: Seq<u8>,
    wanted: Seq<u8>,
) -> Result<(), ContractError> {
    if ps.len() != 2 {
        Err(ContractError::ExpectedTwoTokens)
    } else if ps[0].token_id != s.citizen_token_id {
        Err(ContractError::InvalidCitizenNft)
    } else if !has_prefix(attributes, soldier_rank()) {
        Err(ContractError::CharacterNotSoldier)
    } else if ps[1].token_id.len() < 4 {
        Err(ContractError::SliceOutOfRange)
    } else if !has_prefix(ps[1].token_id, tool_prefix()) || tool_name != wanted {
        Err(ContractError::InvalidToolNft)
    } else {
        Ok(())
    }
}

/// The attributes a shield turns `attributes` into: a soldier written as the
/// contract writes them gets one more defense; other attributes, and a
/// defense already at 255, are left as they are (`None`).
pub open spec fn with_shield(attributes: Seq<u8>) -> Option<Seq<u8>> {
    match soldier_stats(attributes) {
        Some((d, a)) => if d < 255 {
            Some(soldier_attributes((d + 1) as u8, a))
        } else {
            None
        },
        None => None,
    }
}

/// The attributes a sword turns `attributes` into: a soldier written as the
/// contract writes them gets one more attack; other attributes, and an attack
/// already at 255, are left as they are (`None`).
pub open spec fn with_sword(attributes: Seq<u8>) -> Option<Seq<u8>> {
    match soldier_stats(attributes) {
        Some((d, a)) => if a < 255 {
            Some(soldier_attributes(d, (a + 1) as u8))
        } else {
            None
        },
        None => None,
    }
}

/// The actions of equipping: the attribute update, if any, then the NFT sent
/// back to the caller.
pub open spec fn equip_actions(token_id: Seq<u8>, nonce: u64, caller: Seq<u8>, update: Option<Seq<u8>>) -> Seq<ActionView> {
    let back = seq![ActionView::Send { to: caller, token_id: token_id, nonce: nonce, amount: 1 }];
    match update {
        Some(attrs) => seq![ActionView::UpdateAttributes { token_id: token_id, nonce: nonce, attributes: attrs }] + back,
        None => back,
    }
}

impl Citizen {
    /// The storage of a freshly deployed contract.
    pub fn init() -> (r: Citizen)
        ensures
            r@.citizen_token_id == Seq::<u8>::empty(),
            r@.token_manager == TokenSlotView::NotSet,
            r@.next_nonce == 0,
            r@.pending_claims == Map::<Seq<u8>, u64>::empty(),
    {
        Citizen {
            citizen_token_id: Vec::new(),
            token_manager: TokenSlot::NotSet,
            next_nonce: 0,
            pending_claims: Store::new(),
        }
    }

    /// The identifier of the citizen collection (empty before it is issued).
    pub fn citizen_token_id(&self) -> (r: Vec<u8>)
        ensures
            r@ == self@.citizen_token_id,
    {
        copy_bytes(&self.citizen_token_id)
    }

    /// The nonce the next minted citizen gets.
    pub fn next_nonce(&self) -> (r: u64)
        ensures
            r == self@.next_nonce,
    {
        self.next_nonce
    }

    /// The block from which `addr` may claim, if a claim is pending.
    pub fn pending_claim(&self, addr: &Vec<u8>) -> (r: Option<u64>)
        ensures
            r == (if self@.pending_claims.contains_key(addr@) {
                Some(self@.pending_claims[addr@])
            } else {
                None::<u64>
            }),
    {
        match self.pending_claims.get(addr) {
            Some(b) => Some(*b),
            None => None,
        }
    }

    /// Counts the WOOD and FOOD among the payments and checks there is enough.
    pub fn get_and_validate_resources(payments: &Vec<Payment>) -> (r: Result<(u128, u128), ContractError>)
        ensures
            match tally(payments_view(payments@), 5, wood_prefix(), food_prefix(), true) {
                Err(e) => r == Err::<(u128, u128), ContractError>(e),
                Ok((w, f)) => if w < WOOD_REQUIRED {
                    r == Err::<(u128, u128), ContractError>(ContractError::NotEnoughWood)
                } else if f < FOOD_REQUIRED {
                    r == Err::<(u128, u128), ContractError>(ContractError::NotEnoughFood)
                } else {
                    r == Ok::<(u128, u128), ContractError>((w, f))
                },
            },
    {
        let (wood, food) = tally_resources(payments, 5, &make_wood_prefix(), &make_food_prefix(), true)?;
        if wood < WOOD_REQUIRED {
            return Err(ContractError::NotEnoughWood);
        }
        if food < FOOD_REQUIRED {
            return Err(ContractError::NotEnoughFood);
        }
        Ok((wood, food))
    }

    /// The burns of the paid WOOD and FOOD: each resource is burned once per
    /// token it was paid in, of the whole amount paid in that token, with
    /// nonce 0 (once, of its total, when paid in a single token).
    pub fn burn_resources(payments: &Vec<Payment>) -> (r: Vec<Action>)
        requires
            burnable(payments_view(payments@), 5, wood_prefix(), food_prefix()),
        ensures
            actions_view(r@) == resource_burns(payments_view(payments@), 5, wood_prefix(), food_prefix()),
    {
        resource_burn_actions(payments, 5, &make_wood_prefix(), &make_food_prefix())
    }

    /// `mintCitizen`: pays WOOD and FOOD for a citizen that the caller may
    /// claim `BLOCKS_IN_HOUR` blocks later. The paid resources are burned.
    pub fn mint_citizen(&mut self, caller: &Vec<u8>, payments: &Vec<Payment>, block_nonce: u64) -> (r: Result<Vec<Action>, ContractError>)
        ensures
            match mint_check(payments_view(payments@), block_nonce) {
                Ok(_) => r is Ok
                    && actions_view(r->Ok_0@) == resource_burns(payments_view(payments@), 5, wood_prefix(), food_prefix())
                    && final(self)@ == CitizenView {
                        pending_claims: old(self)@.pending_claims.insert(caller@, (block_nonce + BLOCKS_IN_HOUR) as u64),
                        ..old(self)@
                    },
                Err(e) => r == Err::<Vec<Action>, ContractError>(e) && final(self)@ == old(self)@,
            },
    {
        Self::get_and_validate_resources(payments)?;
        proof {
            lemma_tally_class_totals(payments_view(payments@), 5, wood_prefix(), food_prefix(), true);
        }
        let actions = Self::burn_resources(payments);
        if block_nonce > u64::MAX - BLOCKS_IN_HOUR {
            return Err(ContractError::CounterOverflow);
        }
        let claim_block = block_nonce + BLOCKS_IN_HOUR;
        self.pending_claims.insert(copy_bytes(caller), claim_block);
        Ok(actions)
    }

    /// Whether `caller` has a pending claim that is ready at `block_nonce`.
    pub fn is_claim_ready(&self, caller: &Vec<u8>, block_nonce: u64) -> (r: bool)
        ensures
            r == (self@.pending_claims.contains_key(caller@) && block_nonce >= self@.pending_claims[caller@]),
    {
        match self.pending_claims.get(caller) {
            Some(b) => block_nonce >= *b,
            None => false,
        }
    }

    /// `claimCitizen`: once the waiting period is over, a new citizen NFT is
    /// created and sent to the caller, and the pending claim is cleared. A
    /// caller with no pending claim is refused.
    pub fn claim_citizen(&mut self, caller: &Vec<u8>, block_nonce: u64) -> (r: Result<Vec<Action>, ContractError>)
        ensures
            if !old(self)@.pending_claims.contains_key(caller@) {
                r == Err::<Vec<Action>, ContractError>(ContractError::NoPendingClaim) && final(self)@ == old(self)@
            } else if block_nonce < old(self)@.pending_claims[caller@] {
                r == Err::<Vec<Action>, ContractError>(ContractError::TooEarlyToClaim) && final(self)@ == old(self)@
            } else if old(self)@.next_nonce == u64::MAX {
                r == Err::<Vec<Action>, ContractError>(ContractError::CounterOverflow) && final(self)@ == old(self)@
            } else {
                r is Ok && actions_view(r->Ok_0@) == claim_actions(old(self)@, caller@)
                    && final(self)@ == claimed(old(self)@, caller@)
            },
    {
        match self.pending_claims.get(caller) {
            None => {
                return Err(ContractError::NoPendingClaim);
            },
            Some(b) => {
                if block_nonce < *b {
                    return Err(ContractError::TooEarlyToClaim);
                }
            },
        }
        let actions = self.mint_and_send_nft(caller)?;
        self.pending_claims.remove(caller);
        Ok(actions)
    }

    /// Creates the next citizen NFT and sends it to `to`.
    fn mint_and_send_nft(&mut self, to: &Vec<u8>) -> (r: Result<Vec<Action>, ContractError>)
        ensures
            if old(self)@.next_nonce == u64::MAX {
                r == Err::<Vec<Action>, ContractError>(ContractError::CounterOverflow) && final(self)@ == old(self)@
            } else {
                r is Ok
                    && actions_view(r->Ok_0@) == claim_actions(old(self)@, to@)
                    && final(self)@ == CitizenView { next_nonce: (old(self)@.next_nonce + 1) as u64, ..old(self)@ }
            },
    {
        if self.next_nonce == u64::MAX {
            return Err(ContractError::CounterOverflow);
        }
        let nonce = self.next_nonce;
        let mut actions: Vec<Action> = Vec::new();
        actions.push(Action::CreateNft { token_id: copy_bytes(&self.citizen_token_id), amount: 1, name: make_citizen_name() });
        actions.push(Action::Send { to: copy_bytes(to), token_id: copy_bytes(&self.citizen_token_id), nonce: nonce, amount: 1 });
        self.next_nonce = nonce + 1;
        proof {
            assert(actions_view(actions@) =~= claim_actions(old(self)@, to@));
        }
        Ok(actions)
    }

    /// The callback of `issue`: records the issued collection and restarts
    /// the nonces at 1; a failed issue is refused.
    pub fn citizen_token_callback(&mut self, issued: Option<Vec<u8>>) -> (r: Result<(), ContractError>)
        ensures
            match issued {
                Some(id) => r is Ok && final(self)@ == CitizenView {
                    citizen_token_id: id@,
                    next_nonce: 1,
                    ..old(self)@
                },
                None => r == Err::<(), ContractError>(ContractError::TokenIssueFailed) && final(self)@ == old(self)@,
            },
    {
        match issued {
            Some(id) => {
                self.citizen_token_id = id;
                self.next_nonce = 1;
                Ok(())
            },
            None => Err(ContractError::TokenIssueFailed),
        }
    }

    /// `issue`: asks for the citizen NFT collection, paying `egld_value`.
    pub fn issue_citizen_token(&mut self, name: Vec<u8>, ticker: Vec<u8>, egld_value: u128) -> (r: Result<Vec<Action>, ContractError>)
        ensures
            match begin_issue_spec(old(self)@.token_manager) {
                Ok(slot) => r is Ok && final(self)@ == CitizenView { token_manager: slot, ..old(self)@ }
                    && actions_view(r->Ok_0@) == seq![ActionView::IssueAndSetAllRoles {
                        kind: TokenKind::NonFungible,
                        issue_cost: egld_value,
                        name: name@,
                        ticker: ticker@,
                        num_decimals: 0,
                    }],
                Err(e) => r == Err::<Vec<Action>, ContractError>(e) && final(self)@ == old(self)@,
            },
    {
        self.token_manager.begin_issue()?;
        let mut actions: Vec<Action> = Vec::new();
        actions.push(Action::IssueAndSetAllRoles {
            kind: TokenKind::NonFungible,
            issue_cost: egld_value,
            name: name,
            ticker: ticker,
            num_decimals: 0,
        });
        proof {
            assert(actions_view(actions@) =~= seq![ActionView::IssueAndSetAllRoles {
                kind: TokenKind::NonFungible,
                issue_cost: egld_value,
                name: name@,
                ticker: ticker@,
                num_decimals: 0,
            }]);
        }
        Ok(actions)
    }
    /// Counts the GOLD and ORE among the payments (other tokens are ignored)
    /// and checks there is enough.
    pub fn get_and_validate_upgrade_resources(payments: &Vec<Payment>) -> (r: Result<(u128, u128), ContractError>)
        ensures
            match tally(payments_view(payments@), 5, gold_prefix(), ore_prefix(), false) {
                Err(e) => r == Err::<(u128, u128), ContractError>(e),
                Ok((g, o)) => if g < GOLD_REQUIRED {
                    r == Err::<(u128, u128), ContractError>(ContractError::NotEnoughGold)
                } else if o < ORE_REQUIRED {
                    r == Err::<(u128, u128), ContractError>(ContractError::NotEnoughOre)
                } else {
                    r == Ok::<(u128, u128), ContractError>((g, o))
                },
            },
    {
        let (gold, ore) = tally_resources(payments, 5, &make_gold_prefix(), &make_ore_prefix(), false)?;
        if gold < GOLD_REQUIRED {
            return Err(ContractError::NotEnoughGold);
        }
        if ore < ORE_REQUIRED {
            return Err(ContractError::NotEnoughOre);
        }
        Ok((gold, ore))
    }

    /// The burns of the paid GOLD and ORE: each resource is burned once per
    /// token it was paid in, of the whole amount paid in that token, with
    /// nonce 0 (once, of its total, when paid in a single token).
    pub fn burn_upgrade_resources(payments: &Vec<Payment>) -> (r: Vec<Action>)
        requires
            burnable(payments_view(payments@), 5, gold_prefix(), ore_prefix()),
        ensures
            actions_view(r@) == resource_burns(payments_view(payments@), 5, gold_prefix(), ore_prefix()),
    {
        resource_burn_actions(payments, 5, &make_gold_prefix(), &make_ore_prefix())
    }

    /// `upgradeCitizen`: a citizen sent with GOLD and ORE comes back as a
    /// soldier with defense 0 and attack 0; the GOLD and ORE are burned.
    pub fn upgrade_citizen(&self, caller: &Vec<u8>, payments: &Vec<Payment>) -> (r: Result<Vec<Action>, ContractError>)
        ensures
            match upgrade_check(self@, payments_view(payments@)) {
                Ok(_) => r is Ok && actions_view(r->Ok_0@) == resource_burns(
                    payments_view(payments@), 5, gold_prefix(), ore_prefix(),
                ) + seq![
                    ActionView::UpdateAttributes {
                        token_id: self@.citizen_token_id,
                        nonce: payments@[0].nonce,
                        attributes: soldier_attributes(0, 0),
                    },
                    ActionView::Send {
                        to: caller@,
                        token_id: self@.citizen_token_id,
                        nonce: payments@[0].nonce,
                        amount: 1,
                    },
                ],
                Err(e) => r == Err::<Vec<Action>, ContractError>(e),
            },
    {
        if payments.len() != 3 {
            return Err(ContractError::ExpectedThreeTokens);
        }
        if !bytes_eq(&payments[0].token_id, &self.citizen_token_id) {
            return Err(ContractError::InvalidCitizenNft);
        }
        Self::get_and_validate_upgrade_resources(payments)?;
        proof {
            lemma_tally_class_totals(payments_view(payments@), 5, gold_prefix(), ore_prefix(), false);
        }
        let mut actions = Self::burn_upgrade_resources(payments);
        let ghost burns = actions_view(actions@);
        let more = self.upgrade_nft_to_soldier(caller, payments[0].nonce);
        let ghost tail = actions_view(more@);
        let mut more = more;
        actions.append(&mut more);
        proof {
            assert(actions_view(actions@) =~= burns + tail);
        }
        Ok(actions)
    }

    /// Turns the citizen `citizen_nonce` into a soldier and sends it to `to`.
    pub fn upgrade_nft_to_soldier(&self, to: &Vec<u8>, citizen_nonce: u64) -> (r: Vec<Action>)
        ensures
            actions_view(r@) == seq![
                ActionView::UpdateAttributes {
                    token_id: self@.citizen_token_id,
                    nonce: citizen_nonce,
                    attributes: soldier_attributes(0, 0),
                },
                ActionView::Send { to: to@, token_id: self@.citizen_token_id, nonce: citizen_nonce, amount: 1 },
            ],
    {
        let mut actions: Vec<Action> = Vec::new();
        actions.push(Action::UpdateAttributes {
            token_id: copy_bytes(&self.citizen_token_id),
            nonce: citizen_nonce,
            attributes: make_soldier_attributes(0, 0),
        });
        actions.push(Action::Send {
            to: copy_bytes(to),
            token_id: copy_bytes(&self.citizen_token_id),
            nonce: citizen_nonce,
            amount: 1,
        });
        proof {
            assert(actions_view(actions@) =~= seq![
                ActionView::UpdateAttributes {
                    token_id: self@.citizen_token_id,
                    nonce: citizen_nonce,
                    attributes: soldier_attributes(0, 0),
                },
                ActionView::Send { to: to@, token_id: self@.citizen_token_id, nonce: citizen_nonce, amount: 1 },
            ]);
        }
        actions
    }

    /// Checks that the character is a soldier and the item a TOOL token named
    /// `wanted` (`tool_name` is the name of the TOOL token paid).
    pub fn validate_soldier_and_tool(
        &self,
        payments: &Vec<Payment>,
        attributes: &Vec<u8>,
        tool_name: &Vec<u8>,
        wanted: &Vec<u8>,
    ) -> (r: Result<(), ContractError>)
        ensures
            r == equip_check(self@, payments_view(payments@), attributes@, tool_name@, wanted@),
    {
        if payments.len() != 2 {
            return Err(ContractError::ExpectedTwoTokens);
        }
        if !bytes_eq(&payments[0].token_id, &self.citizen_token_id) {
            return Err(ContractError::InvalidCitizenNft);
        }
        if !starts_with(attributes, &make_soldier_rank()) {
            return Err(ContractError::CharacterNotSoldier);
        }
        if payments[1].token_id.len() < 4 {
            return Err(ContractError::SliceOutOfRange);
        }
        if !starts_with(&payments[1].token_id, &make_tool_prefix()) || !bytes_eq(tool_name, wanted) {
            return Err(ContractError::InvalidToolNft);
        }
        Ok(())
    }

    /// The update (if any) and the return of an equipped soldier.
    fn equip_with(&self, to: &Vec<u8>, citizen_nonce: u64, update: Option<Vec<u8>>) -> (r: Vec<Action>)
        ensures
            actions_view(r@) == equip_actions(
                self@.citizen_token_id,
                citizen_nonce,
                to@,
                match update { Some(a) => Some(a@), None => None },
            ),
    {
        let mut actions: Vec<Action> = Vec::new();
        let ghost u = match &update { Some(a) => Some(a@), None => None::<Seq<u8>> };
        if let Some(attrs) = update {
            actions.push(Action::UpdateAttributes {
                token_id: copy_bytes(&self.citizen_token_id),
                nonce: citizen_nonce,
                attributes: attrs,
            });
        }
        actions.push(Action::Send {
            to: copy_bytes(to),
            token_id: copy_bytes(&self.citizen_token_id),
            nonce: citizen_nonce,
            amount: 1,
        });
        proof {
            assert(actions_view(actions@) =~= equip_actions(self@.citizen_token_id, citizen_nonce, to@, u));
        }
        actions
    }

    /// Raises the defense of the soldier `citizen_nonce` whose attributes are
    /// `attributes`, as `with_shield` says, and sends it to `to`.
    pub fn update_character_with_shield(&self, to: &Vec<u8>, citizen_nonce: u64, attributes: &Vec<u8>) -> (r: Vec<Action>)
        ensures
            actions_view(r@) == equip_actions(self@.citizen_token_id, citizen_nonce, to@, with_shield(attributes@)),
    {
        let update = match soldier_stats_of(attributes) {
            Some((d, a)) => if d < 255 {
                Some(make_soldier_attributes(d + 1, a))
            } else {
                None
            },
            None => None,
        };
        self.equip_with(to, citizen_nonce, update)
    }

    /// Raises the attack of the soldier `citizen_nonce` whose attributes are
    /// `attributes`, as `with_sword` says, and sends it to `to`.
    pub fn update_character_with_sword(&self, to: &Vec<u8>, citizen_nonce: u64, attributes: &Vec<u8>) -> (r: Vec<Action>)
        ensures
            actions_view(r@) == equip_actions(self@.citizen_token_id, citizen_nonce, to@, with_sword(attributes@)),
    {
        let update = match soldier_stats_of(attributes) {
            Some((d, a)) => if a < 255 {
                Some(make_soldier_attributes(d, a + 1))
            } else {
                None
            },
            None => None,
        };
        self.equip_with(to, citizen_nonce, update)
    }

    /// `equipShield`: a soldier sent with a SHIELD (a TOOL token named
    /// `SHIELD`) comes back with its defense raised (see `with_shield`).
    /// `attributes` are the soldier NFT's current attributes and `tool_name`
    /// the name of the TOOL token paid, which stays with the contract.
    pub fn equip_shield(&self, caller: &Vec<u8>, payments: &Vec<Payment>, attributes: &Vec<u8>, tool_name: &Vec<u8>) -> (r: Result<Vec<Action>, ContractError>)
        ensures
            match equip_check(self@, payments_view(payments@), attributes@, tool_name@, shield_name()) {
                Ok(()) => r is Ok && actions_view(r->Ok_0@) == equip_actions(
                    self@.citizen_token_id,
                    payments@[0].nonce,
                    caller@,
                    with_shield(attributes@),
                ),
                Err(e) => r == Err::<Vec<Action>, ContractError>(e),
            },
    {
        self.validate_soldier_and_tool(payments, attributes, tool_name, &make_shield_name())?;
        Ok(self.update_character_with_shield(caller, payments[0].nonce, attributes))
    }

    /// `equipSword`: a soldier sent with a SWORD (a TOOL token named `SWORD`)
    /// comes back with its attack raised (see `with_sword`). `attributes` are
    /// the soldier NFT's current attributes and `tool_name` the name of the
    /// TOOL token paid, which stays with the contract.
    pub fn equip_sword(&self, caller: &Vec<u8>, payments: &Vec<Payment>, attributes: &Vec<u8>, tool_name: &Vec<u8>) -> (r: Result<Vec<Action>, ContractError>)
        ensures
            match equip_check(self@, payments_view(payments@), attributes@, tool_name@, sword_name()) {
                Ok(()) => r is Ok && actions_view(r->Ok_0@) == equip_actions(
                    self@.citizen_token_id,
                    payments@[0].nonce,
                    caller@,
                    with_sword(attributes@),
                ),
                Err(e) => r == Err::<Vec<Action>, ContractError>(e),
            },
    {
        self.validate_soldier_and_tool(payments, attributes, tool_name, &make_sword_name())?;
        Ok(self.update_character_with_sword(caller, payments[0].nonce, attributes))
    }
}

/// The actions of a claim: the next citizen NFT is created and sent to
/// `caller`.
pub open spec fn claim_actions(s: CitizenView, caller: Seq<u8>) -> Seq<ActionView> {
    seq![
        ActionView::CreateNft { token_id: s.citizen_token_id, amount: 1, name: citizen_name() },
        ActionView::Send { to: caller, token_id: s.citizen_token_id, nonce: s.next_nonce, amount: 1 },
    ]
}

/// The storage after `caller` claimed: one more nonce used, the claim gone.
pub open spec fn claimed(s: CitizenView, caller: Seq<u8>) -> CitizenView {
    CitizenView {
        next_nonce: (s.next_nonce + 1) as u64,
        pending_claims: s.pending_claims.remove(caller),
        ..s
    }
}

/// How many NFTs a list of actions creates.
pub open spec fn nft_creations(actions: Seq<ActionView>) -> int
    decreases actions.len(),
{
    if actions.len() == 0 {
        0
    } else {
        nft_creations(actions.drop_last()) + if actions.last() is CreateNft { 1int } else { 0int }
    }
}

/// The nonce counter follows the citizens created: a claim creates exactly
/// one NFT, sends the citizen with the nonce the counter held, and moves the
/// counter on by one. So once the callback has set it to 1, the counter is
/// always one more than the number of citizens created.
pub proof fn law_nonce_follows_creations(s: CitizenView, caller: Seq<u8>)
    ensures
        nft_creations(claim_actions(s, caller)) == 1,
        claim_actions(s, caller)[1] == (ActionView::Send {
            to: caller,
            token_id: s.citizen_token_id,
            nonce: s.next_nonce,
            amount: 1,
        }),
        s.next_nonce < u64::MAX ==> claimed(s, caller).next_nonce == s.next_nonce + nft_creations(claim_actions(s, caller)),
{
    let a = claim_actions(s, caller);
    assert(a.drop_last().drop_last() =~= Seq::<ActionView>::empty());
    reveal_with_fuel(nft_creations, 3);
}

/// The storage and the actions after successful claims by `callers`, in
/// turn, from `s`.
pub open spec fn claims_run(s: CitizenView, callers: Seq<Seq<u8>>) -> (CitizenView, Seq<ActionView>)
    decreases callers.len(),
{
    if callers.len() == 0 {
        (s, Seq::empty())
    } else {
        let (t, actions) = claims_run(s, callers.drop_last());
        (claimed(t, callers.last()), actions + claim_actions(t, callers.last()))
    }
}

proof fn lemma_nft_creations_concat(a: Seq<ActionView>, b: Seq<ActionView>)
    ensures
        nft_creations(a + b) == nft_creations(a) + nft_creations(b),
    decreases b.len(),
{
    if b.len() == 0 {
        assert(a + b =~= a);
    } else {
        assert((a + b).drop_last() =~= a + b.drop_last());
        lemma_nft_creations_concat(a, b.drop_last());
    }
}

/// Over any run of successful claims, the nonce counter moves on by exactly
/// the number of citizens created, and the `m`-th claim sends the citizen
/// with nonce `next_nonce + m`. Since the issue callback sets the counter to
/// 1, it is always one more than the number of citizens created, and each
/// citizen is sent with the nonce it was created with.
pub proof fn law_nonces_follow_claims(s: CitizenView, callers: Seq<Seq<u8>>)
    requires
        s.next_nonce + callers.len() <= u64::MAX,
    ensures
        claims_run(s, callers).0.next_nonce == s.next_nonce + nft_creations(claims_run(s, callers).1),
        nft_creations(claims_run(s, callers).1) == callers.len(),
        claims_run(s, callers).0.citizen_token_id == s.citizen_token_id,
        claims_run(s, callers).1.len() == 2 * callers.len(),
        forall|m: int| 0 <= m < callers.len() ==> (#[trigger] claims_run(s, callers).1[2 * m + 1]) == (ActionView::Send {
            to: callers[m],
            token_id: s.citizen_token_id,
            nonce: (s.next_nonce + m) as u64,
            amount: 1,
        }),
    decreases callers.len(),
{
    if callers.len() > 0 {
        let init = callers.drop_last();
        law_nonces_follow_claims(s, init);
        let (t, acts) = claims_run(s, init);
        let last = callers.last();
        law_nonce_follows_creations(t, last);
        lemma_nft_creations_concat(acts, claim_actions(t, last));
        let all = claims_run(s, callers).1;
        assert(all == acts + claim_actions(t, last));
        assert forall|m: int| 0 <= m < callers.len() implies (#[trigger] all[2 * m + 1]) == (ActionView::Send {
            to: callers[m],
            token_id: s.citizen_token_id,
            nonce: (s.next_nonce + m) as u64,
            amount: 1,
        }) by {
            if m < init.len() {
                assert(all[2 * m + 1] == acts[2 * m + 1]);
                assert(init[m] == callers[m]);
                assert(acts[2 * m + 1] == claims_run(s, init).1[2 * m + 1]);
            } else {
                assert(all[2 * m + 1] == claim_actions(t, last)[1]);
            }
        }
    }
}

/// A citizen paid for at block `block_nonce` cannot be claimed before
/// `block_nonce + BLOCKS_IN_HOUR`, and can from then on.
pub proof fn law_claim_waits_an_hour(s: CitizenView, caller: Seq<u8>, block_nonce: u64, claim_at: u64)
    requires
        block_nonce + BLOCKS_IN_HOUR <= u64::MAX,
    ensures
        s.pending_claims.insert(caller, (block_nonce + BLOCKS_IN_HOUR) as u64).contains_key(caller),
        (claim_at < s.pending_claims.insert(caller, (block_nonce + BLOCKS_IN_HOUR) as u64)[caller])
            <==> (claim_at < block_nonce + BLOCKS_IN_HOUR),
{
}

/// Minting a citizen burns exactly the WOOD and FOOD that was paid: of each
/// token identifier, what was paid under it, at most once and with nonce 0.
pub proof fn law_mint_burns_payment(ps: Seq<PaymentView>, block_nonce: u64, token_id: Seq<u8>)
    requires
        mint_check(ps, block_nonce) is Ok,
    ensures
        burned_of(resource_burns(ps, 5, wood_prefix(), food_prefix()), token_id)
            == paid_of(ps, 5, wood_prefix(), food_prefix(), token_id),
{
    law_burns_match_payments(ps, 5, wood_prefix(), food_prefix(), true, token_id);
}

/// The attributes a soldier is given, and those equipping gives it, make it a
/// soldier.
pub proof fn law_soldier_attributes_are_soldiers(defense: u8, attack: u8)
    ensures
        has_prefix(soldier_attributes(defense, attack), soldier_rank()),
{
    assert(soldier_attributes(defense, attack).subrange(0, soldier_rank().len() as int) =~= soldier_rank());
}

/// A shield raises a soldier's defense by one and leaves its attack.
pub proof fn law_shield_adds_defense(defense: u8, attack: u8)
    requires
        defense < 255,
    ensures
        with_shield(soldier_attributes(defense, attack)) == Some(soldier_attributes((defense + 1) as u8, attack)),
{
    lemma_soldier_scan(defense, attack);
}

/// A sword raises a soldier's attack by one and leaves its defense.
pub proof fn law_sword_adds_attack(defense: u8, attack: u8)
    requires
        attack < 255,
    ensures
        with_sword(soldier_attributes(defense, attack)) == Some(soldier_attributes(defense, (attack + 1) as u8)),
{
    lemma_soldier_scan(defense, attack);
}

} // verus!} // verus!
