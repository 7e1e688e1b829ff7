//! What the contracts exchange with the chain: incoming payments, the actions
//! an endpoint asks the chain to perform, the state of a token that the
//! contract issues, and the reasons a call is refused.

use vstd::prelude::*;
use crate::bytes::{has_prefix, starts_with, bytes_eq, copy_bytes, valid_esdt_identifier, is_valid_esdt_identifier};

verus! {

/// One ESDT transfer that came with a call: token identifier, nonce (0 for
/// fungible tokens) and amount.
#[derive(Debug, PartialEq, Eq)]
pub struct Payment {
    pub token_id: Vec<u8>,
    pub nonce: u64,
    pub amount: u128,
}

pub struct PaymentView {
    pub token_id: Seq<u8>,
    pub nonce: u64,
    pub amount: u128,
}

impl View for Payment {
    type V = PaymentView;

    open spec fn view(&self) -> PaymentView {
        PaymentView { token_id: self.token_id@, nonce: self.nonce, amount: self.amount }
    }
}

impl Payment {
    /// A copy of this payment.
    pub fn duplicate(&self) -> (r: Payment)
        ensures
            r@ == self@,
    {
        Payment { token_id: copy_bytes(&self.token_id), nonce: self.nonce, amount: self.amount }
    }
}

/// The payments of a call, by their views.
pub open spec fn payments_view(ps: Seq<Payment>) -> Seq<PaymentView> {
    ps.map_values(|p: Payment| p@)
}

/// Whether a token that a contract issues is fungible or not.
#[derive(PartialEq, Eq, Structural, Clone, Copy, Debug)]
pub enum TokenKind {
    Fungible,
    NonFungible,
}

/// The properties a fungible token is issued with.
#[derive(PartialEq, Eq, Structural, Clone, Copy, Debug)]
pub struct TokenProperties {
    pub num_decimals: u32,
    pub can_freeze: bool,
    pub can_wipe: bool,
    pub can_pause: bool,
    pub can_change_owner: bool,
    pub can_upgrade: bool,
    pub can_add_special_roles: bool,
    pub can_mint: bool,
    pub can_burn: bool,
}

/// What an endpoint asks the chain to do once it has decided.
#[derive(Debug, PartialEq, Eq)]
pub enum Action {
    /// Transfer `amount` of the ESDT `token_id`/`nonce` to `to`.
    Send { to: Vec<u8>, token_id: Vec<u8>, nonce: u64, amount: u128 },
    /// Transfer `amount` EGLD to `to`.
    SendEgld { to: Vec<u8>, amount: u128 },
    /// Burn `amount` of `token_id`/`nonce` held by the contract.
    Burn { token_id: Vec<u8>, nonce: u64, amount: u128 },
    /// Mint `amount` of the fungible `token_id`/`nonce` to the contract.
    Mint { token_id: Vec<u8>, nonce: u64, amount: u128 },
    /// Create `amount` units of a new NFT of `token_id` named `name`, with no
    /// royalties, hash, attributes or URIs.
    CreateNft { token_id: Vec<u8>, amount: u128, name: Vec<u8> },
    /// Replace the attributes of the NFT `token_id`/`nonce`.
    UpdateAttributes { token_id: Vec<u8>, nonce: u64, attributes: Vec<u8> },
    /// Issue a token through the token mapper, paying `issue_cost`, with all
    /// roles set for the contract; the answer comes back in the callback.
    IssueAndSetAllRoles {
        kind: TokenKind,
        issue_cost: u128,
        name: Vec<u8>,
        ticker: Vec<u8>,
        num_decimals: u32,
    },
    /// Issue a fungible token with an initial supply through the system
    /// contract; the answer comes back in the callback, which refunds
    /// `refund_to`, the caller who paid `issue_cost`, if the issue fails.
    IssueFungible {
        refund_to: Vec<u8>,
        issue_cost: u128,
        name: Vec<u8>,
        ticker: Vec<u8>,
        initial_supply: u128,
        properties: TokenProperties,
    },
}

pub enum ActionView {
    Send { to: Seq<u8>, token_id: Seq<u8>, nonce: u64, amount: u128 },
    SendEgld { to: Seq<u8>, amount: u128 },
    Burn { token_id: Seq<u8>, nonce: u64, amount: u128 },
    Mint { token_id: Seq<u8>, nonce: u64, amount: u128 },
    CreateNft { token_id: Seq<u8>, amount: u128, name: Seq<u8> },
    UpdateAttributes { token_id: Seq<u8>, nonce: u64, attributes: Seq<u8> },
    IssueAndSetAllRoles {
        kind: TokenKind,
        issue_cost: u128,
        name: Seq<u8>,
        ticker: Seq<u8>,
        num_decimals: u32,
    },
    IssueFungible {
        refund_to: Seq<u8>,
        issue_cost: u128,
        name: Seq<u8>,
        ticker: Seq<u8>,
        initial_supply: u128,
        properties: TokenProperties,
    },
}

impl View for Action {
    type V = ActionView;

    open spec fn view(&self) -> ActionView {
        match self {
            Action::Send { to, token_id, nonce, amount } => ActionView::Send {
                to: to@,
                token_id: token_id@,
                nonce: *nonce,
                amount: *amount,
            },
            Action::SendEgld { to, amount } => ActionView::SendEgld { to: to@, amount: *amount },
            Action::Burn { token_id, nonce, amount } => ActionView::Burn {
                token_id: token_id@,
                nonce: *nonce,
                amount: *amount,
            },
            Action::Mint { token_id, nonce, amount } => ActionView::Mint {
                token_id: token_id@,
                nonce: *nonce,
                amount: *amount,
            },
            Action::CreateNft { token_id, amount, name } => ActionView::CreateNft {
                token_id: token_id@,
                amount: *amount,
                name: name@,
            },
            Action::UpdateAttributes { token_id, nonce, attributes } =>
                ActionView::UpdateAttributes {
                token_id: token_id@,
                nonce: *nonce,
                attributes: attributes@,
            },
            Action::IssueAndSetAllRoles { kind, issue_cost, name, ticker, num_decimals } =>
                ActionView::IssueAndSetAllRoles {
                kind: *kind,
                issue_cost: *issue_cost,
                name: name@,
                ticker: ticker@,
                num_decimals: *num_decimals,
            },
            Action::IssueFungible { refund_to, issue_cost, name, ticker, initial_supply, properties } =>
                ActionView::IssueFungible {
                refund_to: refund_to@,
                issue_cost: *issue_cost,
                name: name@,
                ticker: ticker@,
                initial_supply: *initial_supply,
                properties: *properties,
            },
        }
    }
}

/// The actions of a list, by their views.
pub open spec fn actions_view(actions: Seq<Action>) -> Seq<ActionView> {
    actions.map_values(|a: Action| a@)
}

/// Why a call is refused. A refused call changes nothing.
#[derive(PartialEq, Eq, Structural, Clone, Copy, Debug)]
pub enum ContractError {
    /// A payment was read at an index past the end of the transfers.
    MissingPayment,
    /// "Must be a soldier NFT"
    NotSoldier,
    /// "Must send soldier NFT and EGLD payment"
    MissingEntranceFee,
    /// The game id has no stored game.
    GameNotFound,
    /// "Game already has a competitor"
    GameFull,
    /// "Invalid entrance fee"
    InvalidEntranceFee,
    /// A counter or a block number would pass its largest value.
    CounterOverflow,
    /// An amount would pass the largest value an amount can hold.
    AmountOverflow,
    /// "Invalid token"
    InvalidToken,
    /// "Invalid token identifier length"
    InvalidTokenIdLength,
    /// "Not enough WOOD"
    NotEnoughWood,
    /// "Not enough FOOD"
    NotEnoughFood,
    /// "Not enough GOLD"
    NotEnoughGold,
    /// "Not enough ORE"
    NotEnoughOre,
    /// "Not enough STONE"
    NotEnoughStone,
    /// "Stone token not found in payments"
    StoneTokenNotFound,
    /// "Too early to claim"
    TooEarlyToClaim,
    /// "No pending claim"
    NoPendingClaim,
    /// "Token issue failed"
    TokenIssueFailed,
    /// "Issue was already called"
    IssueAlreadyCalled,
    /// "Token ID already set"
    TokenIdAlreadySet,
    /// "Invalid token ID"
    InvalidTokenId,
    /// "Expected 3 tokens"
    ExpectedThreeTokens,
    /// "Expected 2 tokens"
    ExpectedTwoTokens,
    /// "Invalid Citizen NFT"
    InvalidCitizenNft,
    /// "Character must be a soldier"
    CharacterNotSoldier,
    /// "Invalid Shield NFT"
    InvalidToolNft,
    /// A slice of a buffer was read past its end.
    SliceOutOfRange,
    /// "incorrect number of ESDT transfers"
    IncorrectNumberOfTransfers,
    /// "Minimum 1000 WINTER required"
    MinimumStakeNotMet,
    /// "No stake found"
    NoStakeFound,
    /// "Not enough rounds passed"
    NotEnoughRoundsPassed,
    /// "No resources to claim"
    NoResourcesToClaim,
    /// "Resource type already exists"
    ResourceTypeExists,
    /// "Invalid resource type"
    InvalidResourceType,
    /// The resource type has no stored configuration.
    ResourceConfigMissing,
    /// "Must pay more than 0"
    MustPayMoreThanZero,
    /// "Only WINTER tokens can be staked"
    OnlyWinterTokens,
    /// The token identifier is too short to hold a ticker.
    BadTickerFormat,
    /// The caller has no stored staking position.
    NoStakingPosition,
    /// "Nothing staked"
    NothingStaked,
    /// "Staking period not met"
    StakingPeriodNotMet,
    /// "Can claim once per 24h"
    ClaimOncePerDay,
    /// "Endpoint can only be called by owner"
    OnlyOwner,
    /// "Token already issued!"
    TokenAlreadyIssued,
    /// "Insufficient funds!"
    InsufficientFunds,
    /// The entrance fee was paid in another token than EGLD.
    EntranceFeeNotEgld,
    /// "Insufficient balance"
    InsufficientBalance,
    /// "No tokens to claim"
    NothingToClaim,
    /// "No tokens issued"
    NoTokensIssued,
}

/// The state of a token that a contract issues through a token mapper.
#[derive(Debug, PartialEq, Eq)]
pub enum TokenSlot {
    NotSet,
    Pending,
    Token(Vec<u8>),
}

pub enum TokenSlotView {
    NotSet,
    Pending,
    Token(Seq<u8>),
}

impl View for TokenSlot {
    type V = TokenSlotView;

    open spec fn view(&self) -> TokenSlotView {
        match self {
            TokenSlot::NotSet => TokenSlotView::NotSet,
            TokenSlot::Pending => TokenSlotView::Pending,
            TokenSlot::Token(id) => TokenSlotView::Token(id@),
        }
    }
}

/// Starting an issue: allowed only when no token was issued or asked for.
pub open spec fn begin_issue_spec(s: TokenSlotView) -> Result<TokenSlotView, ContractError> {
    match s {
        TokenSlotView::NotSet => Ok(TokenSlotView::Pending),
        TokenSlotView::Pending => Err(ContractError::IssueAlreadyCalled),
        TokenSlotView::Token(_) => Err(ContractError::TokenIdAlreadySet),
    }
}

/// Recording the issued identifier: refused when one is already recorded or
/// the identifier is malformed.
pub open spec fn set_token_id_spec(s: TokenSlotView, id: Seq<u8>) -> Result<TokenSlotView, ContractError> {
    if s is Token {
        Err(ContractError::TokenIdAlreadySet)
    } else if !valid_esdt_identifier(id) {
        Err(ContractError::InvalidTokenId)
    } else {
        Ok(TokenSlotView::Token(id))
    }
}

impl TokenSlot {
    /// Marks the token as being issued.
    pub fn begin_issue(&mut self) -> (r: Result<(), ContractError>)
        ensures
            match begin_issue_spec(old(self)@) {
                Ok(s) => r is Ok && final(self)@ == s,
                Err(e) => r == Err::<(), ContractError>(e) && final(self)@ == old(self)@,
            },
    {
        match self {
            TokenSlot::NotSet => {
                *self = TokenSlot::Pending;
                Ok(())
            },
            TokenSlot::Pending => Err(ContractError::IssueAlreadyCalled),
            TokenSlot::Token(_) => Err(ContractError::TokenIdAlreadySet),
        }
    }

    /// Records the identifier of the issued token.
    pub fn set_token_id(&mut self, id: Vec<u8>) -> (r: Result<(), ContractError>)
        ensures
            match set_token_id_spec(old(self)@, id@) {
                Ok(s) => r is Ok && final(self)@ == s,
                Err(e) => r == Err::<(), ContractError>(e) && final(self)@ == old(self)@,
            },
    {
        if let TokenSlot::Token(_) = self {
            return Err(ContractError::TokenIdAlreadySet);
        }
        if !is_valid_esdt_identifier(&id) {
            return Err(ContractError::InvalidTokenId);
        }
        *self = TokenSlot::Token(id);
        Ok(())
    }

    /// The identifier of the issued token; refused while there is none.
    pub fn token_id(&self) -> (r: Result<Vec<u8>, ContractError>)
        ensures
            match self@ {
                TokenSlotView::Token(id) => r is Ok && r->Ok_0@ == id,
                _ => r == Err::<Vec<u8>, ContractError>(ContractError::InvalidTokenId),
            },
    {
        match self {
            TokenSlot::Token(id) => Ok(copy_bytes(id)),
            _ => Err(ContractError::InvalidTokenId),
        }
    }

    /// Whether no issue was ever asked for.
    pub fn is_empty(&self) -> (r: bool)
        ensures
            r == (self@ is NotSet),
    {
        match self {
            TokenSlot::NotSet => true,
            _ => false,
        }
    }
}

/// The amounts of two resources found among the payments of a call.
///
/// A payment whose identifier has at least `min_len` bytes counts for the
/// first resource when it starts with `first`, otherwise for the second when
/// it starts with `second`. Any other payment is refused when `strict`
/// (`InvalidToken`, or `InvalidTokenIdLength` when too short) and ignored
/// otherwise. Payments are read in order; the first refusal wins, and a total
/// that would pass `u128::MAX` is refused with `AmountOverflow`.
pub open spec fn tally(
    ps: Seq<PaymentView>,
    min_len: nat,
    first: Seq<u8>,
    second: Seq<u8>,
    strict: bool,
) -> Result<(u128, u128), ContractError>
    decreases ps.len(),
{
    if ps.len() == 0 {
        Ok((0, 0))
    } else {
        match tally(ps.drop_last(), min_len, first, second, strict) {
            Err(e) => Err(e),
            Ok((a, b)) => {
                let p = ps.last();
                if p.token_id.len() >= min_len {
                    if has_prefix(p.token_id, first) {
                        if a + p.amount > u128::MAX {
                            Err(ContractError::AmountOverflow)
                        } else {
                            Ok(((a + p.amount) as u128, b))
                        }
                    } else if has_prefix(p.token_id, second) {
                        if b + p.amount > u128::MAX {
                            Err(ContractError::AmountOverflow)
                        } else {
                            Ok((a, (b + p.amount) as u128))
                        }
                    } else if strict {
                        Err(ContractError::InvalidToken)
                    } else {
                        Ok((a, b))
                    }
                } else if strict {
                    Err(ContractError::InvalidTokenIdLength)
                } else {
                    Ok((a, b))
                }
            },
        }
    }
}

/// Sums the amounts of two resources among `payments`, as `tally` says.
pub fn tally_resources(
    payments: &Vec<Payment>,
    min_len: usize,
    first: &Vec<u8>,
    second: &Vec<u8>,
    strict: bool,
) -> (r: Result<(u128, u128), ContractError>)
    ensures
        r == tally(payments_view(payments@), min_len as nat, first@, second@, strict),
{
    let ghost ps = payments_view(payments@);
    let n = payments.len();
    let mut a: u128 = 0;
    let mut b: u128 = 0;
    let mut i: usize = 0;
    proof {
        assert(ps.take(0).len() == 0);
    }
    while i < n
        invariant
            n == payments@.len(),
            ps == payments_view(payments@),
            i <= n,
            tally(ps.take(i as int), min_len as nat, first@, second@, strict) == Ok::<
                (u128, u128),
                ContractError,
            >((a, b)),
        decreases n - i,
    {
        let p = &payments[i];
        proof {
            assert(ps.take(i + 1).drop_last() =~= ps.take(i as int));
            assert(ps.take(i + 1).last() == p@);
        }
        if p.token_id.len() >= min_len {
            if starts_with(&p.token_id, first) {
                if a > u128::MAX - p.amount {
                    proof {
                        lemma_tally_err_sticks(ps, i as int + 1, min_len as nat, first@, second@, strict);
                    }
                    return Err(ContractError::AmountOverflow);
                }
                a = a + p.amount;
            } else if starts_with(&p.token_id, second) {
                if b > u128::MAX - p.amount {
                    proof {
                        lemma_tally_err_sticks(ps, i as int + 1, min_len as nat, first@, second@, strict);
                    }
                    return Err(ContractError::AmountOverflow);
                }
                b = b + p.amount;
            } else if strict {
                proof {
                    lemma_tally_err_sticks(ps, i as int + 1, min_len as nat, first@, second@, strict);
                }
                return Err(ContractError::InvalidToken);
            }
        } else if strict {
            proof {
                lemma_tally_err_sticks(ps, i as int + 1, min_len as nat, first@, second@, strict);
            }
            return Err(ContractError::InvalidTokenIdLength);
        }
        i = i + 1;
    }
    proof {
        assert(ps.take(n as int) =~= ps);
    }
    Ok((a, b))
}

/// Once a prefix of the payments is refused, so is the whole list, for the
/// same reason.
pub proof fn lemma_tally_err_sticks(
    ps: Seq<PaymentView>,
    k: int,
    min_len: nat,
    first: Seq<u8>,
    second: Seq<u8>,
    strict: bool,
)
    requires
        0 <= k <= ps.len(),
        tally(ps.take(k), min_len, first, second, strict) is Err,
    ensures
        tally(ps, min_len, first, second, strict) == tally(ps.take(k), min_len, first, second, strict),
    decreases ps.len() - k,
{
    if k < ps.len() {
        assert(ps.take(k + 1).drop_last() =~= ps.take(k));
        lemma_tally_err_sticks(ps, k + 1, min_len, first, second, strict);
    } else {
        assert(ps.take(k) =~= ps);
    }
}

/// Whether a payment counts for the first resource (`second_class` false) or
/// the second (`second_class` true), as `tally` reads it: its identifier has
/// at least `min_len` bytes and starts with `first`, or, for the second, does
/// not start with `first` but with `second`.
pub open spec fn in_class(p: PaymentView, min_len: nat, first: Seq<u8>, second: Seq<u8>, second_class: bool) -> bool {
    p.token_id.len() >= min_len && if second_class {
        !has_prefix(p.token_id, first) && has_prefix(p.token_id, second)
    } else {
        has_prefix(p.token_id, first)
    }
}

/// Payment `k` counts for the resource and carries the token `id`.
pub open spec fn holds_id(
    ps: Seq<PaymentView>,
    k: int,
    min_len: nat,
    first: Seq<u8>,
    second: Seq<u8>,
    second_class: bool,
    id: Seq<u8>,
) -> bool {
    in_class(ps[k], min_len, first, second, second_class) && ps[k].token_id == id
}

/// The amount paid of one resource.
pub open spec fn class_total(ps: Seq<PaymentView>, min_len: nat, first: Seq<u8>, second: Seq<u8>, second_class: bool) -> int
    decreases ps.len(),
{
    if ps.len() == 0 {
        0
    } else {
        class_total(ps.drop_last(), min_len, first, second, second_class) + if in_class(
            ps.last(),
            min_len,
            first,
            second,
            second_class,
        ) {
            ps.last().amount as int
        } else {
            0
        }
    }
}

/// The amount paid of one resource under the token `id`.
pub open spec fn id_total(
    ps: Seq<PaymentView>,
    min_len: nat,
    first: Seq<u8>,
    second: Seq<u8>,
    second_class: bool,
    id: Seq<u8>,
) -> int
    decreases ps.len(),
{
    if ps.len() == 0 {
        0
    } else {
        id_total(ps.drop_last(), min_len, first, second, second_class, id) + if in_class(
            ps.last(),
            min_len,
            first,
            second,
            second_class,
        ) && ps.last().token_id == id {
            ps.last().amount as int
        } else {
            0
        }
    }
}

/// Payment `i` is the first that carries its token for the resource.
pub open spec fn first_of_id(
    ps: Seq<PaymentView>,
    i: int,
    min_len: nat,
    first: Seq<u8>,
    second: Seq<u8>,
    second_class: bool,
) -> bool {
    &&& in_class(ps[i], min_len, first, second, second_class)
    &&& forall|k: int| 0 <= k < i ==> !#[trigger] holds_id(ps, k, min_len, first, second, second_class, ps[i].token_id)
}

/// The burns of one resource among the first `n` payments: one burn, with
/// nonce 0, for each token the resource was paid in, at the first payment of
/// that token, of everything paid of the resource in that token.
pub open spec fn class_burns_upto(
    ps: Seq<PaymentView>,
    n: int,
    min_len: nat,
    first: Seq<u8>,
    second: Seq<u8>,
    second_class: bool,
) -> Seq<ActionView>
    decreases n,
{
    if n <= 0 {
        Seq::empty()
    } else {
        let rest = class_burns_upto(ps, n - 1, min_len, first, second, second_class);
        if first_of_id(ps, n - 1, min_len, first, second, second_class) {
            rest.push(ActionView::Burn {
                token_id: ps[n - 1].token_id,
                nonce: 0,
                amount: id_total(ps, min_len, first, second, second_class, ps[n - 1].token_id) as u128,
            })
        } else {
            rest
        }
    }
}

/// The burns of one resource: one burn per token it was paid in, of the
/// whole amount paid in that token, in the order the tokens first appear.
pub open spec fn class_burns(ps: Seq<PaymentView>, min_len: nat, first: Seq<u8>, second: Seq<u8>, second_class: bool) -> Seq<ActionView> {
    class_burns_upto(ps, ps.len() as int, min_len, first, second, second_class)
}

/// The burns that take the paid resources out of circulation: the burns of
/// the first resource, then those of the second. A resource paid in a single
/// token is burned once, of its whole amount, with nonce 0.
pub open spec fn resource_burns(ps: Seq<PaymentView>, min_len: nat, first: Seq<u8>, second: Seq<u8>) -> Seq<ActionView> {
    class_burns(ps, min_len, first, second, false) + class_burns(ps, min_len, first, second, true)
}

/// Each resource's amount fits in an amount.
pub open spec fn burnable(ps: Seq<PaymentView>, min_len: nat, first: Seq<u8>, second: Seq<u8>) -> bool {
    &&& class_total(ps, min_len, first, second, false) <= u128::MAX
    &&& class_total(ps, min_len, first, second, true) <= u128::MAX
}

/// Whether `p` counts for the resource.
fn in_class_exec(p: &Payment, min_len: usize, first: &Vec<u8>, second: &Vec<u8>, second_class: bool) -> (r: bool)
    ensures
        r == in_class(p@, min_len as nat, first@, second@, second_class),
{
    if p.token_id.len() < min_len {
        return false;
    }
    if second_class {
        !starts_with(&p.token_id, first) && starts_with(&p.token_id, second)
    } else {
        starts_with(&p.token_id, first)
    }
}

/// An amount paid of a resource in one token is at most the amount of the
/// resource, and neither is negative.
proof fn lemma_id_total_bounded(ps: Seq<PaymentView>, min_len: nat, first: Seq<u8>, second: Seq<u8>, c: bool, id: Seq<u8>)
    ensures
        0 <= id_total(ps, min_len, first, second, c, id) <= class_total(ps, min_len, first, second, c),
    decreases ps.len(),
{
    if ps.len() > 0 {
        lemma_id_total_bounded(ps.drop_last(), min_len, first, second, c, id);
    }
}

/// The amount of a resource among the first `k` payments is at most its
/// amount among all of them.
proof fn lemma_class_total_prefix(ps: Seq<PaymentView>, k: int, min_len: nat, first: Seq<u8>, second: Seq<u8>, c: bool)
    requires
        0 <= k <= ps.len(),
    ensures
        class_total(ps.take(k), min_len, first, second, c) <= class_total(ps, min_len, first, second, c),
    decreases ps.len(),
{
    if k < ps.len() {
        assert(ps.take(k) =~= ps.drop_last().take(k));
        lemma_class_total_prefix(ps.drop_last(), k, min_len, first, second, c);
    } else {
        assert(ps.take(k) =~= ps);
    }
}

/// Sums what was paid of the resource in the token `id`.
fn sum_of_id(payments: &Vec<Payment>, min_len: usize, first: &Vec<u8>, second: &Vec<u8>, c: bool, id: &Vec<u8>) -> (r: u128)
    requires
        class_total(payments_view(payments@), min_len as nat, first@, second@, c) <= u128::MAX,
    ensures
        r == id_total(payments_view(payments@), min_len as nat, first@, second@, c, id@),
{
    let ghost ps = payments_view(payments@);
    let n = payments.len();
    let mut sum: u128 = 0;
    let mut k: usize = 0;
    proof {
        assert(ps.take(0).len() == 0);
    }
    while k < n
        invariant
            n == payments@.len(),
            ps == payments_view(payments@),
            k <= n,
            class_total(ps, min_len as nat, first@, second@, c) <= u128::MAX,
            sum == id_total(ps.take(k as int), min_len as nat, first@, second@, c, id@),
        decreases n - k,
    {
        proof {
            assert(ps.take(k + 1).drop_last() =~= ps.take(k as int));
            assert(ps.take(k + 1).last() == payments@[k as int]@);
            lemma_id_total_bounded(ps.take(k + 1), min_len as nat, first@, second@, c, id@);
            lemma_class_total_prefix(ps, k + 1, min_len as nat, first@, second@, c);
        }
        if in_class_exec(&payments[k], min_len, first, second, c) && bytes_eq(&payments[k].token_id, id) {
            sum = sum + payments[k].amount;
        }
        k = k + 1;
    }
    proof {
        assert(ps.take(n as int) =~= ps);
    }
    sum
}

/// Appends the burns of one resource (`class_burns`) to `actions`.
fn push_class_burns(actions: &mut Vec<Action>, payments: &Vec<Payment>, min_len: usize, first: &Vec<u8>, second: &Vec<u8>, c: bool)
    requires
        class_total(payments_view(payments@), min_len as nat, first@, second@, c) <= u128::MAX,
    ensures
        actions_view(final(actions)@) == actions_view(old(actions)@) + class_burns(
            payments_view(payments@),
            min_len as nat,
            first@,
            second@,
            c,
        ),
{
    let ghost ps = payments_view(payments@);
    let ghost start = actions_view(actions@);
    let n = payments.len();
    let mut i: usize = 0;
    proof {
        assert(start + class_burns_upto(ps, 0, min_len as nat, first@, second@, c) =~= start);
    }
    while i < n
        invariant
            n == payments@.len(),
            ps == payments_view(payments@),
            i <= n,
            class_total(ps, min_len as nat, first@, second@, c) <= u128::MAX,
            actions_view(actions@) == start + class_burns_upto(ps, i as int, min_len as nat, first@, second@, c),
        decreases n - i,
    {
        let ghost before = actions@;
        let ghost id = ps[i as int].token_id;
        assert(ps[i as int] == payments@[i as int]@);
        if in_class_exec(&payments[i], min_len, first, second, c) {
            let mut seen = false;
            let mut j: usize = 0;
            while j < i
                invariant
                    n == payments@.len(),
                    ps == payments_view(payments@),
                    i < n,
                    j <= i,
                    id == ps[i as int].token_id,
                    seen ==> exists|k: int| 0 <= k < j && #[trigger] holds_id(ps, k, min_len as nat, first@, second@, c, id),
                    !seen ==> forall|k: int| 0 <= k < j ==> !#[trigger] holds_id(ps, k, min_len as nat, first@, second@, c, id),
                decreases i - j,
            {
                assert(ps[j as int] == payments@[j as int]@);
                if in_class_exec(&payments[j], min_len, first, second, c) && bytes_eq(&payments[j].token_id, &payments[i].token_id) {
                    assert(holds_id(ps, j as int, min_len as nat, first@, second@, c, id));
                    seen = true;
                }
                j = j + 1;
            }
            if !seen {
                let amount = sum_of_id(payments, min_len, first, second, c, &payments[i].token_id);
                actions.push(Action::Burn { token_id: copy_bytes(&payments[i].token_id), nonce: 0, amount: amount });
                proof {
                    assert(first_of_id(ps, i as int, min_len as nat, first@, second@, c));
                    assert(actions_view(actions@) =~= actions_view(before).push(
                        ActionView::Burn { token_id: id, nonce: 0, amount: amount },
                    ));
                }
            } else {
                proof {
                    let k = choose|k: int| 0 <= k < i && #[trigger] holds_id(ps, k, min_len as nat, first@, second@, c, id);
                    assert(!first_of_id(ps, i as int, min_len as nat, first@, second@, c));
                }
            }
        }
        i = i + 1;
    }
}

/// Builds the burns of `resource_burns`.
pub fn resource_burn_actions(payments: &Vec<Payment>, min_len: usize, first: &Vec<u8>, second: &Vec<u8>) -> (r: Vec<Action>)
    requires
        burnable(payments_view(payments@), min_len as nat, first@, second@),
    ensures
        actions_view(r@) == resource_burns(payments_view(payments@), min_len as nat, first@, second@),
{
    let mut actions: Vec<Action> = Vec::new();
    proof {
        assert(actions_view(actions@) =~= Seq::<ActionView>::empty());
    }
    push_class_burns(&mut actions, payments, min_len, first, second, false);
    push_class_burns(&mut actions, payments, min_len, first, second, true);
    proof {
        let ps = payments_view(payments@);
        assert(Seq::<ActionView>::empty() + class_burns(ps, min_len as nat, first@, second@, false)
            =~= class_burns(ps, min_len as nat, first@, second@, false));
    }
    actions
}

/// The amount of `token_id` that a list of actions burns.
pub open spec fn burned_of(actions: Seq<ActionView>, token_id: Seq<u8>) -> int
    decreases actions.len(),
{
    if actions.len() == 0 {
        0
    } else {
        burned_of(actions.drop_last(), token_id) + match actions.last() {
            ActionView::Burn { token_id: t, amount, .. } => if t == token_id { amount as int } else { 0 },
            _ => 0,
        }
    }
}

/// The amount of `token_id` paid in payments that count for either resource.
pub open spec fn paid_of(ps: Seq<PaymentView>, min_len: nat, first: Seq<u8>, second: Seq<u8>, token_id: Seq<u8>) -> int
    decreases ps.len(),
{
    if ps.len() == 0 {
        0
    } else {
        paid_of(ps.drop_last(), min_len, first, second, token_id) + if ps.last().token_id == token_id
            && ps.last().token_id.len() >= min_len && (has_prefix(ps.last().token_id, first)
            || has_prefix(ps.last().token_id, second)) {
            ps.last().amount as int
        } else {
            0
        }
    }
}

/// Burned amounts add up over two lists.
proof fn lemma_burned_of_concat(a: Seq<ActionView>, b: Seq<ActionView>, id: Seq<u8>)
    ensures
        burned_of(a + b, id) == burned_of(a, id) + burned_of(b, id),
    decreases b.len(),
{
    if b.len() == 0 {
        assert(a + b =~= a);
    } else {
        assert((a + b).drop_last() =~= a + b.drop_last());
        lemma_burned_of_concat(a, b.drop_last(), id);
    }
}

/// What was paid in a token is what was paid of each resource in it.
proof fn lemma_paid_of_classes(ps: Seq<PaymentView>, min_len: nat, first: Seq<u8>, second: Seq<u8>, id: Seq<u8>)
    ensures
        paid_of(ps, min_len, first, second, id) == id_total(ps, min_len, first, second, false, id) + id_total(
            ps,
            min_len,
            first,
            second,
            true,
            id,
        ),
    decreases ps.len(),
{
    if ps.len() > 0 {
        lemma_paid_of_classes(ps.drop_last(), min_len, first, second, id);
    }
}

/// A token that no payment carries for the resource has nothing paid in it.
proof fn lemma_id_total_absent(ps: Seq<PaymentView>, min_len: nat, first: Seq<u8>, second: Seq<u8>, c: bool, id: Seq<u8>)
    requires
        forall|k: int| 0 <= k < ps.len() ==> !#[trigger] holds_id(ps, k, min_len, first, second, c, id),
    ensures
        id_total(ps, min_len, first, second, c, id) == 0,
    decreases ps.len(),
{
    if ps.len() > 0 {
        let init = ps.drop_last();
        assert forall|k: int| 0 <= k < init.len() implies !#[trigger] holds_id(init, k, min_len, first, second, c, id) by {
            assert(init[k] == ps[k]);
            assert(!holds_id(ps, k, min_len, first, second, c, id));
        }
        assert(!holds_id(ps, ps.len() - 1, min_len, first, second, c, id));
        lemma_id_total_absent(init, min_len, first, second, c, id);
    }
}

/// Among the first `n` payments' burns of a resource, every burn has nonce 0
/// and a token some of those payments carry for it, no token is burned
/// twice, and a token is burned of its whole amount when some of the first
/// `n` payments carry it, and not at all otherwise.
proof fn lemma_class_burns_upto(
    ps: Seq<PaymentView>,
    n: int,
    min_len: nat,
    first: Seq<u8>,
    second: Seq<u8>,
    c: bool,
    id: Seq<u8>,
)
    requires
        0 <= n <= ps.len(),
        class_total(ps, min_len, first, second, c) <= u128::MAX,
    ensures
        ({
            let bs = class_burns_upto(ps, n, min_len, first, second, c);
            &&& forall|m: int| 0 <= m < bs.len() ==> (#[trigger] bs[m]) is Burn && bs[m]->Burn_nonce == 0
                && exists|k: int| 0 <= k < n && #[trigger] holds_id(ps, k, min_len, first, second, c, bs[m]->Burn_token_id)
            &&& forall|a: int, b: int| 0 <= a < b < bs.len() ==> (#[trigger] bs[a])->Burn_token_id
                != (#[trigger] bs[b])->Burn_token_id
            &&& burned_of(bs, id) == if exists|k: int| 0 <= k < n && #[trigger] holds_id(ps, k, min_len, first, second, c, id) {
                id_total(ps, min_len, first, second, c, id)
            } else {
                0
            }
        }),
    decreases n,
{
    if n > 0 {
        lemma_class_burns_upto(ps, n - 1, min_len, first, second, c, id);
        let rest = class_burns_upto(ps, n - 1, min_len, first, second, c);
        let bs = class_burns_upto(ps, n, min_len, first, second, c);
        let t = ps[n - 1].token_id;
        lemma_id_total_bounded(ps, min_len, first, second, c, id);
        lemma_id_total_bounded(ps, min_len, first, second, c, t);
        if first_of_id(ps, n - 1, min_len, first, second, c) {
            assert(holds_id(ps, n - 1, min_len, first, second, c, t));
            assert(bs.drop_last() =~= rest);
            assert forall|m: int| 0 <= m < bs.len() implies (#[trigger] bs[m]) is Burn && bs[m]->Burn_nonce == 0
                && exists|k: int| 0 <= k < n && #[trigger] holds_id(ps, k, min_len, first, second, c, bs[m]->Burn_token_id) by {
                if m < rest.len() {
                    assert(bs[m] == rest[m]);
                    let k = choose|k: int| 0 <= k < n - 1 && #[trigger] holds_id(ps, k, min_len, first, second, c, rest[m]->Burn_token_id);
                    assert(holds_id(ps, k, min_len, first, second, c, bs[m]->Burn_token_id));
                } else {
                    assert(holds_id(ps, n - 1, min_len, first, second, c, bs[m]->Burn_token_id));
                }
            }
            assert forall|a: int, b: int| 0 <= a < b < bs.len() implies (#[trigger] bs[a])->Burn_token_id
                != (#[trigger] bs[b])->Burn_token_id by {
                if b < rest.len() {
                    assert(bs[a] == rest[a] && bs[b] == rest[b]);
                } else {
                    assert(bs[a] == rest[a]);
                    let k = choose|k: int| 0 <= k < n - 1 && #[trigger] holds_id(ps, k, min_len, first, second, c, rest[a]->Burn_token_id);
                    if rest[a]->Burn_token_id == t {
                        assert(holds_id(ps, k, min_len, first, second, c, t));
                    }
                }
            }
            if t == id {
                assert(!exists|k: int| 0 <= k < n - 1 && #[trigger] holds_id(ps, k, min_len, first, second, c, id));
            } else {
                assert((exists|k: int| 0 <= k < n && #[trigger] holds_id(ps, k, min_len, first, second, c, id))
                    == (exists|k: int| 0 <= k < n - 1 && #[trigger] holds_id(ps, k, min_len, first, second, c, id))) by {
                    if exists|k: int| 0 <= k < n && #[trigger] holds_id(ps, k, min_len, first, second, c, id) {
                        let k = choose|k: int| 0 <= k < n && #[trigger] holds_id(ps, k, min_len, first, second, c, id);
                        assert(k != n - 1);
                    }
                }
            }
        } else {
            assert(bs == rest);
            assert forall|m: int| 0 <= m < bs.len() implies (#[trigger] bs[m]) is Burn && bs[m]->Burn_nonce == 0
                && exists|k: int| 0 <= k < n && #[trigger] holds_id(ps, k, min_len, first, second, c, bs[m]->Burn_token_id) by {
                let k = choose|k: int| 0 <= k < n - 1 && #[trigger] holds_id(ps, k, min_len, first, second, c, rest[m]->Burn_token_id);
                assert(holds_id(ps, k, min_len, first, second, c, bs[m]->Burn_token_id));
            }
            if holds_id(ps, n - 1, min_len, first, second, c, id) {
                let k = choose|k: int| 0 <= k < n - 1 && #[trigger] holds_id(ps, k, min_len, first, second, c, ps[n - 1].token_id);
                assert(holds_id(ps, k, min_len, first, second, c, id));
            } else {
                assert((exists|k: int| 0 <= k < n && #[trigger] holds_id(ps, k, min_len, first, second, c, id))
                    == (exists|k: int| 0 <= k < n - 1 && #[trigger] holds_id(ps, k, min_len, first, second, c, id))) by {
                    if exists|k: int| 0 <= k < n && #[trigger] holds_id(ps, k, min_len, first, second, c, id) {
                        let k = choose|k: int| 0 <= k < n && #[trigger] holds_id(ps, k, min_len, first, second, c, id);
                        assert(k != n - 1);
                    }
                }
            }
        }
    }
}

/// What `tally` counts is the amount of each resource.
pub proof fn lemma_tally_class_totals(ps: Seq<PaymentView>, min_len: nat, first: Seq<u8>, second: Seq<u8>, strict: bool)
    requires
        tally(ps, min_len, first, second, strict) is Ok,
    ensures
        class_total(ps, min_len, first, second, false) == tally(ps, min_len, first, second, strict)->Ok_0.0,
        class_total(ps, min_len, first, second, true) == tally(ps, min_len, first, second, strict)->Ok_0.1,
        burnable(ps, min_len, first, second),
    decreases ps.len(),
{
    if ps.len() > 0 {
        lemma_tally_class_totals(ps.drop_last(), min_len, first, second, strict);
    }
}

/// A resource that was paid has a burn.
pub proof fn lemma_paid_class_burned(ps: Seq<PaymentView>, min_len: nat, first: Seq<u8>, second: Seq<u8>, c: bool)
    ensures
        class_total(ps, min_len, first, second, c) > 0 ==> class_burns(ps, min_len, first, second, c).len() > 0,
{
    if class_total(ps, min_len, first, second, c) > 0 {
        lemma_paid_has_payment(ps, min_len, first, second, c);
        let k = choose|k: int| 0 <= k < ps.len() && in_class(#[trigger] ps[k], min_len, first, second, c);
        lemma_upto_nonempty(ps, ps.len() as int, k, min_len, first, second, c);
    }
}

pub proof fn lemma_paid_has_payment(ps: Seq<PaymentView>, min_len: nat, first: Seq<u8>, second: Seq<u8>, c: bool)
    requires
        class_total(ps, min_len, first, second, c) > 0,
    ensures
        exists|k: int| 0 <= k < ps.len() && in_class(#[trigger] ps[k], min_len, first, second, c),
    decreases ps.len(),
{
    if in_class(ps.last(), min_len, first, second, c) {
        assert(in_class(ps[ps.len() - 1], min_len, first, second, c));
    } else {
        lemma_paid_has_payment(ps.drop_last(), min_len, first, second, c);
        let k = choose|k: int| 0 <= k < ps.drop_last().len() && in_class(#[trigger] ps.drop_last()[k], min_len, first, second, c);
        assert(ps[k] == ps.drop_last()[k]);
    }
}

proof fn lemma_upto_nonempty(ps: Seq<PaymentView>, n: int, k: int, min_len: nat, first: Seq<u8>, second: Seq<u8>, c: bool)
    requires
        0 <= k < n <= ps.len(),
        in_class(ps[k], min_len, first, second, c),
    ensures
        class_burns_upto(ps, n, min_len, first, second, c).len() > 0,
    decreases n,
{
    if first_of_id(ps, n - 1, min_len, first, second, c) {
    } else if k < n - 1 {
        lemma_upto_nonempty(ps, n - 1, k, min_len, first, second, c);
    } else {
        let j = choose|j: int| 0 <= j < n - 1 && #[trigger] holds_id(ps, j, min_len, first, second, c, ps[n - 1].token_id);
        lemma_upto_nonempty(ps, n - 1, j, min_len, first, second, c);
    }
}

/// With one prefix asked for twice, nothing counts for the second resource:
/// it has no burns and `tally` counts none of it.
pub proof fn lemma_same_prefix_one_class(ps: Seq<PaymentView>, min_len: nat, p: Seq<u8>, strict: bool)
    ensures
        class_burns(ps, min_len, p, p, true) == Seq::<ActionView>::empty(),
        class_total(ps, min_len, p, p, true) == 0,
        tally(ps, min_len, p, p, strict) is Ok ==> tally(ps, min_len, p, p, strict)->Ok_0.1 == 0,
{
    lemma_none_in_class(ps, ps.len() as int, min_len, p);
    lemma_class_total_empty(ps, min_len, p);
    if tally(ps, min_len, p, p, strict) is Ok {
        lemma_tally_class_totals(ps, min_len, p, p, strict);
    }
}

proof fn lemma_none_in_class(ps: Seq<PaymentView>, n: int, min_len: nat, p: Seq<u8>)
    requires
        0 <= n <= ps.len(),
    ensures
        class_burns_upto(ps, n, min_len, p, p, true) == Seq::<ActionView>::empty(),
    decreases n,
{
    if n > 0 {
        lemma_none_in_class(ps, n - 1, min_len, p);
    }
}

proof fn lemma_class_total_empty(ps: Seq<PaymentView>, min_len: nat, p: Seq<u8>)
    ensures
        class_total(ps, min_len, p, p, true) == 0,
    decreases ps.len(),
{
    if ps.len() > 0 {
        lemma_class_total_empty(ps.drop_last(), min_len, p);
    }
}

/// The resources burned are exactly those paid: every burn has nonce 0, no
/// token is burned twice, and each token is burned of exactly the amount
/// paid in it.
pub proof fn law_burns_match_payments(
    ps: Seq<PaymentView>,
    min_len: nat,
    first: Seq<u8>,
    second: Seq<u8>,
    strict: bool,
    token_id: Seq<u8>,
)
    requires
        tally(ps, min_len, first, second, strict) is Ok,
    ensures
        burned_of(resource_burns(ps, min_len, first, second), token_id) == paid_of(ps, min_len, first, second, token_id),
        forall|m: int| 0 <= m < resource_burns(ps, min_len, first, second).len()
            ==> (#[trigger] resource_burns(ps, min_len, first, second)[m]) is Burn
                && resource_burns(ps, min_len, first, second)[m]->Burn_nonce == 0,
        forall|a: int, b: int| 0 <= a < b < resource_burns(ps, min_len, first, second).len()
            ==> (#[trigger] resource_burns(ps, min_len, first, second)[a])->Burn_token_id
                != (#[trigger] resource_burns(ps, min_len, first, second)[b])->Burn_token_id,
{
    lemma_tally_class_totals(ps, min_len, first, second, strict);
    let n = ps.len() as int;
    let b0 = class_burns(ps, min_len, first, second, false);
    let b1 = class_burns(ps, min_len, first, second, true);
    lemma_class_burns_upto(ps, n, min_len, first, second, false, token_id);
    lemma_class_burns_upto(ps, n, min_len, first, second, true, token_id);
    if !exists|k: int| 0 <= k < n && #[trigger] holds_id(ps, k, min_len, first, second, false, token_id) {
        lemma_id_total_absent(ps, min_len, first, second, false, token_id);
    }
    if !exists|k: int| 0 <= k < n && #[trigger] holds_id(ps, k, min_len, first, second, true, token_id) {
        lemma_id_total_absent(ps, min_len, first, second, true, token_id);
    }
    lemma_burned_of_concat(b0, b1, token_id);
    lemma_paid_of_classes(ps, min_len, first, second, token_id);
    let bs = resource_burns(ps, min_len, first, second);
    assert forall|m: int| 0 <= m < bs.len() implies (#[trigger] bs[m]) is Burn && bs[m]->Burn_nonce == 0 by {
        if m < b0.len() {
            assert(bs[m] == b0[m]);
        } else {
            assert(bs[m] == b1[m - b0.len()]);
        }
    }
    assert forall|a: int, b: int| 0 <= a < b < bs.len() implies (#[trigger] bs[a])->Burn_token_id
        != (#[trigger] bs[b])->Burn_token_id by {
        if b < b0.len() {
            assert(bs[a] == b0[a] && bs[b] == b0[b]);
        } else if a >= b0.len() {
            assert(bs[a] == b1[a - b0.len()] && bs[b] == b1[b - b0.len()]);
        } else {
            assert(bs[a] == b0[a] && bs[b] == b1[b - b0.len()]);
            let ka = choose|k: int| 0 <= k < n && #[trigger] holds_id(ps, k, min_len, first, second, false, b0[a]->Burn_token_id);
            let kb = choose|k: int| 0 <= k < n && #[trigger] holds_id(ps, k, min_len, first, second, true, b1[b - b0.len()]->Burn_token_id);
        }
    }
}

/// A resource paid in a single token is burned once, of its whole amount,
/// with nonce 0.
pub proof fn law_single_token_burned_once(
    ps: Seq<PaymentView>,
    min_len: nat,
    first: Seq<u8>,
    second: Seq<u8>,
    c: bool,
    token_id: Seq<u8>,
)
    requires
        burnable(ps, min_len, first, second),
        exists|k: int| 0 <= k < ps.len() && in_class(#[trigger] ps[k], min_len, first, second, c),
        forall|k: int| 0 <= k < ps.len() && in_class(#[trigger] ps[k], min_len, first, second, c) ==> ps[k].token_id == token_id,
    ensures
        class_burns(ps, min_len, first, second, c) == seq![ActionView::Burn {
            token_id: token_id,
            nonce: 0,
            amount: class_total(ps, min_len, first, second, c) as u128,
        }],
{
    let n = ps.len() as int;
    let bs = class_burns(ps, min_len, first, second, c);
    lemma_class_burns_upto(ps, n, min_len, first, second, c, token_id);
    lemma_id_total_is_class_total(ps, min_len, first, second, c, token_id);
    let k0 = choose|k: int| 0 <= k < ps.len() && in_class(#[trigger] ps[k], min_len, first, second, c);
    lemma_upto_nonempty(ps, n, k0, min_len, first, second, c);
    assert(holds_id(ps, k0, min_len, first, second, c, token_id));
    assert forall|m: int| 0 <= m < bs.len() implies (#[trigger] bs[m])->Burn_token_id == token_id by {
        let k = choose|k: int| 0 <= k < n && #[trigger] holds_id(ps, k, min_len, first, second, c, bs[m]->Burn_token_id);
    }
    if bs.len() > 1 {
        assert(bs[0]->Burn_token_id == token_id && bs[1]->Burn_token_id == token_id);
    }
    assert(bs.len() == 1);
    assert(burned_of(bs, token_id) == burned_of(bs.drop_last(), token_id) + bs[0]->Burn_amount);
    assert(bs[0] == ActionView::Burn { token_id: token_id, nonce: 0, amount: bs[0]->Burn_amount });
    assert(bs =~= seq![ActionView::Burn {
        token_id: token_id,
        nonce: 0,
        amount: class_total(ps, min_len, first, second, c) as u128,
    }]);
}

proof fn lemma_id_total_is_class_total(ps: Seq<PaymentView>, min_len: nat, first: Seq<u8>, second: Seq<u8>, c: bool, token_id: Seq<u8>)
    requires
        forall|k: int| 0 <= k < ps.len() && in_class(#[trigger] ps[k], min_len, first, second, c) ==> ps[k].token_id == token_id,
    ensures
        id_total(ps, min_len, first, second, c, token_id) == class_total(ps, min_len, first, second, c),
    decreases ps.len(),
{
    if ps.len() > 0 {
        let init = ps.drop_last();
        assert forall|k: int| 0 <= k < init.len() && in_class(#[trigger] init[k], min_len, first, second, c) implies init[k].token_id == token_id by {
            assert(init[k] == ps[k]);
        }
        assert(in_class(ps.last(), min_len, first, second, c) ==> ps[ps.len() - 1].token_id == token_id);
        lemma_id_total_is_class_total(init, min_len, first, second, c, token_id);
    }
}

/// A token is issued at most once: after an issue has started, starting
/// another is refused.
pub proof fn law_issue_once(s: TokenSlotView)
    requires
        begin_issue_spec(s) is Ok,
    ensures
        begin_issue_spec(begin_issue_spec(s)->Ok_0) == Err::<TokenSlotView, ContractError>(ContractError::IssueAlreadyCalled),
{
}

/// An issued token's identifier is recorded at most once.
pub proof fn law_token_id_set_once(s: TokenSlotView, id: Seq<u8>, other: Seq<u8>)
    requires
        set_token_id_spec(s, id) is Ok,
    ensures
        set_token_id_spec(set_token_id_spec(s, id)->Ok_0, other) == Err::<TokenSlotView, ContractError>(ContractError::TokenIdAlreadySet),
{
}

/// `tally` refuses only for an unknown token, a too short identifier or an
/// overflowing total.
pub proof fn lemma_tally_errors(ps: Seq<PaymentView>, min_len: nat, first: Seq<u8>, second: Seq<u8>, strict: bool)
    ensures
        tally(ps, min_len, first, second, strict) is Err ==> {
            let e = tally(ps, min_len, first, second, strict)->Err_0;
            e == ContractError::InvalidToken || e == ContractError::InvalidTokenIdLength
                || e == ContractError::AmountOverflow
        },
    decreases ps.len(),
{
    if ps.len() > 0 {
        lemma_tally_errors(ps.drop_last(), min_len, first, second, strict);
    }
}

} // verus!
