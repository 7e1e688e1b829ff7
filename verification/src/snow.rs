//! The Snow contract: issues fungible tokens for its callers and keeps, for
//! each caller, the tokens they issued and the balance of each that they may
//! burn or claim.

use vstd::prelude::*;
use crate::bytes::{bytes_eq, copy_bytes};
use crate::esdt::{Payment, Action, ActionView, actions_view, ContractError, TokenProperties};
use crate::store::Store;

verus! {

/// The tokens a user issued, in the order they were issued.
pub struct TokenList {
    pub ids: Vec<Vec<u8>>,
}

impl View for TokenList {
    type V = Seq<Seq<u8>>;

    open spec fn view(&self) -> Seq<Seq<u8>> {
        self.ids@.map_values(|id: Vec<u8>| id@)
    }
}

/// The Snow contract's storage: the last token issued through it, the tokens
/// each user issued, and each user's balance of each of those tokens.
pub struct Snow {
    pub last_token: Vec<u8>,
    pub user_tokens: Store<Vec<u8>, TokenList>,
    pub balances: Store<(Vec<u8>, Vec<u8>), u128>,
}

pub struct SnowView {
    pub last_token: Seq<u8>,
    pub user_tokens: Map<Seq<u8>, Seq<Seq<u8>>>,
    pub balances: Map<(Seq<u8>, Seq<u8>), u128>,
}

impl View for Snow {
    type V = SnowView;

    open spec fn view(&self) -> SnowView {
        SnowView { last_token: self.last_token@, user_tokens: self.user_tokens@, balances: self.balances@ }
    }
}

/// The properties tokens are issued with: 8 decimals, and every special
/// property (freeze, wipe, pause, change owner, upgrade, special roles, mint,
/// burn).
pub open spec fn snow_properties() -> TokenProperties {
    TokenProperties {
        num_decimals: 8,
        can_freeze: true,
        can_wipe: true,
        can_pause: true,
        can_change_owner: true,
        can_upgrade: true,
        can_add_special_roles: true,
        can_mint: true,
        can_burn: true,
    }
}

/// The tokens `user` issued (none when not recorded).
pub open spec fn tokens_of(m: Map<Seq<u8>, Seq<Seq<u8>>>, user: Seq<u8>) -> Seq<Seq<u8>> {
    if m.contains_key(user) { m[user] } else { Seq::empty() }
}

/// `user`'s balance of `token` (0 when none).
pub open spec fn balance_of(m: Map<(Seq<u8>, Seq<u8>), u128>, user: Seq<u8>, token: Seq<u8>) -> u128 {
    if m.contains_key((user, token)) { m[(user, token)] } else { 0 }
}

/// The storage after the issue of `token`, with `amount` of it received, for
/// `user`: it becomes the last token, is added to the user's tokens (when
/// new to them) and its balance is the amount received.
pub open spec fn issued(s: SnowView, user: Seq<u8>, token: Seq<u8>, amount: u128) -> SnowView {
    SnowView {
        last_token: token,
        user_tokens: if s.balances.contains_key((user, token)) {
            s.user_tokens
        } else {
            s.user_tokens.insert(user, tokens_of(s.user_tokens, user).push(token))
        },
        balances: s.balances.insert((user, token), amount),
    }
}

/// What burning checks: `user` holds a balance of `token` of at least
/// `amount`.
pub open spec fn burn_check(s: SnowView, user: Seq<u8>, token: Seq<u8>, amount: u128) -> Result<(), ContractError> {
    if !s.balances.contains_key((user, token)) || s.balances[(user, token)] < amount {
        Err(ContractError::InsufficientBalance)
    } else {
        Ok(())
    }
}

/// The storage after `user` burned `amount` of `token`.
pub open spec fn burned(s: SnowView, user: Seq<u8>, token: Seq<u8>, amount: u128) -> SnowView {
    SnowView { balances: s.balances.insert((user, token), (s.balances[(user, token)] - amount) as u128), ..s }
}

/// Claiming every token in `tokens` for `user`, one after the other: each
/// positive balance is sent to the user and set to 0. Gives the sends and
/// the balances after.
pub open spec fn claim_all(
    m: Map<(Seq<u8>, Seq<u8>), u128>,
    user: Seq<u8>,
    tokens: Seq<Seq<u8>>,
) -> (Seq<ActionView>, Map<(Seq<u8>, Seq<u8>), u128>)
    decreases tokens.len(),
{
    if tokens.len() == 0 {
        (Seq::empty(), m)
    } else {
        let (sends, m1) = claim_all(m, user, tokens.drop_last());
        let t = tokens.last();
        let b = balance_of(m1, user, t);
        if b > 0 {
            (
                sends.push(ActionView::Send { to: user, token_id: t, nonce: 0, amount: b }),
                m1.insert((user, t), 0),
            )
        } else {
            (sends, m1)
        }
    }
}

/// The storage after `user` claimed their balance of `token`.
pub open spec fn claimed_one(s: SnowView, user: Seq<u8>, token: Seq<u8>) -> SnowView {
    SnowView { balances: s.balances.insert((user, token), 0), ..s }
}

/// The storage after `user` claimed the balances of every token they issued.
pub open spec fn claimed_all(s: SnowView, user: Seq<u8>) -> SnowView {
    SnowView { balances: claim_all(s.balances, user, tokens_of(s.user_tokens, user)).1, ..s }
}

impl Snow {
    /// The storage of a freshly deployed contract.
    pub fn init() -> (r: Snow)
        ensures
            r@.last_token == Seq::<u8>::empty(),
            r@.user_tokens == Map::<Seq<u8>, Seq<Seq<u8>>>::empty(),
            r@.balances == Map::<(Seq<u8>, Seq<u8>), u128>::empty(),
    {
        Snow { last_token: Vec::new(), user_tokens: Store::new(), balances: Store::new() }
    }

    /// `issueTokenSnow`: issues a fungible token with the given name, ticker
    /// and initial supply, paying `egld_value`; the callback is told the
    /// caller, whom it refunds if the issue fails.
    pub fn issue_token(caller: &Vec<u8>, token_name: Vec<u8>, token_ticker: Vec<u8>, initial_supply: u128, egld_value: u128) -> (r: Vec<Action>)
        ensures
            actions_view(r@) == seq![ActionView::IssueFungible {
                refund_to: caller@,
                issue_cost: egld_value,
                name: token_name@,
                ticker: token_ticker@,
                initial_supply: initial_supply,
                properties: snow_properties(),
            }],
    {
        let ghost nm = token_name@;
        let ghost tk = token_ticker@;
        let properties = TokenProperties {
            num_decimals: 8,
            can_freeze: true,
            can_wipe: true,
            can_pause: true,
            can_change_owner: true,
            can_upgrade: true,
            can_add_special_roles: true,
            can_mint: true,
            can_burn: true,
        };
        let mut actions: Vec<Action> = Vec::new();
        actions.push(Action::IssueFungible {
            refund_to: copy_bytes(caller),
            issue_cost: egld_value,
            name: token_name,
            ticker: token_ticker,
            initial_supply: initial_supply,
            properties: properties,
        });
        proof {
            assert(actions_view(actions@) =~= seq![ActionView::IssueFungible {
                refund_to: caller@,
                issue_cost: egld_value,
                name: nm,
                ticker: tk,
                initial_supply: initial_supply,
                properties: snow_properties(),
            }]);
        }
        actions
    }

    /// The tokens `user` issued (a copy).
    fn tokens_copy(&self, user: &Vec<u8>) -> (r: Vec<Vec<u8>>)
        ensures
            r@.map_values(|id: Vec<u8>| id@) == tokens_of(self@.user_tokens, user@),
    {
        let mut r: Vec<Vec<u8>> = Vec::new();
        match self.user_tokens.get(user) {
            None => {
                assert(r@.map_values(|id: Vec<u8>| id@) =~= Seq::<Seq<u8>>::empty());
            },
            Some(list) => {
                let n = list.ids.len();
                let mut i: usize = 0;
                while i < n
                    invariant
                        n == list.ids@.len(),
                        i <= n,
                        r@.len() == i,
                        r@.map_values(|id: Vec<u8>| id@) == list@.take(i as int),
                    decreases n - i,
                {
                    let ghost before = r@;
                    assert(list@[i as int] == list.ids@[i as int]@);
                    r.push(copy_bytes(&list.ids[i]));
                    i = i + 1;
                    assert(r@.map_values(|id: Vec<u8>| id@) =~= list@.take(i as int));
                }
                assert(list@.take(n as int) =~= list@);
            },
        }
        r
    }

    /// The callback of `issueTokenSnow`, told `caller`, the `refund_to` of the
    /// issue request (the caller who paid): on success the token that came
    /// back (the first payment) becomes the last token and is recorded as
    /// issued by `caller`, with the amount received as their balance; on
    /// failure the EGLD that came back is returned to `caller`.
    pub fn issue_callback(&mut self, caller: &Vec<u8>, succeeded: bool, payments: &Vec<Payment>, egld_value: u128) -> (r: Result<Vec<Action>, ContractError>)
        ensures
            if succeeded {
                if payments@.len() == 0 {
                    r == Err::<Vec<Action>, ContractError>(ContractError::MissingPayment) && final(self)@ == old(self)@
                } else {
                    r is Ok && r->Ok_0@.len() == 0
                        && final(self)@ == issued(old(self)@, caller@, payments@[0].token_id@, payments@[0].amount)
                }
            } else {
                r is Ok && actions_view(r->Ok_0@) == seq![ActionView::SendEgld { to: caller@, amount: egld_value }]
                    && final(self)@ == old(self)@
            },
    {
        let mut actions: Vec<Action> = Vec::new();
        if succeeded {
            if payments.len() == 0 {
                return Err(ContractError::MissingPayment);
            }
            let token = &payments[0].token_id;
            let key = (copy_bytes(caller), copy_bytes(token));
            if !self.balances.contains(&key) {
                let mut list = self.tokens_copy(caller);
                let ghost before = list@;
                list.push(copy_bytes(token));
                proof {
                    assert(list@.map_values(|id: Vec<u8>| id@) =~= before.map_values(|id: Vec<u8>| id@).push(token@));
                }
                self.user_tokens.insert(copy_bytes(caller), TokenList { ids: list });
            }
            self.balances.insert(key, payments[0].amount);
            self.last_token = copy_bytes(token);
        } else {
            actions.push(Action::SendEgld { to: copy_bytes(caller), amount: egld_value });
            proof {
                assert(actions_view(actions@) =~= seq![ActionView::SendEgld { to: caller@, amount: egld_value }]);
            }
        }
        Ok(actions)
    }

    /// `burnTokens`: burns `amount` of `token_id` from the caller's balance;
    /// refused when the caller holds less of it.
    pub fn burn_tokens(&mut self, caller: &Vec<u8>, token_id: &Vec<u8>, amount: u128) -> (r: Result<Vec<Action>, ContractError>)
        ensures
            match burn_check(old(self)@, caller@, token_id@, amount) {
                Ok(()) => r is Ok && final(self)@ == burned(old(self)@, caller@, token_id@, amount)
                    && actions_view(r->Ok_0@) == seq![ActionView::Burn { token_id: token_id@, nonce: 0, amount: amount }],
                Err(e) => r == Err::<Vec<Action>, ContractError>(e) && final(self)@ == old(self)@,
            },
    {
        let key = (copy_bytes(caller), copy_bytes(token_id));
        let balance = match self.balances.get(&key) {
            None => {
                return Err(ContractError::InsufficientBalance);
            },
            Some(b) => *b,
        };
        if balance < amount {
            return Err(ContractError::InsufficientBalance);
        }
        self.balances.insert(key, balance - amount);
        let mut actions: Vec<Action> = Vec::new();
        actions.push(Action::Burn { token_id: copy_bytes(token_id), nonce: 0, amount: amount });
        proof {
            assert(actions_view(actions@) =~= seq![ActionView::Burn { token_id: token_id@, nonce: 0, amount: amount }]);
        }
        Ok(actions)
    }

    /// `getTokens`: the last token issued.
    pub fn get_tokens(&self) -> (r: Vec<u8>)
        ensures
            r@ == self@.last_token,
    {
        copy_bytes(&self.last_token)
    }

    /// `getAllUsersTokens`: the tokens `address` issued, in issue order.
    pub fn get_all_users_tokens(&self, address: &Vec<u8>) -> (r: Vec<Vec<u8>>)
        ensures
            r@.map_values(|id: Vec<u8>| id@) == tokens_of(self@.user_tokens, address@),
    {
        self.tokens_copy(address)
    }

    /// `getSingleTokenBalance`: the caller's balance of `token_id`.
    pub fn get_single_token_balance(&self, caller: &Vec<u8>, token_id: &Vec<u8>) -> (r: u128)
        ensures
            r == balance_of(self@.balances, caller@, token_id@),
    {
        match self.balances.get(&(copy_bytes(caller), copy_bytes(token_id))) {
            Some(b) => *b,
            None => 0,
        }
    }

    /// `getAllUserTokenBalances`: each token `address` issued with its
    /// balance; only `address` itself may ask.
    pub fn get_all_user_token_balances(&self, caller: &Vec<u8>, address: &Vec<u8>) -> (r: Result<Vec<(Vec<u8>, u128)>, ContractError>)
        ensures
            if caller@ != address@ {
                r == Err::<Vec<(Vec<u8>, u128)>, ContractError>(ContractError::OnlyOwner)
            } else {
                r is Ok && r->Ok_0@.len() == tokens_of(self@.user_tokens, address@).len()
                    && forall|i: int| 0 <= i < r->Ok_0@.len() ==> {
                        let t = tokens_of(self@.user_tokens, address@)[i];
                        &&& (#[trigger] r->Ok_0@[i]).0@ == t
                        &&& r->Ok_0@[i].1 == balance_of(self@.balances, address@, t)
                    }
            },
    {
        if !bytes_eq(caller, address) {
            return Err(ContractError::OnlyOwner);
        }
        let tokens = self.tokens_copy(address);
        let ghost ts = tokens_of(self@.user_tokens, address@);
        let mut r: Vec<(Vec<u8>, u128)> = Vec::new();
        let n = tokens.len();
        let mut i: usize = 0;
        while i < n
            invariant
                n == tokens@.len(),
                tokens@.map_values(|id: Vec<u8>| id@) == ts,
                ts == tokens_of(self@.user_tokens, address@),
                i <= n,
                r@.len() == i,
                forall|j: int| 0 <= j < i ==> {
                    &&& (#[trigger] r@[j]).0@ == ts[j]
                    &&& r@[j].1 == balance_of(self@.balances, address@, ts[j])
                },
            decreases n - i,
        {
            assert(ts[i as int] == tokens@[i as int]@);
            let b = self.get_single_token_balance(address, &tokens[i]);
            r.push((copy_bytes(&tokens[i]), b));
            i = i + 1;
        }
        Ok(r)
    }

    /// `claimUserTokens`: sends the caller their whole balance of `token_id`
    /// and sets it to 0; refused when there is nothing to claim.
    pub fn claim_user_tokens(&mut self, caller: &Vec<u8>, token_id: &Vec<u8>) -> (r: Result<Vec<Action>, ContractError>)
        ensures
            if balance_of(old(self)@.balances, caller@, token_id@) == 0 {
                r == Err::<Vec<Action>, ContractError>(ContractError::NothingToClaim) && final(self)@ == old(self)@
            } else {
                r is Ok && actions_view(r->Ok_0@) == seq![ActionView::Send {
                    to: caller@,
                    token_id: token_id@,
                    nonce: 0,
                    amount: balance_of(old(self)@.balances, caller@, token_id@),
                }] && final(self)@ == claimed_one(old(self)@, caller@, token_id@)
            },
    {
        let b = self.get_single_token_balance(caller, token_id);
        if b == 0 {
            return Err(ContractError::NothingToClaim);
        }
        self.balances.insert((copy_bytes(caller), copy_bytes(token_id)), 0);
        let mut actions: Vec<Action> = Vec::new();
        actions.push(Action::Send { to: copy_bytes(caller), token_id: copy_bytes(token_id), nonce: 0, amount: b });
        proof {
            assert(actions_view(actions@) =~= seq![ActionView::Send {
                to: caller@,
                token_id: token_id@,
                nonce: 0,
                amount: b,
            }]);
        }
        Ok(actions)
    }

    /// `claimTokens`: sends the caller every positive balance of the tokens
    /// they issued, in issue order, and sets those balances to 0; refused when
    /// the caller issued no token.
    pub fn claim_tokens(&mut self, caller: &Vec<u8>) -> (r: Result<Vec<Action>, ContractError>)
        ensures
            if tokens_of(old(self)@.user_tokens, caller@).len() == 0 {
                r == Err::<Vec<Action>, ContractError>(ContractError::NoTokensIssued) && final(self)@ == old(self)@
            } else {
                r is Ok && actions_view(r->Ok_0@) == claim_all(
                    old(self)@.balances, caller@, tokens_of(old(self)@.user_tokens, caller@)).0
                    && final(self)@ == claimed_all(old(self)@, caller@)
            },
    {
        let tokens = self.tokens_copy(caller);
        let ghost ts = tokens_of(self@.user_tokens, caller@);
        if tokens.len() == 0 {
            return Err(ContractError::NoTokensIssued);
        }
        let ghost start = self@;
        let mut actions: Vec<Action> = Vec::new();
        let n = tokens.len();
        let mut i: usize = 0;
        proof {
            assert(ts.take(0).len() == 0);
            assert(actions_view(actions@) =~= Seq::<ActionView>::empty());
        }
        while i < n
            invariant
                n == tokens@.len(),
                tokens@.map_values(|id: Vec<u8>| id@) == ts,
                i <= n,
                self@.last_token == start.last_token,
                self@.user_tokens == start.user_tokens,
                (actions_view(actions@), self@.balances) == claim_all(start.balances, caller@, ts.take(i as int)),
            decreases n - i,
        {
            proof {
                assert(ts.take(i + 1).drop_last() =~= ts.take(i as int));
                assert(ts.take(i + 1).last() == tokens@[i as int]@);
            }
            let b = self.get_single_token_balance(caller, &tokens[i]);
            if b > 0 {
                let ghost before = actions@;
                self.balances.insert((copy_bytes(caller), copy_bytes(&tokens[i])), 0);
                actions.push(Action::Send { to: copy_bytes(caller), token_id: copy_bytes(&tokens[i]), nonce: 0, amount: b });
                proof {
                    assert(actions_view(actions@) =~= actions_view(before).push(
                        ActionView::Send { to: caller@, token_id: tokens@[i as int]@, nonce: 0, amount: b },
                    ));
                }
            }
            i = i + 1;
        }
        proof {
            assert(ts.take(n as int) =~= ts);
        }
        Ok(actions)
    }
}

/// Claiming a user's tokens touches only that user's balances of those
/// tokens, and afterwards each of them is 0.
pub proof fn law_claim_all_empties(m: Map<(Seq<u8>, Seq<u8>), u128>, user: Seq<u8>, tokens: Seq<Seq<u8>>)
    ensures
        forall|i: int| 0 <= i < tokens.len() ==> balance_of(claim_all(m, user, tokens).1, user, #[trigger] tokens[i]) == 0,
        forall|k: (Seq<u8>, Seq<u8>)| !(k.0 == user && tokens.contains(k.1))
            ==> #[trigger] balance_of(claim_all(m, user, tokens).1, k.0, k.1) == balance_of(m, k.0, k.1),
    decreases tokens.len(),
{
    if tokens.len() > 0 {
        let init = tokens.drop_last();
        law_claim_all_empties(m, user, init);
        assert forall|i: int| 0 <= i < tokens.len() implies balance_of(claim_all(m, user, tokens).1, user, #[trigger] tokens[i]) == 0 by {
            if i < tokens.len() - 1 {
                assert(init[i] == tokens[i]);
            }
        }
        assert forall|k: (Seq<u8>, Seq<u8>)| !(k.0 == user && tokens.contains(k.1))
            implies #[trigger] balance_of(claim_all(m, user, tokens).1, k.0, k.1) == balance_of(m, k.0, k.1) by {
            if k.0 == user && init.contains(k.1) {
                let j = choose|j: int| 0 <= j < init.len() && init[j] == k.1;
                assert(tokens[j] == k.1);
                assert(tokens.contains(k.1));
            }
            if k.0 == user && k.1 == tokens.last() {
                assert(tokens[tokens.len() - 1] == k.1);
                assert(tokens.contains(k.1));
            }
            assert(k != (user, tokens.last()));
            assert(!(k.0 == user && init.contains(k.1)));
            let m1 = claim_all(m, user, init).1;
            assert(balance_of(m1, k.0, k.1) == balance_of(m, k.0, k.1));
            assert(balance_of(claim_all(m, user, tokens).1, k.0, k.1) == balance_of(m1, k.0, k.1));
        }
    }
}

/// The last issued token stays what it is through burns and claims; only a
/// new issue changes it.
pub proof fn law_last_token_kept(s: SnowView, user: Seq<u8>, token: Seq<u8>, amount: u128)
    ensures
        burned(s, user, token, amount).last_token == s.last_token,
        issued(s, user, token, amount).last_token == token,
{
}

/// A burn takes exactly the amount burned off the burner's balance and
/// changes no other balance.
pub proof fn law_burn_reduces_balance(s: SnowView, user: Seq<u8>, token: Seq<u8>, amount: u128, other: (Seq<u8>, Seq<u8>))
    requires
        burn_check(s, user, token, amount) is Ok,
    ensures
        balance_of(burned(s, user, token, amount).balances, user, token) == balance_of(s.balances, user, token) - amount,
        other != (user, token) ==> balance_of(burned(s, user, token, amount).balances, other.0, other.1)
            == balance_of(s.balances, other.0, other.1),
{
}

/// After an issue the issuer holds the amount received of the new token, and
/// the token is among their tokens.
pub proof fn law_issue_credits_issuer(s: SnowView, user: Seq<u8>, token: Seq<u8>, amount: u128)
    ensures
        balance_of(issued(s, user, token, amount).balances, user, token) == amount,
        !s.balances.contains_key((user, token)) ==> tokens_of(issued(s, user, token, amount).user_tokens, user)
            == tokens_of(s.user_tokens, user).push(token),
{
}

/// A successful call that changes the Snow contract's storage.
pub enum SnowStep {
    Issue { user: Seq<u8>, token: Seq<u8>, amount: u128 },
    Burn { user: Seq<u8>, token: Seq<u8>, amount: u128 },
    ClaimOne { user: Seq<u8>, token: Seq<u8> },
    ClaimAll { user: Seq<u8> },
}

/// The storage after the successful calls `steps`, from `s`.
pub open spec fn apply_snow_steps(s: SnowView, steps: Seq<SnowStep>) -> SnowView
    decreases steps.len(),
{
    if steps.len() == 0 {
        s
    } else {
        let t = apply_snow_steps(s, steps.drop_last());
        match steps.last() {
            SnowStep::Issue { user, token, amount } => issued(t, user, token, amount),
            SnowStep::Burn { user, token, amount } => burned(t, user, token, amount),
            SnowStep::ClaimOne { user, token } => claimed_one(t, user, token),
            SnowStep::ClaimAll { user } => claimed_all(t, user),
        }
    }
}

/// The token of the last issue among `steps`, if any.
pub open spec fn last_issued(steps: Seq<SnowStep>) -> Option<Seq<u8>>
    decreases steps.len(),
{
    if steps.len() == 0 {
        None
    } else {
        match steps.last() {
            SnowStep::Issue { token, .. } => Some(token),
            _ => last_issued(steps.drop_last()),
        }
    }
}

/// `getTokens` gives the token of the last successful issue: whatever burns
/// and claims came after it, the last token is the one last issued (and stays
/// as it was while none is issued).
pub proof fn law_last_token_is_last_issued(s: SnowView, steps: Seq<SnowStep>)
    ensures
        apply_snow_steps(s, steps).last_token == match last_issued(steps) {
            Some(t) => t,
            None => s.last_token,
        },
    decreases steps.len(),
{
    if steps.len() > 0 {
        law_last_token_is_last_issued(s, steps.drop_last());
    }
}

/// The total that a list of actions sends of `token` to `user`.
pub open spec fn sent_of(actions: Seq<ActionView>, user: Seq<u8>, token: Seq<u8>) -> int
    decreases actions.len(),
{
    if actions.len() == 0 {
        0
    } else {
        sent_of(actions.drop_last(), user, token) + match actions.last() {
            ActionView::Send { to, token_id, amount, .. } => if to == user && token_id == token {
                amount as int
            } else {
                0
            },
            _ => 0,
        }
    }
}

/// Claiming a user's tokens sends the user, of each of those tokens, exactly
/// the balance it clears (nothing of any other token), and every action is a
/// transfer to the user with nonce 0.
pub proof fn law_claim_all_sends_balances(m: Map<(Seq<u8>, Seq<u8>), u128>, user: Seq<u8>, tokens: Seq<Seq<u8>>, t: Seq<u8>)
    ensures
        sent_of(claim_all(m, user, tokens).0, user, t) == if tokens.contains(t) { balance_of(m, user, t) as int } else { 0 },
        forall|i: int| 0 <= i < claim_all(m, user, tokens).0.len() ==> (#[trigger] claim_all(m, user, tokens).0[i]) is Send
            && claim_all(m, user, tokens).0[i]->Send_to == user && claim_all(m, user, tokens).0[i]->Send_nonce == 0,
    decreases tokens.len(),
{
    if tokens.len() > 0 {
        let init = tokens.drop_last();
        let last = tokens.last();
        law_claim_all_sends_balances(m, user, init, t);
        law_claim_all_empties(m, user, init);
        let (sends, m1) = claim_all(m, user, init);
        let b = balance_of(m1, user, last);
        assert(tokens.contains(last)) by {
            assert(tokens[tokens.len() - 1] == last);
        }
        if init.contains(t) {
            let j = choose|j: int| 0 <= j < init.len() && init[j] == t;
            assert(tokens[j] == t);
        }
        if tokens.contains(t) && !init.contains(t) {
            let j = choose|j: int| 0 <= j < tokens.len() && tokens[j] == t;
            if j < init.len() {
                assert(init[j] == t);
            }
            assert(t == last);
        }
        if init.contains(last) {
            let j = choose|j: int| 0 <= j < init.len() && init[j] == last;
            assert(balance_of(m1, user, init[j]) == 0);
        } else {
            let k = (user, last);
            assert(!(k.0 == user && init.contains(k.1)));
            assert(balance_of(claim_all(m, user, init).1, k.0, k.1) == balance_of(m, k.0, k.1));
        }
        if b > 0 {
            let send = ActionView::Send { to: user, token_id: last, nonce: 0, amount: b };
            assert(sends.push(send).drop_last() =~= sends);
            assert forall|i: int| 0 <= i < sends.push(send).len() implies (#[trigger] sends.push(send)[i]) is Send
                && sends.push(send)[i]->Send_to == user && sends.push(send)[i]->Send_nonce == 0 by {
                if i < sends.len() {
                    assert(sends.push(send)[i] == sends[i]);
                }
            }
        }
    }
}

} // verus!
