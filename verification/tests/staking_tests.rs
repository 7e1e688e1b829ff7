use winter_realm::esdt::{Action, ContractError, Payment, TokenKind};
use winter_realm::snow::Snow;
use winter_realm::staking::Staking;
use winter_realm::staking_sc::{Staking as WinterStaking, StakingPosition, ISSUE_COST};

fn b(s: &str) -> Vec<u8> {
    s.as_bytes().to_vec()
}

fn pay(id: &str, amount: u128) -> Payment {
    Payment { token_id: b(id), nonce: 0, amount }
}

#[test]
fn locked_amounts_add_up() {
    let mut s = Staking::init();
    let alice = b("alice");
    assert_eq!(s.stake_token_winter(&alice, &pay("WINTER-abcdef", 10)), Ok(()));
    assert_eq!(s.stake_token_winter(&alice, &pay("WINTER-abcdef", 5)), Ok(()));
    assert_eq!(s.locked_token_amount(&alice), 15);
    assert_eq!(s.locked_tokens(), vec![alice.clone()]);
    assert_eq!(s.stake_epoch(&alice), 0);
    assert_eq!(s.stake_token_winter(&alice, &pay("WINTER-abcdef", 0)), Err(ContractError::MustPayMoreThanZero));
    assert_eq!(s.stake_token_winter(&alice, &pay("WINTER-abcdef", u128::MAX)), Err(ContractError::AmountOverflow));
    assert_eq!(s.locked_token_amount(&alice), 15);
    assert_eq!(s.locked_token_amount(&b("bob")), 0);
    s.stake_token_winter(&b("carol"), &pay("WINTER-abcdef", 1)).unwrap();
    s.stake_token_winter(&b("bob"), &pay("WINTER-abcdef", 1)).unwrap();
    s.stake_token_winter(&b("carol"), &pay("WINTER-abcdef", 1)).unwrap();
    assert_eq!(s.locked_tokens(), vec![alice.clone(), b("carol"), b("bob")]);
}

fn issued_staking() -> WinterStaking {
    let mut s = WinterStaking::init();
    let owner = b("owner");
    s.issue_token(&owner, &owner, b("Reward"), b("RWD"), ISSUE_COST).unwrap();
    assert_eq!(s.issue_callback(Some(b("RWD-abcdef"))), Ok(()));
    s
}

#[test]
fn reward_token_is_issued_once_by_the_owner() {
    let mut s = WinterStaking::init();
    let owner = b("owner");
    assert_eq!(s.issue_token(&b("eve"), &owner, b("Reward"), b("RWD"), ISSUE_COST), Err(ContractError::OnlyOwner));
    assert_eq!(s.issue_token(&owner, &owner, b("Reward"), b("RWD"), ISSUE_COST - 1), Err(ContractError::InsufficientFunds));
    assert_eq!(
        s.issue_token(&owner, &owner, b("Reward"), b("RWD"), ISSUE_COST).unwrap(),
        vec![Action::IssueAndSetAllRoles {
            kind: TokenKind::Fungible,
            issue_cost: 50_000_000_000_000_000,
            name: b("Reward"),
            ticker: b("RWD"),
            num_decimals: 0,
        }]
    );
    assert_eq!(s.issue_token(&owner, &owner, b("Reward"), b("RWD"), ISSUE_COST), Err(ContractError::TokenAlreadyIssued));
    assert_eq!(s.reward_token_id(), None);
    assert_eq!(s.issue_callback(None), Ok(()));
    assert_eq!(s.issue_callback(Some(b("bad"))), Err(ContractError::InvalidTokenId));
    assert_eq!(s.issue_callback(Some(b("RWD-abcdef"))), Ok(()));
    assert_eq!(s.reward_token_id(), Some(b("RWD-abcdef")));
    assert_eq!(s.issue_callback(Some(b("RWD-abcdef"))), Err(ContractError::TokenIdAlreadySet));
}

#[test]
fn stakes_open_and_grow_positions() {
    let mut s = issued_staking();
    let alice = b("alice");
    assert_eq!(s.stake_token_winter(&alice, &vec![pay("WINTER-abcdef", 10000)], 10, 1000), Ok(()));
    assert_eq!(s.stake_token_winter(&alice, &vec![pay("WINTER-fedcba", 500)], 12, 5000), Ok(()));
    assert_eq!(
        s.staking_position(&alice),
        Some(StakingPosition { stake_amount: 10500, last_claim_timestamp: 1000, stake_epoch: 10, reward_recipient: None })
    );
    assert_eq!(s.stake_token_winter(&alice, &vec![pay("SNOW-abcdef", 1)], 0, 0), Err(ContractError::OnlyWinterTokens));
    assert_eq!(s.stake_token_winter(&alice, &vec![pay("WIN", 1)], 0, 0), Err(ContractError::BadTickerFormat));
    assert_eq!(s.stake_token_winter(&alice, &vec![], 0, 0), Err(ContractError::IncorrectNumberOfTransfers));
}

#[test]
fn rewards_are_one_percent_daily_after_five_epochs() {
    let mut s = issued_staking();
    let alice = b("alice");
    s.stake_token_winter(&alice, &vec![pay("WINTER-abcdef", 10000)], 10, 1000).unwrap();
    assert_eq!(s.claim_rewards(&alice, 14, 100000), Err(ContractError::StakingPeriodNotMet));
    assert_eq!(s.claim_rewards(&alice, 15, 87399), Err(ContractError::ClaimOncePerDay));
    assert_eq!(
        s.claim_rewards(&alice, 15, 87400).unwrap(),
        vec![
            Action::Mint { token_id: b("RWD-abcdef"), nonce: 0, amount: 100 },
            Action::Send { to: alice.clone(), token_id: b("RWD-abcdef"), nonce: 0, amount: 100 },
        ]
    );
    assert_eq!(s.claim_rewards(&alice, 16, 87400 + 86399), Err(ContractError::ClaimOncePerDay));
    assert_eq!(s.set_reward_recipient(&alice, b("bob")), Ok(()));
    assert_eq!(
        s.claim_rewards(&alice, 16, 87400 + 86400).unwrap(),
        vec![
            Action::Mint { token_id: b("RWD-abcdef"), nonce: 0, amount: 100 },
            Action::Send { to: b("bob"), token_id: b("RWD-abcdef"), nonce: 0, amount: 100 },
        ]
    );
}

#[test]
fn claim_refusals_and_zero_rewards() {
    let mut s = issued_staking();
    let alice = b("alice");
    assert_eq!(s.claim_rewards(&alice, 100, 1_000_000), Err(ContractError::NoStakingPosition));
    assert_eq!(s.set_reward_recipient(&alice, b("bob")), Err(ContractError::NoStakingPosition));
    s.stake_token_winter(&alice, &vec![pay("WINTER-abcdef", 50)], 0, 0).unwrap();
    assert_eq!(s.claim_rewards(&alice, 100, 1_000_000), Ok(vec![]));
    assert_eq!(s.staking_position(&alice).unwrap().last_claim_timestamp, 0);
    s.stake_token_winter(&b("carol"), &vec![pay("WINTER-abcdef", 0)], 0, 0).unwrap();
    assert_eq!(s.claim_rewards(&b("carol"), 100, 1_000_000), Err(ContractError::NothingStaked));
    let mut unissued = WinterStaking::init();
    unissued.stake_token_winter(&alice, &vec![pay("WINTER-abcdef", 1000)], 0, 0).unwrap();
    assert_eq!(unissued.claim_rewards(&alice, 100, 1_000_000), Err(ContractError::InvalidTokenId));
}

#[test]
fn snow_issues_with_every_property() {
    let actions = Snow::issue_token(&b("alice"), b("Snow"), b("SNOW"), 1000, 5);
    match &actions[0] {
        Action::IssueFungible { refund_to, issue_cost, name, ticker, initial_supply, properties } => {
            assert_eq!(refund_to, &b("alice"));
            assert_eq!(*issue_cost, 5);
            assert_eq!(name, &b("Snow"));
            assert_eq!(ticker, &b("SNOW"));
            assert_eq!(*initial_supply, 1000);
            assert_eq!(properties.num_decimals, 8);
            assert!(properties.can_burn && properties.can_mint && properties.can_freeze && properties.can_wipe);
            assert!(properties.can_pause && properties.can_change_owner && properties.can_upgrade);
            assert!(properties.can_add_special_roles);
        },
        _ => panic!("expected an issue"),
    }
    assert_eq!(actions.len(), 1);
}

#[test]
fn snow_keeps_balances_per_user() {
    let mut s = Snow::init();
    let alice = b("alice");
    let bob = b("bob");
    assert_eq!(s.issue_callback(&alice, false, &vec![], 5).unwrap(), vec![Action::SendEgld { to: alice.clone(), amount: 5 }]);
    assert_eq!(s.issue_callback(&alice, true, &vec![], 0), Err(ContractError::MissingPayment));
    assert_eq!(s.claim_tokens(&alice), Err(ContractError::NoTokensIssued));
    assert_eq!(s.issue_callback(&alice, true, &vec![pay("SNOW-abcdef", 1000)], 0), Ok(vec![]));
    assert_eq!(s.issue_callback(&alice, true, &vec![pay("HAIL-abcdef", 50)], 0), Ok(vec![]));
    assert_eq!(s.get_tokens(), b("HAIL-abcdef"));
    assert_eq!(s.get_all_users_tokens(&alice), vec![b("SNOW-abcdef"), b("HAIL-abcdef")]);
    assert_eq!(s.get_all_users_tokens(&bob), Vec::<Vec<u8>>::new());
    assert_eq!(s.get_single_token_balance(&alice, &b("SNOW-abcdef")), 1000);
    assert_eq!(s.get_single_token_balance(&bob, &b("SNOW-abcdef")), 0);
    assert_eq!(s.get_all_user_token_balances(&bob, &alice), Err(ContractError::OnlyOwner));
    assert_eq!(
        s.get_all_user_token_balances(&alice, &alice),
        Ok(vec![(b("SNOW-abcdef"), 1000), (b("HAIL-abcdef"), 50)])
    );

    assert_eq!(s.burn_tokens(&alice, &b("SNOW-abcdef"), 1001), Err(ContractError::InsufficientBalance));
    assert_eq!(s.burn_tokens(&bob, &b("SNOW-abcdef"), 1), Err(ContractError::InsufficientBalance));
    assert_eq!(
        s.burn_tokens(&alice, &b("SNOW-abcdef"), 7),
        Ok(vec![Action::Burn { token_id: b("SNOW-abcdef"), nonce: 0, amount: 7 }])
    );
    assert_eq!(s.get_single_token_balance(&alice, &b("SNOW-abcdef")), 993);

    assert_eq!(
        s.claim_user_tokens(&alice, &b("HAIL-abcdef")),
        Ok(vec![Action::Send { to: alice.clone(), token_id: b("HAIL-abcdef"), nonce: 0, amount: 50 }])
    );
    assert_eq!(s.claim_user_tokens(&alice, &b("HAIL-abcdef")), Err(ContractError::NothingToClaim));
    assert_eq!(s.claim_user_tokens(&bob, &b("SNOW-abcdef")), Err(ContractError::NothingToClaim));
    assert_eq!(
        s.claim_tokens(&alice),
        Ok(vec![Action::Send { to: alice.clone(), token_id: b("SNOW-abcdef"), nonce: 0, amount: 993 }])
    );
    assert_eq!(s.claim_tokens(&alice), Ok(vec![]));
    assert_eq!(s.get_all_user_token_balances(&alice, &alice), Ok(vec![(b("SNOW-abcdef"), 0), (b("HAIL-abcdef"), 0)]));
    assert_eq!(s.claim_tokens(&bob), Err(ContractError::NoTokensIssued));
    assert_eq!(s.get_tokens(), b("HAIL-abcdef"));
}
