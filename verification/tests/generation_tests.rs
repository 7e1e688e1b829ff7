use winter_realm::esdt::{Action, ContractError, Payment, TokenKind};
use winter_realm::food::Food;
use winter_realm::resource::{Resource, ResourceConfig};
use winter_realm::wood::Wood;

fn b(s: &str) -> Vec<u8> {
    s.as_bytes().to_vec()
}

fn pay(id: &str, amount: u128) -> Payment {
    Payment { token_id: b(id), nonce: 0, amount }
}

#[test]
fn food_generates_per_period_of_1200_rounds() {
    let mut f = Food::init();
    let alice = b("alice");
    assert_eq!(f.token_id(), b("FOOD"));
    assert_eq!(f.stake_winter(&alice, &vec![pay("WINTER-abcdef", 2500)], 100), Ok(()));
    assert_eq!(f.stake_amount(&alice), 2500);
    assert_eq!(f.last_claim_round(&alice), 100);
    assert_eq!(f.generate_resources(&alice, 1299), Err(ContractError::NotEnoughRoundsPassed));
    assert_eq!(f.generate_resources(&alice, 2500), Ok(()));
    assert_eq!(f.pending_resources(&alice), 4);
    assert_eq!(f.last_claim_round(&alice), 2500);
    assert_eq!(
        f.claim_resources(&alice).unwrap(),
        vec![
            Action::Mint { token_id: b("FOOD"), nonce: 0, amount: 4 },
            Action::Send { to: alice.clone(), token_id: b("FOOD"), nonce: 0, amount: 4 },
        ]
    );
    assert_eq!(f.claim_resources(&alice), Err(ContractError::NoResourcesToClaim));
}

#[test]
fn food_refusals() {
    let mut f = Food::init();
    let alice = b("alice");
    assert_eq!(f.stake_winter(&alice, &vec![pay("WINTER-abcdef", 999)], 0), Err(ContractError::MinimumStakeNotMet));
    assert_eq!(
        f.stake_winter(&alice, &vec![pay("WINTER-abcdef", 1000), pay("WINTER-abcdef", 1000)], 0),
        Err(ContractError::IncorrectNumberOfTransfers)
    );
    assert_eq!(f.stake_winter(&alice, &vec![], 0), Err(ContractError::IncorrectNumberOfTransfers));
    assert_eq!(f.generate_resources(&alice, 5000), Err(ContractError::NoStakeFound));
    assert_eq!(f.stake_amount(&alice), 0);
}

#[test]
fn a_new_stake_replaces_the_old_one() {
    let mut f = Food::init();
    let alice = b("alice");
    f.stake_winter(&alice, &vec![pay("WINTER-abcdef", 5000)], 0).unwrap();
    f.stake_winter(&alice, &vec![pay("WINTER-abcdef", 1000)], 10).unwrap();
    assert_eq!(f.stake_amount(&alice), 1000);
    assert_eq!(f.last_claim_round(&alice), 10);
}

#[test]
fn wood_generates_twenty_per_thousand() {
    let mut w = Wood::init();
    let alice = b("alice");
    assert_eq!(w.token_id(), b("WOOD"));
    w.stake_winter(&alice, &vec![pay("WINTER-abcdef", 2000)], 3).unwrap();
    assert_eq!(w.generate_resources(&alice, 4), Ok(()));
    assert_eq!(w.pending_resources(&alice), 40);
    assert_eq!(w.last_claim_round(&alice), 4);
    assert_eq!(
        w.claim_resources(&alice).unwrap(),
        vec![
            Action::Mint { token_id: b("WOOD"), nonce: 0, amount: 40 },
            Action::Send { to: alice.clone(), token_id: b("WOOD"), nonce: 0, amount: 40 },
        ]
    );
    assert_eq!(w.claim_resources(&alice), Err(ContractError::NoResourcesToClaim));
    assert_eq!(w.generate_resources(&b("bob"), 4), Err(ContractError::NoStakeFound));
}

#[test]
fn wood_token_can_be_issued() {
    let mut w = Wood::init();
    assert_eq!(
        w.issue_token(b("Wood"), b("WOOD"), 3).unwrap(),
        vec![Action::IssueAndSetAllRoles { kind: TokenKind::Fungible, issue_cost: 3, name: b("Wood"), ticker: b("WOOD"), num_decimals: 0 }]
    );
    assert_eq!(w.issue_token(b("Wood"), b("WOOD"), 3), Err(ContractError::IssueAlreadyCalled));
    assert_eq!(w.wood_token_callback(None), Err(ContractError::TokenIssueFailed));
    assert_eq!(w.wood_token_callback(Some(b("WOOD-abc123"))), Ok(()));
    assert_eq!(w.token_id(), b("WOOD-abc123"));
}

fn resource_with_food() -> Resource {
    let mut r = Resource::init();
    let (actions, rounds) = r.issue_token(&b("FOOD"), b("Food"), b("FOOD"), 7).unwrap();
    assert_eq!(rounds, 1200);
    assert_eq!(
        actions,
        vec![Action::IssueAndSetAllRoles { kind: TokenKind::Fungible, issue_cost: 7, name: b("Food"), ticker: b("FOOD"), num_decimals: 0 }]
    );
    assert_eq!(r.token_callback(&b("FOOD"), rounds, Some(b("FOOD-abcdef"))), Ok(()));
    r
}

#[test]
fn resource_rates() {
    assert_eq!(Resource::rounds_required_for(&b("WOOD")), Some(600));
    assert_eq!(Resource::rounds_required_for(&b("FOOD")), Some(1200));
    assert_eq!(Resource::rounds_required_for(&b("STONE")), Some(1800));
    assert_eq!(Resource::rounds_required_for(&b("GOLD")), Some(2400));
    assert_eq!(Resource::rounds_required_for(&b("IRON")), None);
}

#[test]
fn resource_types_are_issued_once() {
    let mut r = resource_with_food();
    assert_eq!(r.resource_config(&b("FOOD")), Some(ResourceConfig { token_id: b("FOOD-abcdef"), rounds_required: 1200 }));
    assert_eq!(r.issue_token(&b("FOOD"), b("Food"), b("FOOD"), 7), Err(ContractError::ResourceTypeExists));
    let (_, rounds) = r.issue_token(&b("WOOD"), b("Wood"), b("WOOD"), 7).unwrap();
    assert_eq!(rounds, 600);
    assert_eq!(r.issue_token(&b("WOOD"), b("Wood"), b("WOOD"), 7), Err(ContractError::IssueAlreadyCalled));
    assert!(r.issue_token(&b("STONE"), b("Stone"), b("STONE"), 7).is_ok());
    assert!(r.issue_token(&b("GOLD"), b("Gold"), b("GOLD"), 7).is_ok());
    assert_eq!(r.issue_token(&b("GOLD"), b("Gold"), b("GOLD"), 7), Err(ContractError::IssueAlreadyCalled));
    let mut fresh = Resource::init();
    assert_eq!(fresh.issue_token(&b("IRON"), b("Iron"), b("IRON"), 7), Err(ContractError::InvalidResourceType));
    assert_eq!(fresh.token_callback(&b("IRON"), 1, None), Err(ContractError::TokenIssueFailed));
    assert_eq!(fresh.resource_config(&b("IRON")), None);
}

#[test]
fn resources_generate_per_period_and_are_claimed() {
    let mut r = resource_with_food();
    let alice = b("alice");
    r.stake_winter(&alice, &vec![pay("WINTER-abcdef", 2000)], 0).unwrap();
    assert_eq!(r.generate_resources(&alice, &b("FOOD"), 2400), Ok(()));
    assert_eq!(r.pending_resources(&alice, &b("FOOD")), 4);
    assert_eq!(r.last_claim_round(&alice), 2400);
    assert_eq!(
        r.claim_resources(&alice, &b("FOOD")).unwrap(),
        vec![
            Action::Mint { token_id: b("FOOD-abcdef"), nonce: 0, amount: 4 },
            Action::Send { to: alice.clone(), token_id: b("FOOD-abcdef"), nonce: 0, amount: 4 },
        ]
    );
    assert_eq!(r.claim_resources(&alice, &b("FOOD")), Err(ContractError::NoResourcesToClaim));
    assert_eq!(r.generate_resources(&alice, &b("FOOD"), 2500), Ok(()));
    assert_eq!(r.pending_resources(&alice, &b("FOOD")), 0);
    assert_eq!(r.last_claim_round(&alice), 2400);
}

#[test]
fn double_stake_doubles_generation() {
    let mut r = resource_with_food();
    r.stake_winter(&b("alice"), &vec![pay("WINTER-abcdef", 1000)], 0).unwrap();
    r.stake_winter(&b("bob"), &vec![pay("WINTER-abcdef", 2000)], 0).unwrap();
    r.generate_resources(&b("alice"), &b("FOOD"), 3600).unwrap();
    r.generate_resources(&b("bob"), &b("FOOD"), 3600).unwrap();
    assert_eq!(r.pending_resources(&b("alice"), &b("FOOD")), 3);
    assert_eq!(r.pending_resources(&b("bob"), &b("FOOD")), 6);
}

#[test]
fn resource_refusals() {
    let mut r = resource_with_food();
    let alice = b("alice");
    assert_eq!(r.generate_resources(&alice, &b("FOOD"), 5000), Err(ContractError::NoStakeFound));
    r.stake_winter(&alice, &vec![pay("WINTER-abcdef", 1000)], 0).unwrap();
    assert_eq!(r.generate_resources(&alice, &b("GOLD"), 5000), Err(ContractError::ResourceConfigMissing));
    assert_eq!(r.claim_resources(&alice, &b("FOOD")), Err(ContractError::NoResourcesToClaim));
    assert_eq!(r.stake_winter(&alice, &vec![pay("WINTER-abcdef", 10)], 0), Err(ContractError::MinimumStakeNotMet));
}

#[test]
fn only_winter_can_be_staked() {
    let mut r = resource_with_food();
    let alice = b("alice");
    assert_eq!(r.stake_winter(&alice, &vec![pay("WOOD-abcdef", 1000)], 0), Err(ContractError::OnlyWinterTokens));
    assert_eq!(r.stake_winter(&alice, &vec![pay("WINTERS-abcdef", 1000)], 0), Err(ContractError::OnlyWinterTokens));
    assert_eq!(r.stake_winter(&alice, &vec![pay("WINT", 1000)], 0), Err(ContractError::BadTickerFormat));
    assert_eq!(r.stake_amount(&alice), 0);
    assert_eq!(r.stake_winter(&alice, &vec![pay("WINTER-abcdef", 1000)], 0), Ok(()));
    assert_eq!(r.stake_amount(&alice), 1000);
}
