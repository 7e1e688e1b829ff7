use winter_realm::citizen::{Citizen, BLOCKS_IN_HOUR};
use winter_realm::esdt::{Action, ContractError, Payment, TokenKind};

fn b(s: &str) -> Vec<u8> {
    s.as_bytes().to_vec()
}

fn pay(id: &str, nonce: u64, amount: u128) -> Payment {
    Payment { token_id: b(id), nonce, amount }
}

fn soldier(defense: u8, attack: u8) -> Vec<u8> {
    b(&format!("rank: soldier\ndefense: {}\nattack: {}", defense, attack))
}

fn issued_citizen() -> Citizen {
    let mut c = Citizen::init();
    assert_eq!(c.citizen_token_callback(Some(b("CITIZEN-abc123"))), Ok(()));
    c
}

#[test]
fn issue_asks_for_a_non_fungible_collection_once() {
    let mut c = Citizen::init();
    let actions = c.issue_citizen_token(b("Citizens"), b("CITIZEN"), 50).unwrap();
    assert_eq!(
        actions,
        vec![Action::IssueAndSetAllRoles {
            kind: TokenKind::NonFungible,
            issue_cost: 50,
            name: b("Citizens"),
            ticker: b("CITIZEN"),
            num_decimals: 0,
        }]
    );
    assert_eq!(c.issue_citizen_token(b("Citizens"), b("CITIZEN"), 50), Err(ContractError::IssueAlreadyCalled));
}

#[test]
fn callback_records_the_collection() {
    let mut c = Citizen::init();
    assert_eq!(c.citizen_token_callback(None), Err(ContractError::TokenIssueFailed));
    assert_eq!(c.next_nonce(), 0);
    assert_eq!(c.citizen_token_callback(Some(b("CITIZEN-abc123"))), Ok(()));
    assert_eq!(c.citizen_token_id(), b("CITIZEN-abc123"));
    assert_eq!(c.next_nonce(), 1);
}

#[test]
fn mint_burns_wood_and_food_and_starts_the_timer() {
    let mut c = issued_citizen();
    let payments = vec![pay("WOOD-aaaaaa", 0, 6), pay("WOOD-bbbbbb", 0, 4), pay("FOOD-cccccc", 0, 15)];
    let actions = c.mint_citizen(&b("alice"), &payments, 100).unwrap();
    assert_eq!(
        actions,
        vec![
            Action::Burn { token_id: b("WOOD-aaaaaa"), nonce: 0, amount: 6 },
            Action::Burn { token_id: b("WOOD-bbbbbb"), nonce: 0, amount: 4 },
            Action::Burn { token_id: b("FOOD-cccccc"), nonce: 0, amount: 15 },
        ]
    );
    assert_eq!(c.pending_claim(&b("alice")), Some(100 + BLOCKS_IN_HOUR));
    assert_eq!(c.pending_claim(&b("bob")), None);
}

#[test]
fn mint_burns_each_resource_once() {
    let mut c = issued_citizen();
    let payments = vec![pay("FOOD-cccccc", 0, 5), pay("WOOD-aaaaaa", 0, 6), pay("FOOD-cccccc", 0, 10), pay("WOOD-aaaaaa", 0, 4)];
    assert_eq!(
        c.mint_citizen(&b("alice"), &payments, 0).unwrap(),
        vec![
            Action::Burn { token_id: b("WOOD-aaaaaa"), nonce: 0, amount: 10 },
            Action::Burn { token_id: b("FOOD-cccccc"), nonce: 0, amount: 15 },
        ]
    );
}

#[test]
fn mint_refusals() {
    let mut c = issued_citizen();
    let alice = b("alice");
    assert_eq!(
        c.mint_citizen(&alice, &vec![pay("WOOD-aaaaaa", 0, 9), pay("FOOD-cccccc", 0, 15)], 1),
        Err(ContractError::NotEnoughWood)
    );
    assert_eq!(
        c.mint_citizen(&alice, &vec![pay("WOOD-aaaaaa", 0, 10), pay("FOOD-cccccc", 0, 14)], 1),
        Err(ContractError::NotEnoughFood)
    );
    assert_eq!(
        c.mint_citizen(&alice, &vec![pay("WOOD-aaaaaa", 0, 10), pay("STONE-cccccc", 0, 15)], 1),
        Err(ContractError::InvalidToken)
    );
    assert_eq!(c.mint_citizen(&alice, &vec![pay("WOO", 0, 10)], 1), Err(ContractError::InvalidTokenIdLength));
    assert_eq!(
        c.mint_citizen(&alice, &vec![pay("WOOD-aaaaaa", 0, u128::MAX), pay("WOOD-aaaaaa", 0, 1)], 1),
        Err(ContractError::AmountOverflow)
    );
    assert_eq!(
        c.mint_citizen(&alice, &vec![pay("WOOD-aaaaaa", 0, 10), pay("FOOD-cccccc", 0, 15)], u64::MAX),
        Err(ContractError::CounterOverflow)
    );
    assert_eq!(c.pending_claim(&alice), None);
}

#[test]
fn claim_waits_for_the_timer() {
    let mut c = issued_citizen();
    let alice = b("alice");
    c.mint_citizen(&alice, &vec![pay("WOOD-aaaaaa", 0, 10), pay("FOOD-cccccc", 0, 15)], 100).unwrap();
    assert_eq!(c.claim_citizen(&alice, 100 + BLOCKS_IN_HOUR - 1), Err(ContractError::TooEarlyToClaim));
    let actions = c.claim_citizen(&alice, 100 + BLOCKS_IN_HOUR).unwrap();
    assert_eq!(
        actions,
        vec![
            Action::CreateNft { token_id: b("CITIZEN-abc123"), amount: 1, name: b("CITIZEN") },
            Action::Send { to: alice.clone(), token_id: b("CITIZEN-abc123"), nonce: 1, amount: 1 },
        ]
    );
    assert_eq!(c.next_nonce(), 2);
    assert_eq!(c.pending_claim(&alice), None);
    assert_eq!(c.claim_citizen(&alice, 100 + BLOCKS_IN_HOUR), Err(ContractError::NoPendingClaim));
}

#[test]
fn claim_without_paying_is_refused() {
    let mut c = issued_citizen();
    assert_eq!(c.claim_citizen(&b("mallory"), 5000), Err(ContractError::NoPendingClaim));
    assert_eq!(c.next_nonce(), 1);
}

#[test]
fn nonces_follow_the_citizens_created() {
    let mut c = issued_citizen();
    for (i, who) in ["alice", "bob", "carol"].iter().enumerate() {
        let caller = b(who);
        c.mint_citizen(&caller, &vec![pay("WOOD-aaaaaa", 0, 10), pay("FOOD-cccccc", 0, 15)], 0).unwrap();
        let actions = c.claim_citizen(&caller, BLOCKS_IN_HOUR).unwrap();
        assert_eq!(actions[1], Action::Send { to: caller, token_id: b("CITIZEN-abc123"), nonce: i as u64 + 1, amount: 1 });
        assert_eq!(c.next_nonce(), i as u64 + 2);
    }
}

#[test]
fn upgrade_turns_a_citizen_into_a_soldier() {
    let c = issued_citizen();
    let payments = vec![pay("CITIZEN-abc123", 3, 1), pay("GOLD-gggggg", 0, 5), pay("ORE-oooooo", 0, 7)];
    let actions = c.upgrade_citizen(&b("alice"), &payments).unwrap();
    let split = vec![pay("GOLD-gggggg", 0, 2), pay("ORE-oooooo", 0, 7), pay("GOLD-hhhhhh", 0, 3)];
    assert_eq!(
        Citizen::burn_upgrade_resources(&split),
        vec![
            Action::Burn { token_id: b("GOLD-gggggg"), nonce: 0, amount: 2 },
            Action::Burn { token_id: b("GOLD-hhhhhh"), nonce: 0, amount: 3 },
            Action::Burn { token_id: b("ORE-oooooo"), nonce: 0, amount: 7 },
        ]
    );
    let repeated = vec![pay("GOLD-gggggg", 0, 2), pay("ORE-oooooo", 0, 4), pay("GOLD-gggggg", 0, 3), pay("ORE-oooooo", 0, 1)];
    assert_eq!(
        Citizen::burn_upgrade_resources(&repeated),
        vec![
            Action::Burn { token_id: b("GOLD-gggggg"), nonce: 0, amount: 5 },
            Action::Burn { token_id: b("ORE-oooooo"), nonce: 0, amount: 5 },
        ]
    );
    assert_eq!(
        actions,
        vec![
            Action::Burn { token_id: b("GOLD-gggggg"), nonce: 0, amount: 5 },
            Action::Burn { token_id: b("ORE-oooooo"), nonce: 0, amount: 7 },
            Action::UpdateAttributes { token_id: b("CITIZEN-abc123"), nonce: 3, attributes: soldier(0, 0) },
            Action::Send { to: b("alice"), token_id: b("CITIZEN-abc123"), nonce: 3, amount: 1 },
        ]
    );
}

#[test]
fn upgrade_refusals() {
    let c = issued_citizen();
    let alice = b("alice");
    assert_eq!(
        c.upgrade_citizen(&alice, &vec![pay("CITIZEN-abc123", 3, 1), pay("GOLD-gggggg", 0, 5)]),
        Err(ContractError::ExpectedThreeTokens)
    );
    assert_eq!(
        c.upgrade_citizen(&alice, &vec![pay("CITIZEN-zzzzzz", 3, 1), pay("GOLD-gggggg", 0, 5), pay("ORE-oooooo", 0, 5)]),
        Err(ContractError::InvalidCitizenNft)
    );
    assert_eq!(
        c.upgrade_citizen(&alice, &vec![pay("CITIZEN-abc123", 3, 1), pay("GOLD-gggggg", 0, 4), pay("ORE-oooooo", 0, 5)]),
        Err(ContractError::NotEnoughGold)
    );
    assert_eq!(
        c.upgrade_citizen(&alice, &vec![pay("CITIZEN-abc123", 3, 1), pay("GOLD-gggggg", 0, 5), pay("WOOD-oooooo", 0, 5)]),
        Err(ContractError::NotEnoughOre)
    );
}

#[test]
fn shields_raise_defense_by_one() {
    let c = issued_citizen();
    let alice = b("alice");
    let payments = vec![pay("CITIZEN-abc123", 3, 1), pay("TOOL-tttttt", 1, 1)];
    let shield = b("SHIELD");
    for (d, a) in [(0u8, 0u8), (1, 0), (2, 0), (9, 4), (99, 1), (254, 7)] {
        assert_eq!(
            c.equip_shield(&alice, &payments, &soldier(d, a), &shield).unwrap(),
            vec![
                Action::UpdateAttributes { token_id: b("CITIZEN-abc123"), nonce: 3, attributes: soldier(d + 1, a) },
                Action::Send { to: alice.clone(), token_id: b("CITIZEN-abc123"), nonce: 3, amount: 1 },
            ]
        );
    }
    let back = || Action::Send { to: alice.clone(), token_id: b("CITIZEN-abc123"), nonce: 3, amount: 1 };
    assert_eq!(c.equip_shield(&alice, &payments, &soldier(255, 0), &shield).unwrap(), vec![back()]);
    assert_eq!(c.equip_shield(&alice, &payments, &b("rank: soldier\ndefense: 07\nattack: 0"), &shield).unwrap(), vec![back()]);
}

#[test]
fn swords_raise_attack_by_one() {
    let c = issued_citizen();
    let alice = b("alice");
    let payments = vec![pay("CITIZEN-abc123", 3, 1), pay("TOOL-tttttt", 2, 1)];
    let sword = b("SWORD");
    for (d, a) in [(0u8, 0u8), (0, 1), (1, 0), (3, 9), (0, 199)] {
        assert_eq!(
            c.equip_sword(&alice, &payments, &soldier(d, a), &sword).unwrap(),
            vec![
                Action::UpdateAttributes { token_id: b("CITIZEN-abc123"), nonce: 3, attributes: soldier(d, a + 1) },
                Action::Send { to: alice.clone(), token_id: b("CITIZEN-abc123"), nonce: 3, amount: 1 },
            ]
        );
    }
    assert_eq!(
        c.equip_sword(&alice, &payments, &soldier(1, 255), &sword).unwrap(),
        vec![Action::Send { to: alice.clone(), token_id: b("CITIZEN-abc123"), nonce: 3, amount: 1 }]
    );
}

#[test]
fn equip_refusals() {
    let c = issued_citizen();
    let alice = b("alice");
    let soldier_attrs = soldier(0, 0);
    let shield = b("SHIELD");
    let sword = b("SWORD");
    assert_eq!(
        c.equip_shield(&alice, &vec![pay("CITIZEN-abc123", 3, 1)], &soldier_attrs, &shield),
        Err(ContractError::ExpectedTwoTokens)
    );
    assert_eq!(
        c.equip_shield(&alice, &vec![pay("CITIZEN-zzzzzz", 3, 1), pay("TOOL-tttttt", 1, 1)], &soldier_attrs, &shield),
        Err(ContractError::InvalidCitizenNft)
    );
    assert_eq!(
        c.equip_shield(&alice, &vec![pay("CITIZEN-abc123", 3, 1), pay("TOOL-tttttt", 1, 1)], &b("CITIZEN"), &shield),
        Err(ContractError::CharacterNotSoldier)
    );
    assert_eq!(
        c.equip_sword(&alice, &vec![pay("CITIZEN-abc123", 3, 1), pay("WOOD-tttttt", 1, 1)], &soldier_attrs, &sword),
        Err(ContractError::InvalidToolNft)
    );
    assert_eq!(
        c.equip_sword(&alice, &vec![pay("CITIZEN-abc123", 3, 1), pay("TO", 1, 1)], &soldier_attrs, &sword),
        Err(ContractError::SliceOutOfRange)
    );
    assert_eq!(
        c.equip_shield(&alice, &vec![pay("CITIZEN-abc123", 3, 1), pay("TOOL-tttttt", 1, 1)], &soldier_attrs, &sword),
        Err(ContractError::InvalidToolNft)
    );
    assert_eq!(
        c.equip_sword(&alice, &vec![pay("CITIZEN-abc123", 3, 1), pay("TOOL-tttttt", 1, 1)], &soldier_attrs, &shield),
        Err(ContractError::InvalidToolNft)
    );
}
