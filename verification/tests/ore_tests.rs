use winter_realm::esdt::{Action, ContractError, Payment, TokenKind};
use winter_realm::ore::{Ore, ORE_PER_CLAIM};

fn b(s: &str) -> Vec<u8> {
    s.as_bytes().to_vec()
}

fn pay(id: &str, amount: u128) -> Payment {
    Payment { token_id: b(id), nonce: 0, amount }
}

#[test]
fn issue_asks_for_a_fungible_token() {
    let mut o = Ore::init();
    assert_eq!(
        o.issue_token(b("Ore"), b("ORE"), 9).unwrap(),
        vec![Action::IssueAndSetAllRoles { kind: TokenKind::Fungible, issue_cost: 9, name: b("Ore"), ticker: b("ORE"), num_decimals: 0 }]
    );
    assert_eq!(o.issue_token(b("Ore"), b("ORE"), 9), Err(ContractError::IssueAlreadyCalled));
    assert_eq!(o.ore_token_callback(None), Err(ContractError::TokenIssueFailed));
    assert_eq!(o.ore_token_callback(Some(b("ORE-abc123"))), Ok(()));
    assert_eq!(o.ore_token_id(), b("ORE-abc123"));
}

#[test]
fn stone_becomes_one_ore_the_next_block() {
    let mut o = Ore::init();
    o.ore_token_callback(Some(b("ORE-abc123"))).unwrap();
    let alice = b("alice");
    let actions = o.mint_ore(&alice, &vec![pay("STONE-ssssss", 12), pay("STONE-tttttt", 8)], 5).unwrap();
    assert_eq!(
        actions,
        vec![
            Action::Burn { token_id: b("STONE-ssssss"), nonce: 0, amount: 12 },
            Action::Burn { token_id: b("STONE-tttttt"), nonce: 0, amount: 8 },
        ]
    );
    assert_eq!(o.pending_claim(&alice), Some(6));
    assert_eq!(o.claim_ore(&alice, 5), Err(ContractError::TooEarlyToClaim));
    assert_eq!(ORE_PER_CLAIM, 1);
    assert_eq!(
        o.claim_ore(&alice, 6).unwrap(),
        vec![
            Action::Mint { token_id: b("ORE-abc123"), nonce: 0, amount: 1 },
            Action::Send { to: alice.clone(), token_id: b("ORE-abc123"), nonce: 0, amount: 1 },
        ]
    );
    assert_eq!(o.claim_ore(&alice, 7), Err(ContractError::NoPendingClaim));
}

#[test]
fn stone_paid_in_one_token_is_burned_once() {
    let mut o = Ore::init();
    let payments = vec![
        Payment { token_id: b("STONE-abcdef"), nonce: 0, amount: 10 },
        Payment { token_id: b("STONE-abcdef"), nonce: 0, amount: 10 },
    ];
    assert_eq!(
        o.mint_ore(&b("alice"), &payments, 0).unwrap(),
        vec![Action::Burn { token_id: b("STONE-abcdef"), nonce: 0, amount: 20 }]
    );
}

#[test]
fn mining_refusals() {
    let mut o = Ore::init();
    let alice = b("alice");
    assert_eq!(o.mint_ore(&alice, &vec![pay("STONE-ssssss", 19)], 0), Err(ContractError::NotEnoughStone));
    assert_eq!(o.mint_ore(&alice, &vec![pay("STONE", 20)], 0), Err(ContractError::InvalidTokenIdLength));
    assert_eq!(o.mint_ore(&alice, &vec![pay("WOOD-ssssss", 20)], 0), Err(ContractError::InvalidToken));
    assert_eq!(o.mint_ore(&alice, &vec![pay("STONE-ssssss", 20)], u64::MAX), Err(ContractError::CounterOverflow));
    assert_eq!(o.claim_ore(&alice, 100), Err(ContractError::NoPendingClaim));
}
