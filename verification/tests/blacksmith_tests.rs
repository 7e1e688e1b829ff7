use winter_realm::blacksmith::{Blacksmith, PendingTool, Tool, BLOCKS_IN_HOUR};
use winter_realm::esdt::{Action, ContractError, Payment, TokenKind};

fn b(s: &str) -> Vec<u8> {
    s.as_bytes().to_vec()
}

fn pay(id: &str, amount: u128) -> Payment {
    Payment { token_id: b(id), nonce: 0, amount }
}

fn issued_blacksmith() -> Blacksmith {
    let mut s = Blacksmith::init();
    assert!(s.issue_tool_token(b("Tools"), b("TOOL"), 5).is_ok());
    assert_eq!(s.tool_token_callback(Some(b("TOOL-abc123"))), Ok(()));
    s
}

#[test]
fn issue_asks_for_the_tool_collection_once() {
    let mut s = Blacksmith::init();
    assert_eq!(
        s.issue_tool_token(b("Tools"), b("TOOL"), 5).unwrap(),
        vec![Action::IssueAndSetAllRoles {
            kind: TokenKind::NonFungible,
            issue_cost: 5,
            name: b("Tools"),
            ticker: b("TOOL"),
            num_decimals: 0,
        }]
    );
    assert_eq!(s.issue_tool_token(b("Tools"), b("TOOL"), 5), Err(ContractError::IssueAlreadyCalled));
    assert_eq!(s.tool_token_callback(None), Err(ContractError::TokenIssueFailed));
}

#[test]
fn shield_is_forged_from_ore_and_claimed_later() {
    let mut s = issued_blacksmith();
    let alice = b("alice");
    let actions = s.mint_shield(&alice, &vec![pay("ORE-oooooo", 1), pay("ORE-pppppp", 1)], 10).unwrap();
    assert_eq!(
        actions,
        vec![
            Action::Burn { token_id: b("ORE-oooooo"), nonce: 0, amount: 1 },
            Action::Burn { token_id: b("ORE-pppppp"), nonce: 0, amount: 1 },
        ]
    );
    assert_eq!(s.pending_claim(&alice), Some(PendingTool { claim_block: 10 + BLOCKS_IN_HOUR, tool: Tool::Shield }));
    assert_eq!(s.claim_sword(&alice, 10 + BLOCKS_IN_HOUR), Err(ContractError::NoPendingClaim));
    assert_eq!(s.claim_shield(&alice, 10 + BLOCKS_IN_HOUR - 1), Err(ContractError::TooEarlyToClaim));
    assert_eq!(
        s.claim_shield(&alice, 10 + BLOCKS_IN_HOUR).unwrap(),
        vec![
            Action::CreateNft { token_id: b("TOOL-abc123"), amount: 1, name: b("SHIELD") },
            Action::Send { to: alice.clone(), token_id: b("TOOL-abc123"), nonce: 1, amount: 1 },
        ]
    );
    assert_eq!(s.next_nonce(), 2);
    assert_eq!(s.pending_claim(&alice), None);
    assert_eq!(s.claim_shield(&alice, 10 + BLOCKS_IN_HOUR), Err(ContractError::NoPendingClaim));
}

#[test]
fn claims_need_a_matching_order() {
    let mut s = issued_blacksmith();
    let alice = b("alice");
    assert_eq!(s.claim_sword(&alice, 5000), Err(ContractError::NoPendingClaim));
    assert_eq!(s.claim_shield(&alice, 5000), Err(ContractError::NoPendingClaim));
    s.mint_sword(&alice, &vec![pay("GOLD-gggggg", 1), pay("ORE-oooooo", 3)], 0).unwrap();
    assert_eq!(s.claim_shield(&alice, BLOCKS_IN_HOUR), Err(ContractError::NoPendingClaim));
    s.mint_shield(&alice, &vec![pay("ORE-oooooo", 2)], 1).unwrap();
    assert_eq!(s.claim_sword(&alice, BLOCKS_IN_HOUR + 1), Err(ContractError::NoPendingClaim));
    assert!(s.claim_shield(&alice, BLOCKS_IN_HOUR + 1).is_ok());
    assert_eq!(s.next_nonce(), 2);
}

#[test]
fn sword_is_forged_from_gold_and_ore() {
    let mut s = issued_blacksmith();
    let alice = b("alice");
    let actions = s.mint_sword(&alice, &vec![pay("ORE-oooooo", 2), pay("GOLD-gggggg", 1), pay("ORE-qqqqqq", 1)], 0).unwrap();
    assert_eq!(
        actions,
        vec![
            Action::Burn { token_id: b("GOLD-gggggg"), nonce: 0, amount: 1 },
            Action::Burn { token_id: b("ORE-oooooo"), nonce: 0, amount: 2 },
            Action::Burn { token_id: b("ORE-qqqqqq"), nonce: 0, amount: 1 },
        ]
    );
    assert_eq!(
        s.claim_sword(&alice, BLOCKS_IN_HOUR).unwrap(),
        vec![
            Action::CreateNft { token_id: b("TOOL-abc123"), amount: 1, name: b("SWORD") },
            Action::Send { to: alice.clone(), token_id: b("TOOL-abc123"), nonce: 1, amount: 1 },
        ]
    );
}

#[test]
fn a_resource_paid_in_one_token_is_burned_once() {
    let mut s = issued_blacksmith();
    let alice = b("alice");
    let payments = vec![pay("GOLD-abcdef", 1), pay("GOLD-abcdef", 1), pay("ORE-abcdef", 3)];
    assert_eq!(
        s.mint_sword(&alice, &payments, 0).unwrap(),
        vec![
            Action::Burn { token_id: b("GOLD-abcdef"), nonce: 0, amount: 2 },
            Action::Burn { token_id: b("ORE-abcdef"), nonce: 0, amount: 3 },
        ]
    );
    let shield = vec![pay("ORE-abcdef", 1), pay("ORE-abcdef", 1)];
    assert_eq!(
        s.mint_shield(&b("bob"), &shield, 0).unwrap(),
        vec![Action::Burn { token_id: b("ORE-abcdef"), nonce: 0, amount: 2 }]
    );
}

#[test]
fn forging_refusals() {
    let mut s = issued_blacksmith();
    let alice = b("alice");
    assert_eq!(s.mint_shield(&alice, &vec![pay("ORE-oooooo", 1)], 0), Err(ContractError::NotEnoughOre));
    assert_eq!(s.mint_shield(&alice, &vec![pay("GOLD-oooooo", 5)], 0), Err(ContractError::InvalidToken));
    assert_eq!(s.mint_shield(&alice, &vec![pay("ORE", 5)], 0), Err(ContractError::InvalidTokenIdLength));
    assert_eq!(s.mint_sword(&alice, &vec![pay("ORE-oooooo", 3)], 0), Err(ContractError::NotEnoughGold));
    assert_eq!(
        s.mint_sword(&alice, &vec![pay("GOLD-gggggg", 1), pay("ORE-oooooo", 2)], 0),
        Err(ContractError::NotEnoughOre)
    );
    assert_eq!(
        s.mint_sword(&alice, &vec![pay("GOLD-gggggg", 1), pay("WOOD-oooooo", 3)], 0),
        Err(ContractError::InvalidToken)
    );
    assert_eq!(
        s.mint_sword(&alice, &vec![pay("GOLD-gggggg", 1), pay("ORE-oooooo", 3)], u64::MAX),
        Err(ContractError::CounterOverflow)
    );
    assert_eq!(s.pending_claim(&alice), None);
}
