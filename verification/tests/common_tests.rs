use winter_realm::bytes::{bytes_eq, is_valid_esdt_identifier, starts_with, token_ticker};
use winter_realm::esdt::{tally_resources, ContractError, Payment, TokenSlot};
use winter_realm::store::Store;

fn b(s: &str) -> Vec<u8> {
    s.as_bytes().to_vec()
}

#[test]
fn tickers() {
    assert_eq!(token_ticker(&b("WINTER-abcdef")), Some(b("WINTER")));
    assert_eq!(token_ticker(&b("-bcdef")), None);
    assert_eq!(token_ticker(&b("-abcdef")), Some(b("")));
}

#[test]
fn identifiers() {
    assert!(is_valid_esdt_identifier(&b("WINTER-abc123")));
    assert!(is_valid_esdt_identifier(&b("ABC-000000")));
    assert!(!is_valid_esdt_identifier(&b("AB-000000")));
    assert!(!is_valid_esdt_identifier(&b("winter-abc123")));
    assert!(!is_valid_esdt_identifier(&b("WINTER-ABC123")));
    assert!(!is_valid_esdt_identifier(&b("WINTER_abc123")));
    assert!(!is_valid_esdt_identifier(&b("ABCDEFGHIJK-abc123")));
}

#[test]
fn byte_helpers() {
    assert!(bytes_eq(&b("abc"), &b("abc")));
    assert!(!bytes_eq(&b("abc"), &b("abd")));
    assert!(!bytes_eq(&b("abc"), &b("ab")));
    assert!(starts_with(&b("WOOD-abcdef"), &b("WOOD-")));
    assert!(!starts_with(&b("WOOD"), &b("WOOD-")));
}

#[test]
fn store_keeps_one_value_per_key() {
    let mut s: Store<Vec<u8>, u64> = Store::new();
    s.insert(b("a"), 1);
    s.insert(b("b"), 2);
    s.insert(b("a"), 3);
    assert_eq!(s.len(), 2);
    assert_eq!(s.get(&b("a")), Some(&3));
    assert!(s.contains(&b("b")));
    assert_eq!(s.remove(&b("a")), Some(3));
    assert_eq!(s.remove(&b("a")), None);
    assert_eq!(s.keys(), vec![b("b")]);
}

#[test]
fn token_slot_lifecycle() {
    let mut slot = TokenSlot::NotSet;
    assert!(slot.is_empty());
    assert_eq!(slot.token_id(), Err(ContractError::InvalidTokenId));
    assert_eq!(slot.begin_issue(), Ok(()));
    assert_eq!(slot.begin_issue(), Err(ContractError::IssueAlreadyCalled));
    assert_eq!(slot.set_token_id(b("X-abcdef")), Err(ContractError::InvalidTokenId));
    assert_eq!(slot.set_token_id(b("XYZ-abcdef")), Ok(()));
    assert_eq!(slot.token_id(), Ok(b("XYZ-abcdef")));
    assert_eq!(slot.begin_issue(), Err(ContractError::TokenIdAlreadySet));
}

#[test]
fn tally_counts_in_order() {
    let ps = vec![
        Payment { token_id: b("WOOD-aaaaaa"), nonce: 0, amount: 3 },
        Payment { token_id: b("FOOD-aaaaaa"), nonce: 0, amount: 4 },
        Payment { token_id: b("WOOD-bbbbbb"), nonce: 0, amount: 5 },
        Payment { token_id: b("GOLD-bbbbbb"), nonce: 0, amount: 6 },
    ];
    assert_eq!(tally_resources(&ps, 5, &b("WOOD-"), &b("FOOD-"), false), Ok((8, 4)));
    assert_eq!(tally_resources(&ps, 5, &b("WOOD-"), &b("FOOD-"), true), Err(ContractError::InvalidToken));
}
