use winter_realm::arena::{Arena, ArenaGame};
use winter_realm::citizen::Citizen;
use winter_realm::esdt::{Action, ContractError, Payment};

fn b(s: &str) -> Vec<u8> {
    s.as_bytes().to_vec()
}

fn pay(id: &str, nonce: u64, amount: u128) -> Payment {
    Payment { token_id: b(id), nonce, amount }
}

fn soldier(defense: u8, attack: u8) -> Vec<u8> {
    b(&format!("rank: soldier\ndefense: {}\nattack: {}", defense, attack))
}

fn open_game(arena: &mut Arena, fee: u128) {
    let payments = vec![pay("CITIZEN-abc123", 5, 1), pay("EGLD-000000", 0, fee)];
    assert_eq!(arena.create_game(&b("alice"), &payments, &soldier(2, 0)), Ok(()));
}

#[test]
fn init_starts_ids_at_one() {
    let arena = Arena::init();
    assert_eq!(arena.get_next_game_id(), 1);
    assert_eq!(arena.get_game(1), None);
}

#[test]
fn create_game_stores_the_game() {
    let mut arena = Arena::init();
    open_game(&mut arena, 100);
    assert_eq!(arena.get_next_game_id(), 2);
    assert_eq!(
        arena.get_game(1),
        Some(ArenaGame {
            initiator: b("alice"),
            initiator_soldier: pay("CITIZEN-abc123", 5, 1),
            entrance_fee: 100,
            competitor: None,
            competitor_soldier: None,
        })
    );
    open_game(&mut arena, 7);
    assert_eq!(arena.get_next_game_id(), 3);
    assert_eq!(arena.get_game(2).unwrap().entrance_fee, 7);
}

#[test]
fn create_game_refusals() {
    let mut arena = Arena::init();
    assert_eq!(arena.create_game(&b("alice"), &vec![], &soldier(0, 0)), Err(ContractError::MissingPayment));
    let two = vec![pay("CITIZEN-abc123", 5, 1), pay("EGLD-000000", 0, 10)];
    assert_eq!(arena.create_game(&b("alice"), &two, &b("CITIZEN")), Err(ContractError::NotSoldier));
    let one = vec![pay("CITIZEN-abc123", 5, 1)];
    assert_eq!(arena.create_game(&b("alice"), &one, &soldier(0, 0)), Err(ContractError::MissingEntranceFee));
    let wood_fee = vec![pay("CITIZEN-abc123", 5, 1), pay("WOOD-abcdef", 0, 10)];
    assert_eq!(arena.create_game(&b("alice"), &wood_fee, &soldier(0, 0)), Err(ContractError::EntranceFeeNotEgld));
    assert_eq!(arena.get_next_game_id(), 1);
    assert_eq!(arena.get_game(1), None);
}

#[test]
fn join_game_initiator_wins_below_chance() {
    let mut arena = Arena::init();
    open_game(&mut arena, 100);
    let payments = vec![pay("CITIZEN-abc123", 7, 1), pay("EGLD-000000", 0, 100)];
    // powers 2 against 0: the initiator's chance is 52; 1051 % 100 = 51 < 52
    let actions = arena.join_game(1, &b("bob"), &payments, &soldier(0, 0), &soldier(2, 0), 1051).unwrap();
    assert_eq!(
        actions,
        vec![
            Action::Send { to: b("alice"), token_id: b("CITIZEN-abc123"), nonce: 5, amount: 1 },
            Action::SendEgld { to: b("alice"), amount: 100 },
            Action::SendEgld { to: b("alice"), amount: 100 },
            Action::Burn { token_id: b("CITIZEN-abc123"), nonce: 7, amount: 1 },
        ]
    );
    assert_eq!(arena.get_game(1), None);
    assert_eq!(arena.get_next_game_id(), 2);
}

#[test]
fn join_game_competitor_wins_at_chance() {
    let mut arena = Arena::init();
    open_game(&mut arena, 100);
    let payments = vec![pay("CITIZEN-abc123", 7, 1), pay("EGLD-000000", 0, 100)];
    let actions = arena.join_game(1, &b("bob"), &payments, &soldier(0, 0), &soldier(2, 0), 1052).unwrap();
    assert_eq!(
        actions,
        vec![
            Action::Send { to: b("bob"), token_id: b("CITIZEN-abc123"), nonce: 7, amount: 1 },
            Action::SendEgld { to: b("bob"), amount: 100 },
            Action::SendEgld { to: b("bob"), amount: 100 },
            Action::Burn { token_id: b("CITIZEN-abc123"), nonce: 5, amount: 1 },
        ]
    );
}

#[test]
fn join_game_refusals() {
    let mut arena = Arena::init();
    open_game(&mut arena, 100);
    let good = vec![pay("CITIZEN-abc123", 7, 1), pay("EGLD-000000", 0, 100)];
    let cheap = vec![pay("CITIZEN-abc123", 7, 1), pay("EGLD-000000", 0, 99)];
    assert_eq!(arena.join_game(9, &b("bob"), &good, &soldier(0, 0), &b(""), 0), Err(ContractError::GameNotFound));
    assert_eq!(
        arena.join_game(1, &b("bob"), &cheap, &soldier(0, 0), &soldier(2, 0), 0),
        Err(ContractError::InvalidEntranceFee)
    );
    assert_eq!(arena.join_game(1, &b("bob"), &good, &b("rank: citizen"), &soldier(2, 0), 0), Err(ContractError::NotSoldier));
    assert_eq!(arena.join_game(1, &b("bob"), &vec![], &soldier(0, 0), &soldier(2, 0), 0), Err(ContractError::MissingPayment));
    assert_eq!(
        arena.join_game(1, &b("bob"), &vec![pay("CITIZEN-abc123", 7, 1)], &soldier(0, 0), &soldier(2, 0), 0),
        Err(ContractError::MissingEntranceFee)
    );
    let wood_fee = vec![pay("CITIZEN-abc123", 7, 1), pay("WOOD-abcdef", 0, 100)];
    assert_eq!(
        arena.join_game(1, &b("bob"), &wood_fee, &soldier(0, 0), &soldier(2, 0), 0),
        Err(ContractError::EntranceFeeNotEgld)
    );
    assert!(arena.get_game(1).is_some());
}

#[test]
fn total_power_is_defense_plus_attack() {
    assert_eq!(Arena::get_total_power(&soldier(2, 1)), 3);
    assert_eq!(Arena::get_total_power(&soldier(0, 2)), 2);
    assert_eq!(Arena::get_total_power(&soldier(0, 0)), 0);
    assert_eq!(Arena::get_total_power(&soldier(12, 255)), 267);
    assert_eq!(Arena::get_total_power(&b("rank: soldier\ndefense: 9\nattack: 9\n")), 18);
    assert_eq!(Arena::get_total_power(&b("rank: soldier\nattack: 4\ndefense: 30")), 34);
    assert_eq!(Arena::get_total_power(&b("rank: soldier\nspeed: 7\nattack: 4")), 4);
    assert_eq!(Arena::get_total_power(&b("defense: 999")), 255);
    assert_eq!(Arena::get_total_power(&b("CITIZEN")), 0);
    for d in 0..=255u8 {
        for a in [0u8, 1, 9, 10, 99, 100, 255] {
            assert_eq!(Arena::get_total_power(&soldier(d, a)), d as u16 + a as u16);
        }
    }
}

#[test]
fn win_chance_values() {
    assert_eq!(Arena::calculate_win_chance(5, 5), 50);
    assert_eq!(Arena::calculate_win_chance(7, 2), 55);
    assert_eq!(Arena::calculate_win_chance(2, 7), 45);
    assert_eq!(Arena::calculate_win_chance(10, 0), 60);
    assert_eq!(Arena::calculate_win_chance(60, 0), 100);
    assert_eq!(Arena::calculate_win_chance(0, 60), 0);
    assert_eq!(Arena::calculate_win_chance(110, 0), 100);
    assert_eq!(Arena::calculate_win_chance(200, 50), 100);
    assert_eq!(Arena::calculate_win_chance(0, 150), 0);
    assert_eq!(Arena::calculate_win_chance(0, 99), 0);
}

#[test]
fn win_chances_complement() {
    for a in 0..130u16 {
        for c in 0..130u16 {
            let chance = Arena::calculate_win_chance(a, c);
            assert!(chance <= 100);
            assert_eq!(chance + Arena::calculate_win_chance(c, a), 100);
        }
    }
}

#[test]
fn soldier_prefix_is_checked() {
    assert!(Arena::validate_soldier(&soldier(1, 1)));
    assert!(Arena::validate_soldier(&b("rank: soldier")));
    assert!(!Arena::validate_soldier(&b("rank: soldie")));
    assert!(!Arena::validate_soldier(&b("")));
}

#[test]
fn a_settled_game_cannot_be_joined_again() {
    let mut arena = Arena::init();
    open_game(&mut arena, 100);
    let payments = vec![pay("CITIZEN-abc123", 7, 1), pay("EGLD-000000", 0, 100)];
    assert!(arena.join_game(1, &b("bob"), &payments, &soldier(0, 0), &soldier(2, 0), 0).is_ok());
    assert_eq!(
        arena.join_game(1, &b("carol"), &payments, &soldier(0, 0), &soldier(2, 0), 0),
        Err(ContractError::GameNotFound)
    );
}

#[test]
fn equipping_raises_arena_power_by_one() {
    let mut citizen = Citizen::init();
    citizen.citizen_token_callback(Some(b("CITIZEN-abc123"))).unwrap();
    let payments = vec![pay("CITIZEN-abc123", 3, 1), pay("TOOL-tttttt", 1, 1)];
    let mut attributes = soldier(0, 0);
    for expected in 1..13u16 {
        let actions = if expected % 2 == 0 {
            citizen.equip_shield(&b("alice"), &payments, &attributes, &b("SHIELD")).unwrap()
        } else {
            citizen.equip_sword(&b("alice"), &payments, &attributes, &b("SWORD")).unwrap()
        };
        match &actions[0] {
            Action::UpdateAttributes { attributes: new, .. } => {
                assert_eq!(Arena::get_total_power(new), Arena::get_total_power(&attributes) + 1);
                assert_eq!(Arena::get_total_power(new), expected);
                attributes = new.clone();
            },
            _ => panic!("expected an attribute update"),
        }
    }
    assert_eq!(attributes, soldier(6, 6));
}

#[test]
fn game_ids_are_never_reused() {
    let mut arena = Arena::init();
    open_game(&mut arena, 100);
    open_game(&mut arena, 100);
    let payments = vec![pay("CITIZEN-abc123", 7, 1), pay("EGLD-000000", 0, 100)];
    assert!(arena.join_game(1, &b("bob"), &payments, &soldier(0, 0), &soldier(2, 0), 0).is_ok());
    open_game(&mut arena, 5);
    assert_eq!(arena.get_next_game_id(), 4);
    assert_eq!(arena.get_game(1), None);
    assert_eq!(arena.get_game(3).unwrap().entrance_fee, 5);
    assert_eq!(arena.get_game(4), None);
}
