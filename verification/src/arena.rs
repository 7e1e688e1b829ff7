//! The Arena contract: two soldiers fight for the entrance fees; the winner
//! gets its soldier and both fees back, the loser's soldier is burned.

use vstd::prelude::*;
use crate::bytes::{has_prefix, starts_with, bytes_eq, copy_bytes};
use crate::esdt::{Payment, PaymentView, payments_view, Action, ActionView, actions_view, ContractError};
use crate::store::Store;
use crate::tokens::{soldier_rank, make_soldier_rank};
use crate::attributes::{soldier_attributes, read_stats, read_stats_spec, lemma_soldier_scan};
use crate::citizen::{with_shield, with_sword, law_shield_adds_defense, law_sword_adds_attack};

verus! {

/// A game: the initiator's soldier and fee, and the competitor once one joins.
#[derive(Debug, PartialEq, Eq)]
pub struct ArenaGame {
    pub initiator: Vec<u8>,
    pub initiator_soldier: Payment,
    pub entrance_fee: u128,
    pub competitor: Option<Vec<u8>>,
    pub competitor_soldier: Option<Payment>,
}

pub struct ArenaGameView {
    pub initiator: Seq<u8>,
    pub initiator_soldier: PaymentView,
    pub entrance_fee: u128,
    pub competitor: Option<Seq<u8>>,
    pub competitor_soldier: Option<PaymentView>,
}

impl View for ArenaGame {
    type V = ArenaGameView;

    open spec fn view(&self) -> ArenaGameView {
        ArenaGameView {
            initiator: self.initiator@,
            initiator_soldier: self.initiator_soldier@,
            entrance_fee: self.entrance_fee,
            competitor: match &self.competitor {
                Some(c) => Some(c@),
                None => None,
            },
            competitor_soldier: match &self.competitor_soldier {
                Some(p) => Some(p@),
                None => None,
            },
        }
    }
}

impl ArenaGame {
    /// A copy of this game.
    pub fn duplicate(&self) -> (r: ArenaGame)
        ensures
            r@ == self@,
    {
        ArenaGame {
            initiator: copy_bytes(&self.initiator),
            initiator_soldier: self.initiator_soldier.duplicate(),
            entrance_fee: self.entrance_fee,
            competitor: match &self.competitor {
                Some(c) => Some(copy_bytes(c)),
                None => None,
            },
            competitor_soldier: match &self.competitor_soldier {
                Some(p) => Some(p.duplicate()),
                None => None,
            },
        }
    }
}

/// The Arena contract's storage.
pub struct Arena {
    pub games: Store<u64, ArenaGame>,
    pub next_game_id: u64,
}

pub struct ArenaView {
    pub games: Map<u64, ArenaGameView>,
    pub next_game_id: u64,
}

impl View for Arena {
    type V = ArenaView;

    open spec fn view(&self) -> ArenaView {
        ArenaView { games: self.games@, next_game_id: self.next_game_id }
    }
}

/// `EGLD-000000`: the identifier under which EGLD travels in a transfer of
/// several tokens.
pub open spec fn egld_token_id() -> Seq<u8> {
    seq!['E' as u8, 'G' as u8, 'L' as u8, 'D' as u8, '-' as u8, '0' as u8, '0' as u8, '0' as u8, '0' as u8, '0' as u8, '0' as u8]
}

/// Builds `egld_token_id()`.
pub fn make_egld_token_id() -> (r: Vec<u8>)
    ensures
        r@ == egld_token_id(),
{
    vec!['E' as u8, 'G' as u8, 'L' as u8, 'D' as u8, '-' as u8, '0' as u8, '0' as u8, '0' as u8, '0' as u8, '0' as u8, '0' as u8]
}

/// A soldier's total power: the defense plus the attack written in its
/// attributes (`defense: D` and `attack: A` lines).
pub open spec fn total_power(attributes: Seq<u8>) -> int {
    read_stats_spec(attributes).0 + read_stats_spec(attributes).1
}

/// The power of a soldier whose attributes were written as
/// `rank: soldier\ndefense: D\nattack: A` is D + A.
pub proof fn lemma_soldier_power(defense: u8, attack: u8)
    ensures
        total_power(soldier_attributes(defense, attack)) == defense + attack,
{
    lemma_soldier_scan(defense, attack);
}

/// The chance, in percent, that the initiator wins: 50 plus the initiator's
/// advantage in power (minus its shortfall), kept within 0 and 100.
pub open spec fn win_chance(initiator_power: int, competitor_power: int) -> int {
    let raw = 50 + initiator_power - competitor_power;
    if raw > 100 {
        100
    } else if raw < 0 {
        0
    } else {
        raw
    }
}

/// What creating or joining a game checks of the payments: a soldier first
/// (`attributes` are its attributes) and a second payment, in EGLD, for the
/// fee.
pub open spec fn entry_check(ps: Seq<PaymentView>, attributes: Seq<u8>) -> Result<(), ContractError> {
    if ps.len() == 0 {
        Err(ContractError::MissingPayment)
    } else if !has_prefix(attributes, soldier_rank()) {
        Err(ContractError::NotSoldier)
    } else if ps.len() <= 1 {
        Err(ContractError::MissingEntranceFee)
    } else if ps[1].token_id != egld_token_id() {
        Err(ContractError::EntranceFeeNotEgld)
    } else {
        Ok(())
    }
}

/// What joining game `game_id` checks beyond the payments.
pub open spec fn join_check(s: ArenaView, game_id: u64, ps: Seq<PaymentView>, attributes: Seq<u8>) -> Result<(), ContractError> {
    match entry_check(ps, attributes) {
        Err(e) => Err(e),
        Ok(()) => if !s.games.contains_key(game_id) {
            Err(ContractError::GameNotFound)
        } else if s.games[game_id].competitor is Some {
            Err(ContractError::GameFull)
        } else if ps[1].amount != s.games[game_id].entrance_fee {
            Err(ContractError::InvalidEntranceFee)
        } else {
            Ok(())
        },
    }
}

/// The storage after `caller` opened a game with the payments `ps`: the game
/// is stored under the next id, and the id after it becomes the next one.
pub open spec fn created(s: ArenaView, caller: Seq<u8>, ps: Seq<PaymentView>) -> ArenaView {
    ArenaView {
        games: s.games.insert(s.next_game_id, ArenaGameView {
            initiator: caller,
            initiator_soldier: ps[0],
            entrance_fee: ps[1].amount,
            competitor: None,
            competitor_soldier: None,
        }),
        next_game_id: (s.next_game_id + 1) as u64,
    }
}

/// The outcome of a fight: the winner gets its soldier back and both entrance
/// fees, and the loser's soldier is burned. The initiator wins when
/// `timestamp % 100` is below its win chance.
pub open spec fn fight_actions(
    initiator: Seq<u8>,
    initiator_soldier: PaymentView,
    competitor: Seq<u8>,
    competitor_soldier: PaymentView,
    fee: u128,
    chance: int,
    timestamp: u64,
) -> Seq<ActionView> {
    let initiator_wins = (timestamp % 100) < chance;
    let winner = if initiator_wins { initiator } else { competitor };
    let kept = if initiator_wins { initiator_soldier } else { competitor_soldier };
    let lost = if initiator_wins { competitor_soldier } else { initiator_soldier };
    seq![
        ActionView::Send { to: winner, token_id: kept.token_id, nonce: kept.nonce, amount: 1 },
        ActionView::SendEgld { to: winner, amount: fee },
        ActionView::SendEgld { to: winner, amount: fee },
        ActionView::Burn { token_id: lost.token_id, nonce: lost.nonce, amount: 1 },
    ]
}

impl Arena {
    /// The storage of a freshly deployed contract: no games, ids from 1.
    pub fn init() -> (r: Arena)
        ensures
            r@.games == Map::<u64, ArenaGameView>::empty(),
            r@.next_game_id == 1,
    {
        Arena { games: Store::new(), next_game_id: 1 }
    }

    /// `getNextGameId`: the id the next created game gets.
    pub fn get_next_game_id(&self) -> (r: u64)
        ensures
            r == self@.next_game_id,
    {
        self.next_game_id
    }

    /// `getGame`: the game stored under `game_id`, if any.
    pub fn get_game(&self, game_id: u64) -> (r: Option<ArenaGame>)
        ensures
            match r {
                Some(g) => self@.games.contains_key(game_id) && g@ == self@.games[game_id],
                None => !self@.games.contains_key(game_id),
            },
    {
        match self.games.get(&game_id) {
            Some(g) => Some(g.duplicate()),
            None => None,
        }
    }

    /// Whether `attributes` are those of a soldier.
    pub fn validate_soldier(attributes: &Vec<u8>) -> (r: bool)
        ensures
            r == has_prefix(attributes@, soldier_rank()),
    {
        starts_with(attributes, &make_soldier_rank())
    }

    /// The total power written in a soldier's attributes.
    pub fn get_total_power(attributes: &Vec<u8>) -> (r: u16)
        ensures
            r == total_power(attributes@),
    {
        let (defense, attack) = read_stats(attributes);
        defense as u16 + attack as u16
    }

    /// The initiator's chance to win, in percent.
    pub fn calculate_win_chance(initiator_power: u16, competitor_power: u16) -> (r: u64)
        ensures
            r == win_chance(initiator_power as int, competitor_power as int),
    {
        if initiator_power > competitor_power {
            let diff = (initiator_power - competitor_power) as u64;
            if diff >= 50 {
                100
            } else {
                50 + diff
            }
        } else {
            let diff = (competitor_power - initiator_power) as u64;
            if diff >= 50 {
                0
            } else {
                50 - diff
            }
        }
    }

    /// `createGame`: opens a game with the caller's soldier (the first
    /// payment, whose attributes are `soldier_attributes`) and an entrance fee
    /// equal to the second payment's amount.
    pub fn create_game(&mut self, caller: &Vec<u8>, payments: &Vec<Payment>, soldier_attributes: &Vec<u8>) -> (r: Result<(), ContractError>)
        ensures
            match entry_check(payments_view(payments@), soldier_attributes@) {
                Ok(()) => if old(self)@.next_game_id == u64::MAX {
                    r == Err::<(), ContractError>(ContractError::CounterOverflow) && final(self)@ == old(self)@
                } else {
                    r is Ok && final(self)@ == created(old(self)@, caller@, payments_view(payments@))
                },
                Err(e) => r == Err::<(), ContractError>(e) && final(self)@ == old(self)@,
            },
    {
        if payments.len() == 0 {
            return Err(ContractError::MissingPayment);
        }
        if !Self::validate_soldier(soldier_attributes) {
            return Err(ContractError::NotSoldier);
        }
        if payments.len() <= 1 {
            return Err(ContractError::MissingEntranceFee);
        }
        if !bytes_eq(&payments[1].token_id, &make_egld_token_id()) {
            return Err(ContractError::EntranceFeeNotEgld);
        }
        if self.next_game_id == u64::MAX {
            return Err(ContractError::CounterOverflow);
        }
        let game_id = self.next_game_id;
        let game = ArenaGame {
            initiator: copy_bytes(caller),
            initiator_soldier: payments[0].duplicate(),
            entrance_fee: payments[1].amount,
            competitor: None,
            competitor_soldier: None,
        };
        self.games.insert(game_id, game);
        self.next_game_id = game_id + 1;
        Ok(())
    }

    /// The actions that settle a fight between the two soldiers of `game`,
    /// whose attributes are given, at `timestamp`.
    pub fn start_fight(
        game: &ArenaGame,
        competitor: &Vec<u8>,
        competitor_soldier: &Payment,
        initiator_attributes: &Vec<u8>,
        competitor_attributes: &Vec<u8>,
        timestamp: u64,
    ) -> (r: Vec<Action>)
        ensures
            actions_view(r@) == fight_actions(
                game@.initiator,
                game@.initiator_soldier,
                competitor@,
                competitor_soldier@,
                game@.entrance_fee,
                win_chance(total_power(initiator_attributes@), total_power(competitor_attributes@)),
                timestamp,
            ),
    {
        let initiator_power = Self::get_total_power(initiator_attributes);
        let competitor_power = Self::get_total_power(competitor_attributes);
        let chance = Self::calculate_win_chance(initiator_power, competitor_power);
        let random = timestamp % 100;
        let initiator_wins = random < chance;
        let (winner, kept, lost) = if initiator_wins {
            (copy_bytes(&game.initiator), &game.initiator_soldier, competitor_soldier)
        } else {
            (copy_bytes(competitor), competitor_soldier, &game.initiator_soldier)
        };
        let mut actions: Vec<Action> = Vec::new();
        actions.push(Action::Send { to: copy_bytes(&winner), token_id: copy_bytes(&kept.token_id), nonce: kept.nonce, amount: 1 });
        actions.push(Action::SendEgld { to: copy_bytes(&winner), amount: game.entrance_fee });
        actions.push(Action::SendEgld { to: winner, amount: game.entrance_fee });
        actions.push(Action::Burn { token_id: copy_bytes(&lost.token_id), nonce: lost.nonce, amount: 1 });
        proof {
            assert(actions_view(actions@) =~= fight_actions(
                game@.initiator,
                game@.initiator_soldier,
                competitor@,
                competitor_soldier@,
                game@.entrance_fee,
                win_chance(initiator_power as int, competitor_power as int),
                timestamp,
            ));
        }
        actions
    }

    /// `joinGame`: the caller's soldier (first payment, attributes
    /// `soldier_attributes`) joins game `game_id` by paying its entrance fee
    /// (second payment); the fight is settled at once and the game removed.
    /// `initiator_attributes` are the attributes of the game's initiator
    /// soldier.
    pub fn join_game(
        &mut self,
        game_id: u64,
        caller: &Vec<u8>,
        payments: &Vec<Payment>,
        soldier_attributes: &Vec<u8>,
        initiator_attributes: &Vec<u8>,
        timestamp: u64,
    ) -> (r: Result<Vec<Action>, ContractError>)
        ensures
            match join_check(old(self)@, game_id, payments_view(payments@), soldier_attributes@) {
                Ok(()) => r is Ok
                    && final(self)@ == (ArenaView { games: old(self)@.games.remove(game_id), ..old(self)@ })
                    && actions_view(r->Ok_0@) == fight_actions(
                        old(self)@.games[game_id].initiator,
                        old(self)@.games[game_id].initiator_soldier,
                        caller@,
                        payments@[0]@,
                        old(self)@.games[game_id].entrance_fee,
                        win_chance(total_power(initiator_attributes@), total_power(soldier_attributes@)),
                        timestamp,
                    ),
                Err(e) => r == Err::<Vec<Action>, ContractError>(e) && final(self)@ == old(self)@,
            },
    {
        if payments.len() == 0 {
            return Err(ContractError::MissingPayment);
        }
        if !Self::validate_soldier(soldier_attributes) {
            return Err(ContractError::NotSoldier);
        }
        if payments.len() <= 1 {
            return Err(ContractError::MissingEntranceFee);
        }
        if !bytes_eq(&payments[1].token_id, &make_egld_token_id()) {
            return Err(ContractError::EntranceFeeNotEgld);
        }
        let actions = match self.games.get(&game_id) {
            None => {
                return Err(ContractError::GameNotFound);
            },
            Some(game) => {
                if game.competitor.is_some() {
                    return Err(ContractError::GameFull);
                }
                if payments[1].amount != game.entrance_fee {
                    return Err(ContractError::InvalidEntranceFee);
                }
                Self::start_fight(game, caller, &payments[0], initiator_attributes, soldier_attributes, timestamp)
            },
        };
        self.games.remove(&game_id);
        Ok(actions)
    }
}

/// Equal powers give each side an even chance.
pub proof fn law_even_fight(power: int)
    ensures
        win_chance(power, power) == 50,
{
}

/// The two sides' chances add up to 100.
pub proof fn law_chances_complement(a: int, b: int)
    ensures
        win_chance(a, b) + win_chance(b, a) == 100,
{
}

/// The stronger side is favoured by its advantage in power, up to 100%.
pub proof fn law_stronger_favoured(a: int, b: int)
    requires
        a > b,
    ensures
        win_chance(a, b) == if a - b >= 50 { 100 } else { 50 + (a - b) },
        win_chance(a, b) > 50,
{
}

/// A chance is a percentage: it lies within 0 and 100.
pub proof fn law_chance_is_percentage(a: int, b: int)
    ensures
        0 <= win_chance(a, b) <= 100,
{
}

/// Equipping a shield or a sword on a soldier the Citizen contract made raises
/// its arena power by one.
pub proof fn law_equipment_adds_power(defense: u8, attack: u8)
    ensures
        defense < 255 ==> total_power(with_shield(soldier_attributes(defense, attack))->Some_0)
            == total_power(soldier_attributes(defense, attack)) + 1,
        attack < 255 ==> total_power(with_sword(soldier_attributes(defense, attack))->Some_0)
            == total_power(soldier_attributes(defense, attack)) + 1,
{
    lemma_soldier_power(defense, attack);
    if defense < 255 {
        law_shield_adds_defense(defense, attack);
        lemma_soldier_power((defense + 1) as u8, attack);
    }
    if attack < 255 {
        law_sword_adds_attack(defense, attack);
        lemma_soldier_power(defense, (attack + 1) as u8);
    }
}

/// Every stored game is waiting for a competitor.
pub open spec fn games_open(s: ArenaView) -> bool {
    forall|id: u64| s.games.contains_key(id) ==> (#[trigger] s.games[id]).competitor is None
}

/// Creating a game and settling one by joining keep every stored game open,
/// so a game is never joined twice.
pub proof fn law_games_stay_open(s: ArenaView, id: u64, game: ArenaGameView, joined: u64)
    requires
        games_open(s),
        game.competitor is None,
    ensures
        games_open(ArenaView { games: s.games.insert(id, game), next_game_id: (id + 1) as u64 }),
        games_open(ArenaView { games: s.games.remove(joined), ..s }),
{
    let c = ArenaView { games: s.games.insert(id, game), next_game_id: (id + 1) as u64 };
    assert forall|k: u64| c.games.contains_key(k) implies (#[trigger] c.games[k]).competitor is None by {
        if k != id {
            assert(s.games.contains_key(k));
        }
    }
}

/// Game ids are handed out from 1 upwards: every stored game has an id below
/// the next one, so no id is handed out twice and an id never handed out has
/// no game.
pub open spec fn ids_handed_out(s: ArenaView) -> bool {
    &&& 1 <= s.next_game_id
    &&& forall|id: u64| s.games.contains_key(id) ==> 1 <= id < s.next_game_id
}

/// A freshly deployed arena hands out ids from 1; creating a game stores it
/// under an id that no stored game has, and creating or settling a game keeps
/// ids handed out from 1 upwards.
pub proof fn law_game_ids_fresh(s: ArenaView, caller: Seq<u8>, ps: Seq<PaymentView>, joined: u64)
    requires
        ids_handed_out(s),
    ensures
        ids_handed_out(ArenaView { games: Map::empty(), next_game_id: 1 }),
        forall|id: u64| id >= s.next_game_id ==> !s.games.contains_key(id),
        s.next_game_id < u64::MAX ==> ids_handed_out(created(s, caller, ps)),
        ids_handed_out(ArenaView { games: s.games.remove(joined), ..s }),
{
}

/// A successful call that changes the arena's storage: opening a game, or
/// joining (and so settling) one.
pub enum ArenaStep {
    Create { caller: Seq<u8>, payments: Seq<PaymentView> },
    Settle { game_id: u64 },
}

/// The step settles the game `id`.
pub open spec fn settles(step: ArenaStep, id: u64) -> bool {
    step matches ArenaStep::Settle { game_id } && game_id == id
}

/// The storage after the successful calls `steps`, from `s`.
pub open spec fn apply_steps(s: ArenaView, steps: Seq<ArenaStep>) -> ArenaView
    decreases steps.len(),
{
    if steps.len() == 0 {
        s
    } else {
        let t = apply_steps(s, steps.drop_last());
        match steps.last() {
            ArenaStep::Create { caller, payments } => created(t, caller, payments),
            ArenaStep::Settle { game_id } => ArenaView { games: t.games.remove(game_id), ..t },
        }
    }
}

/// How many games `steps` open.
pub open spec fn creations(steps: Seq<ArenaStep>) -> nat
    decreases steps.len(),
{
    if steps.len() == 0 {
        0
    } else {
        creations(steps.drop_last()) + if steps.last() is Create { 1nat } else { 0nat }
    }
}

/// Running `a` then `b` is running `a + b`.
proof fn lemma_apply_concat(s: ArenaView, a: Seq<ArenaStep>, b: Seq<ArenaStep>)
    ensures
        apply_steps(s, a + b) == apply_steps(apply_steps(s, a), b),
        creations(a + b) == creations(a) + creations(b),
    decreases b.len(),
{
    if b.len() == 0 {
        assert(a + b =~= a);
    } else {
        assert((a + b).drop_last() =~= a + b.drop_last());
        assert((a + b).last() == b.last());
        lemma_apply_concat(s, a, b.drop_last());
    }
}

/// From storage whose ids are handed out from 1 upwards, successful calls
/// move the next id on by one per game created and keep the ids so.
proof fn lemma_run(s: ArenaView, steps: Seq<ArenaStep>)
    requires
        ids_handed_out(s),
        s.next_game_id + creations(steps) <= u64::MAX,
    ensures
        apply_steps(s, steps).next_game_id == s.next_game_id + creations(steps),
        ids_handed_out(apply_steps(s, steps)),
    decreases steps.len(),
{
    if steps.len() > 0 {
        let rest = steps.drop_last();
        lemma_run(s, rest);
        let t = apply_steps(s, rest);
        match steps.last() {
            ArenaStep::Create { caller, payments } => {
                law_game_ids_fresh(t, caller, payments, 0);
            },
            ArenaStep::Settle { game_id } => {
                law_game_ids_fresh(t, Seq::empty(), Seq::empty(), game_id);
            },
        }
    }
}

/// Later successful calls leave an id below the next one as it is: without
/// a game it gets none, and its game stays until a join settles it.
proof fn lemma_kept(s: ArenaView, steps: Seq<ArenaStep>, k: u64)
    requires
        ids_handed_out(s),
        s.next_game_id + creations(steps) <= u64::MAX,
        k < s.next_game_id,
    ensures
        !s.games.contains_key(k) ==> !apply_steps(s, steps).games.contains_key(k),
        s.games.contains_key(k) && (forall|j: int| 0 <= j < steps.len() ==> !settles(#[trigger] steps[j], k))
            ==> apply_steps(s, steps).games.contains_key(k) && apply_steps(s, steps).games[k] == s.games[k],
    decreases steps.len(),
{
    if steps.len() > 0 {
        let rest = steps.drop_last();
        lemma_kept(s, rest, k);
        lemma_run(s, rest);
        if forall|j: int| 0 <= j < steps.len() ==> !settles(#[trigger] steps[j], k) {
            assert forall|j: int| 0 <= j < rest.len() implies !settles(#[trigger] rest[j], k) by {
                assert(rest[j] == steps[j]);
            }
            assert(!settles(steps[steps.len() - 1], k));
        }
    }
}

/// From a freshly deployed arena, after any successful creates and joins,
/// the next game id is one more than the number of games created, and ids are
/// handed out from 1 upwards (none twice, none without a game before it is
/// handed out).
pub proof fn law_next_id_counts_creations(steps: Seq<ArenaStep>)
    requires
        creations(steps) < u64::MAX,
    ensures
        apply_steps(ArenaView { games: Map::empty(), next_game_id: 1 }, steps).next_game_id == 1 + creations(steps),
        ids_handed_out(apply_steps(ArenaView { games: Map::empty(), next_game_id: 1 }, steps)),
{
    let init = ArenaView { games: Map::empty(), next_game_id: 1 };
    law_game_ids_fresh(init, Seq::empty(), Seq::empty(), 0);
    lemma_run(init, steps);
}

/// What `getGame` reads after successful creates and joins from a freshly
/// deployed arena: the game that call `i` created, under the id it was given
/// (one more than the games created before it), is stored as created until a
/// join settles it; a game that call `i` settled is gone for good; and an id
/// not handed out yet has no game.
pub proof fn law_get_game_history(steps: Seq<ArenaStep>, i: int, k: u64)
    requires
        creations(steps) < u64::MAX,
        0 <= i < steps.len(),
    ensures
        ({
            let init = ArenaView { games: Map::empty(), next_game_id: 1 };
            let end = apply_steps(init, steps);
            let n = (1 + creations(steps.take(i))) as u64;
            &&& (steps[i] matches ArenaStep::Create { caller, payments }
                && (forall|j: int| i < j < steps.len() ==> !settles(#[trigger] steps[j], n)))
                ==> end.games.contains_key(n) && end.games[n] == (ArenaGameView {
                    initiator: steps[i]->caller,
                    initiator_soldier: steps[i]->payments[0],
                    entrance_fee: steps[i]->payments[1].amount,
                    competitor: None,
                    competitor_soldier: None,
                })
            &&& (settles(steps[i], k) && apply_steps(init, steps.take(i)).games.contains_key(k))
                ==> !end.games.contains_key(k)
            &&& (k == 0 || k >= end.next_game_id) ==> !end.games.contains_key(k)
        }),
{
    let init = ArenaView { games: Map::empty(), next_game_id: 1 };
    law_game_ids_fresh(init, Seq::empty(), Seq::empty(), 0);
    let head = steps.take(i);
    let upto = steps.take(i + 1);
    let tail = steps.skip(i + 1);
    assert(steps =~= upto + tail);
    assert(upto =~= head + seq![steps[i]]);
    lemma_apply_concat(init, upto, tail);
    lemma_apply_concat(init, head, seq![steps[i]]);
    assert(seq![steps[i]].drop_last() =~= Seq::<ArenaStep>::empty());
    lemma_run(init, head);
    lemma_run(init, upto);
    lemma_run(init, steps);
    let s0 = apply_steps(init, head);
    let s1 = apply_steps(init, upto);
    let n = (1 + creations(head)) as u64;
    assert(s0.next_game_id == n);
    assert(apply_steps(s0, Seq::<ArenaStep>::empty()) == s0);
    assert(apply_steps(init, steps) == apply_steps(s1, tail));
    assert(s1 == apply_steps(s0, seq![steps[i]]));
    match steps[i] {
        ArenaStep::Create { caller, payments } => {
            assert(s1 == created(s0, caller, payments));
            assert(s1.games.contains_key(n));
            lemma_kept(s1, tail, n);
            if forall|j: int| i < j < steps.len() ==> !settles(#[trigger] steps[j], n) {
                assert forall|j: int| 0 <= j < tail.len() implies !settles(#[trigger] tail[j], n) by {
                    assert(tail[j] == steps[i + 1 + j]);
                }
            }
        },
        ArenaStep::Settle { game_id } => {
            assert(s1 == (ArenaView { games: s0.games.remove(game_id), ..s0 }));
            if settles(steps[i], k) && s0.games.contains_key(k) {
                lemma_kept(s1, tail, k);
            }
        },
    }
}

/// The fight's roll is a percentage: the initiator wins (gets its soldier
/// and both fees back, and the competitor's soldier is burned) exactly when
/// `timestamp % 100` is below its win chance, and the competitor wins
/// otherwise; so an initiator whose chance is 100 always wins, and one whose
/// chance is 0 always loses.
pub proof fn law_fight_roll_is_a_percentage(
    initiator: Seq<u8>,
    initiator_soldier: PaymentView,
    competitor: Seq<u8>,
    competitor_soldier: PaymentView,
    fee: u128,
    chance: int,
    timestamp: u64,
)
    ensures
        ({
            let fa = fight_actions(initiator, initiator_soldier, competitor, competitor_soldier, fee, chance, timestamp);
            let initiator_won = fa == seq![
                ActionView::Send { to: initiator, token_id: initiator_soldier.token_id, nonce: initiator_soldier.nonce, amount: 1 },
                ActionView::SendEgld { to: initiator, amount: fee },
                ActionView::SendEgld { to: initiator, amount: fee },
                ActionView::Burn { token_id: competitor_soldier.token_id, nonce: competitor_soldier.nonce, amount: 1 },
            ];
            let competitor_won = fa == seq![
                ActionView::Send { to: competitor, token_id: competitor_soldier.token_id, nonce: competitor_soldier.nonce, amount: 1 },
                ActionView::SendEgld { to: competitor, amount: fee },
                ActionView::SendEgld { to: competitor, amount: fee },
                ActionView::Burn { token_id: initiator_soldier.token_id, nonce: initiator_soldier.nonce, amount: 1 },
            ];
            &&& (timestamp % 100 < chance) ==> initiator_won
            &&& !(timestamp % 100 < chance) ==> competitor_won
            &&& chance >= 100 ==> initiator_won
            &&& chance <= 0 ==> competitor_won
        }),
{
    let fa = fight_actions(initiator, initiator_soldier, competitor, competitor_soldier, fee, chance, timestamp);
    if timestamp % 100 < chance {
        assert(fa =~= seq![
            ActionView::Send { to: initiator, token_id: initiator_soldier.token_id, nonce: initiator_soldier.nonce, amount: 1 },
            ActionView::SendEgld { to: initiator, amount: fee },
            ActionView::SendEgld { to: initiator, amount: fee },
            ActionView::Burn { token_id: competitor_soldier.token_id, nonce: competitor_soldier.nonce, amount: 1 },
        ]);
    } else {
        assert(fa =~= seq![
            ActionView::Send { to: competitor, token_id: competitor_soldier.token_id, nonce: competitor_soldier.nonce, amount: 1 },
            ActionView::SendEgld { to: competitor, amount: fee },
            ActionView::SendEgld { to: competitor, amount: fee },
            ActionView::Burn { token_id: initiator_soldier.token_id, nonce: initiator_soldier.nonce, amount: 1 },
        ]);
    }
}

} // verus!
