//! Soldier attributes: how they are written (`rank: soldier`, then a
//! `defense: D` line and an `attack: A` line with decimal numbers) and how the
//! defense and attack are read back from `key: value` lines.

use vstd::prelude::*;
use crate::bytes::{append_bytes, bytes_eq};
use crate::tokens::{soldier_rank, make_soldier_rank};

verus! {

/// `\ndefense: `: the text that introduces the defense of a soldier.
pub open spec fn defense_label() -> Seq<u8> {
    seq!['\n' as u8, 'd' as u8, 'e' as u8, 'f' as u8, 'e' as u8, 'n' as u8, 's' as u8, 'e' as u8, ':' as u8, ' ' as u8]
}

/// `\nattack: `: the text that introduces the attack of a soldier.
pub open spec fn attack_label() -> Seq<u8> {
    seq!['\n' as u8, 'a' as u8, 't' as u8, 't' as u8, 'a' as u8, 'c' as u8, 'k' as u8, ':' as u8, ' ' as u8]
}

/// `defense`: the key of the defense line.
pub open spec fn defense_key() -> Seq<u8> {
    seq!['d' as u8, 'e' as u8, 'f' as u8, 'e' as u8, 'n' as u8, 's' as u8, 'e' as u8]
}

/// `attack`: the key of the attack line.
pub open spec fn attack_key() -> Seq<u8> {
    seq!['a' as u8, 't' as u8, 't' as u8, 'a' as u8, 'c' as u8, 'k' as u8]
}

/// The decimal digits of `n`, without leading zeros.
pub open spec fn dec(n: u8) -> Seq<u8> {
    if n < 10 {
        seq![(48 + n) as u8]
    } else if n < 100 {
        seq![(48 + n / 10) as u8, (48 + n % 10) as u8]
    } else {
        seq![(48 + n / 100) as u8, (48 + (n / 10) % 10) as u8, (48 + n % 10) as u8]
    }
}

/// The attributes of a soldier with the given defense and attack:
/// `rank: soldier\ndefense: D\nattack: A`.
pub open spec fn soldier_attributes(defense: u8, attack: u8) -> Seq<u8> {
    soldier_rank() + defense_label() + dec(defense) + attack_label() + dec(attack)
}

/// Where the reading of `key: value` lines stands. `key` holds what was read
/// of the current line before its colon; `mode` is 0 before the colon, then 1
/// on a defense line, 2 on an attack line, 3 on any other line; `value` is the
/// number read after the colon (saturating at 255); `defense` and `attack`
/// the values of the lines already ended.
pub struct PowerScan {
    pub key: Seq<u8>,
    pub mode: u8,
    pub value: u8,
    pub defense: u8,
    pub attack: u8,
}

pub open spec fn scan_start() -> PowerScan {
    PowerScan { key: Seq::empty(), mode: 0, value: 0, defense: 0, attack: 0 }
}

/// The end of a line (or of the attributes): the value of a defense or attack
/// line is kept, and the next line starts.
pub open spec fn end_line(s: PowerScan) -> PowerScan {
    PowerScan {
        key: Seq::empty(),
        mode: 0,
        value: 0,
        defense: if s.mode == 1 { s.value } else { s.defense },
        attack: if s.mode == 2 { s.value } else { s.attack },
    }
}

/// One more decimal digit of a value, saturating at 255.
pub open spec fn add_digit(value: u8, digit: u8) -> u8 {
    if value * 10 + digit > 255 {
        255
    } else {
        (value * 10 + digit) as u8
    }
}

/// Reading one byte: a newline ends the line; before the colon the byte is
/// part of the key, and the colon decides what the line holds; after it, the
/// digits of a defense or attack line make its value and the rest is ignored.
pub open spec fn scan_byte(s: PowerScan, b: u8) -> PowerScan {
    if b == 10 {
        end_line(s)
    } else if s.mode == 0 {
        if b == 58 {
            PowerScan {
                mode: if s.key == defense_key() {
                    1
                } else if s.key == attack_key() {
                    2
                } else {
                    3
                },
                ..s
            }
        } else {
            PowerScan { key: s.key.push(b), ..s }
        }
    } else if (s.mode == 1 || s.mode == 2) && 48 <= b <= 57 {
        PowerScan { value: add_digit(s.value, (b - 48) as u8), ..s }
    } else {
        s
    }
}

pub open spec fn scan_from(s: PowerScan, bytes: Seq<u8>) -> PowerScan
    decreases bytes.len(),
{
    if bytes.len() == 0 {
        s
    } else {
        scan_from(scan_byte(s, bytes[0]), bytes.drop_first())
    }
}

/// The defense and attack written in `attributes` (0 where a line is missing).
pub open spec fn read_stats_spec(attributes: Seq<u8>) -> (u8, u8) {
    let s = end_line(scan_from(scan_start(), attributes));
    (s.defense, s.attack)
}

/// The defense and attack of a soldier whose attributes are exactly as the
/// Citizen contract writes them; `None` for any other attributes.
pub open spec fn soldier_stats(attributes: Seq<u8>) -> Option<(u8, u8)> {
    let (d, a) = read_stats_spec(attributes);
    if attributes == soldier_attributes(d, a) {
        Some((d, a))
    } else {
        None
    }
}

/// Reading `a` then `b` is reading `a + b`.
pub proof fn lemma_scan_concat(s: PowerScan, a: Seq<u8>, b: Seq<u8>)
    ensures
        scan_from(s, a + b) == scan_from(scan_from(s, a), b),
    decreases a.len(),
{
    if a.len() > 0 {
        assert((a + b).drop_first() =~= a.drop_first() + b);
        lemma_scan_concat(scan_byte(s, a[0]), a.drop_first(), b);
    } else {
        assert(a + b =~= b);
    }
}

/// Reading a single byte.
pub proof fn lemma_scan_one(s: PowerScan, b: u8)
    ensures
        scan_from(s, seq![b]) == scan_byte(s, b),
{
    assert(seq![b].drop_first() =~= Seq::<u8>::empty());
    assert(scan_from(scan_byte(s, b), Seq::<u8>::empty()) == scan_byte(s, b));
}

/// Before the colon, bytes that are neither a colon nor a newline make up
/// the key.
proof fn lemma_scan_key(s: PowerScan, k: Seq<u8>)
    requires
        s.mode == 0,
        forall|i: int| 0 <= i < k.len() ==> #[trigger] k[i] != 10 && k[i] != 58,
    ensures
        scan_from(s, k) == (PowerScan { key: s.key + k, ..s }),
    decreases k.len(),
{
    if k.len() == 0 {
        assert(s.key + k =~= s.key);
    } else {
        let t = scan_byte(s, k[0]);
        assert(forall|i: int| 0 <= i < k.drop_first().len() ==> #[trigger] k.drop_first()[i] == k[i + 1]);
        lemma_scan_key(t, k.drop_first());
        assert(t.key + k.drop_first() =~= s.key + k);
    }
}

/// After the colon, bytes that are neither digits nor newlines change nothing.
proof fn lemma_scan_skip(s: PowerScan, t: Seq<u8>)
    requires
        s.mode != 0,
        forall|i: int| 0 <= i < t.len() ==> #[trigger] t[i] != 10 && !(48 <= t[i] <= 57),
    ensures
        scan_from(s, t) == s,
    decreases t.len(),
{
    if t.len() > 0 {
        assert(forall|i: int| 0 <= i < t.drop_first().len() ==> #[trigger] t.drop_first()[i] == t[i + 1]);
        lemma_scan_skip(s, t.drop_first());
    }
}

/// The decimal digits of `n` read as a defense or attack value give `n`.
proof fn lemma_scan_dec(s: PowerScan, n: u8)
    requires
        s.mode == 1 || s.mode == 2,
        s.value == 0,
    ensures
        scan_from(s, dec(n)) == (PowerScan { value: n, ..s }),
{
    reveal_with_fuel(scan_from, 4);
    if n < 10 {
    } else if n < 100 {
        assert(dec(n).drop_first() =~= seq![(48 + n % 10) as u8]);
        assert((n / 10) * 10 + n % 10 == n);
    } else {
        assert(dec(n).drop_first() =~= seq![(48 + (n / 10) % 10) as u8, (48 + n % 10) as u8]);
        assert(dec(n).drop_first().drop_first() =~= seq![(48 + n % 10) as u8]);
        assert((n / 100) * 10 + (n / 10) % 10 == n / 10);
        assert((n / 10) * 10 + n % 10 == n);
    }
}

/// Reading `key: value` line by line finds the defense and attack that the
/// soldier's attributes were written with.
pub proof fn lemma_soldier_scan(defense: u8, attack: u8)
    ensures
        read_stats_spec(soldier_attributes(defense, attack)) == (defense, attack),
{
    let rank_key = seq!['r' as u8, 'a' as u8, 'n' as u8, 'k' as u8];
    let rank_rest = seq![' ' as u8, 's' as u8, 'o' as u8, 'l' as u8, 'd' as u8, 'i' as u8, 'e' as u8, 'r' as u8];
    let colon = seq![58u8];
    let newline = seq![10u8];
    let space = seq![32u8];
    assert(soldier_rank() =~= rank_key + colon + rank_rest);
    assert(defense_label() =~= newline + defense_key() + colon + space);
    assert(attack_label() =~= newline + attack_key() + colon + space);

    let s0 = scan_start();
    // `rank: soldier`
    lemma_scan_key(s0, rank_key);
    let s1 = scan_from(s0, rank_key);
    assert(s1.key =~= rank_key);
    lemma_scan_one(s1, 58u8);
    let s2 = scan_from(s1, colon);
    assert(s2.mode == 3);
    lemma_scan_skip(s2, rank_rest);
    lemma_scan_concat(s0, rank_key, colon);
    lemma_scan_concat(s0, rank_key + colon, rank_rest);
    assert(scan_from(s0, soldier_rank()) == s2);
    // `\ndefense: D`
    lemma_scan_one(s2, 10u8);
    let s3 = scan_from(s2, newline);
    assert(s3 == s0);
    lemma_scan_key(s3, defense_key());
    let s4 = scan_from(s3, defense_key());
    assert(s4.key =~= defense_key());
    lemma_scan_one(s4, 58u8);
    let s5 = scan_from(s4, colon);
    assert(s5.mode == 1);
    lemma_scan_one(s5, 32u8);
    let s6 = scan_from(s5, space);
    assert(s6 == s5);
    lemma_scan_dec(s6, defense);
    let s7 = scan_from(s6, dec(defense));
    lemma_scan_concat(s2, newline, defense_key());
    lemma_scan_concat(s2, newline + defense_key(), colon);
    lemma_scan_concat(s2, newline + defense_key() + colon, space);
    assert(scan_from(s2, defense_label()) == s6);
    // `\nattack: A`
    lemma_scan_one(s7, 10u8);
    let s8 = scan_from(s7, newline);
    assert(s8 == (PowerScan { defense: defense, ..s0 }));
    lemma_scan_key(s8, attack_key());
    let s9 = scan_from(s8, attack_key());
    assert(s9.key =~= attack_key());
    assert(s9.key != defense_key()) by {
        assert(s9.key.len() != defense_key().len());
    }
    lemma_scan_one(s9, 58u8);
    let s10 = scan_from(s9, colon);
    assert(s10.mode == 2);
    lemma_scan_one(s10, 32u8);
    let s11 = scan_from(s10, space);
    assert(s11 == s10);
    lemma_scan_dec(s11, attack);
    let s12 = scan_from(s11, dec(attack));
    lemma_scan_concat(s7, newline, attack_key());
    lemma_scan_concat(s7, newline + attack_key(), colon);
    lemma_scan_concat(s7, newline + attack_key() + colon, space);
    assert(scan_from(s7, attack_label()) == s11);
    // all of it
    let r = soldier_rank();
    let dl = defense_label();
    let al = attack_label();
    lemma_scan_concat(s0, r, dl);
    lemma_scan_concat(s0, r + dl, dec(defense));
    lemma_scan_concat(s0, r + dl + dec(defense), al);
    lemma_scan_concat(s0, r + dl + dec(defense) + al, dec(attack));
    assert(scan_from(s0, soldier_attributes(defense, attack)) == s12);
}

/// A soldier's attributes as the Citizen contract writes them are read back
/// as the defense and attack they were written with.
pub proof fn law_soldier_stats_round_trip(defense: u8, attack: u8)
    ensures
        soldier_stats(soldier_attributes(defense, attack)) == Some((defense, attack)),
{
    lemma_soldier_scan(defense, attack);
}

/// `\ndefense: ` as bytes.
fn make_defense_label() -> (r: Vec<u8>)
    ensures
        r@ == defense_label(),
{
    vec!['\n' as u8, 'd' as u8, 'e' as u8, 'f' as u8, 'e' as u8, 'n' as u8, 's' as u8, 'e' as u8, ':' as u8, ' ' as u8]
}

/// `\nattack: ` as bytes.
fn make_attack_label() -> (r: Vec<u8>)
    ensures
        r@ == attack_label(),
{
    vec!['\n' as u8, 'a' as u8, 't' as u8, 't' as u8, 'a' as u8, 'c' as u8, 'k' as u8, ':' as u8, ' ' as u8]
}

/// `defense` as bytes.
fn make_defense_key() -> (r: Vec<u8>)
    ensures
        r@ == defense_key(),
{
    vec!['d' as u8, 'e' as u8, 'f' as u8, 'e' as u8, 'n' as u8, 's' as u8, 'e' as u8]
}

/// `attack` as bytes.
fn make_attack_key() -> (r: Vec<u8>)
    ensures
        r@ == attack_key(),
{
    vec!['a' as u8, 't' as u8, 't' as u8, 'a' as u8, 'c' as u8, 'k' as u8]
}

/// The decimal digits of `n`.
pub fn make_decimal(n: u8) -> (r: Vec<u8>)
    ensures
        r@ == dec(n),
{
    if n < 10 {
        vec![48 + n]
    } else if n < 100 {
        vec![48 + n / 10, 48 + n % 10]
    } else {
        vec![48 + n / 100, 48 + (n / 10) % 10, 48 + n % 10]
    }
}

/// The attributes of a soldier with the given defense and attack.
pub fn make_soldier_attributes(defense: u8, attack: u8) -> (r: Vec<u8>)
    ensures
        r@ == soldier_attributes(defense, attack),
{
    let mut r = make_soldier_rank();
    append_bytes(&mut r, &make_defense_label());
    append_bytes(&mut r, &make_decimal(defense));
    append_bytes(&mut r, &make_attack_label());
    append_bytes(&mut r, &make_decimal(attack));
    r
}

/// Reads the defense and attack written in `attributes` as `key: value`
/// lines (0 where a line is missing).
pub fn read_stats(attributes: &Vec<u8>) -> (r: (u8, u8))
    ensures
        r == read_stats_spec(attributes@),
{
    let ghost bytes = attributes@;
    let dk = make_defense_key();
    let ak = make_attack_key();
    let mut key: Vec<u8> = Vec::new();
    let mut mode: u8 = 0;
    let mut value: u8 = 0;
    let mut defense: u8 = 0;
    let mut attack: u8 = 0;
    let n = attributes.len();
    let mut i: usize = 0;
    proof {
        assert(bytes.take(0) =~= Seq::<u8>::empty());
        assert(key@ =~= Seq::<u8>::empty());
    }
    while i < n
        invariant
            n == bytes.len(),
            bytes == attributes@,
            dk@ == defense_key(),
            ak@ == attack_key(),
            i <= n,
            scan_from(scan_start(), bytes.take(i as int))
                == (PowerScan { key: key@, mode: mode, value: value, defense: defense, attack: attack }),
        decreases n - i,
    {
        let b = attributes[i];
        proof {
            lemma_scan_concat(scan_start(), bytes.take(i as int), seq![b]);
            assert(bytes.take(i + 1) =~= bytes.take(i as int) + seq![b]);
            lemma_scan_one(scan_from(scan_start(), bytes.take(i as int)), b);
        }
        if b == 10 {
            if mode == 1 {
                defense = value;
            } else if mode == 2 {
                attack = value;
            }
            key = Vec::new();
            mode = 0;
            value = 0;
            proof {
                assert(key@ =~= Seq::<u8>::empty());
            }
        } else if mode == 0 {
            if b == 58 {
                mode = if bytes_eq(&key, &dk) {
                    1
                } else if bytes_eq(&key, &ak) {
                    2
                } else {
                    3
                };
            } else {
                key.push(b);
            }
        } else if (mode == 1 || mode == 2) && 48 <= b && b <= 57 {
            let next: u16 = (value as u16) * 10 + ((b - 48) as u16);
            value = if next > 255 {
                255
            } else {
                next as u8
            };
        }
        i = i + 1;
    }
    if mode == 1 {
        defense = value;
    } else if mode == 2 {
        attack = value;
    }
    proof {
        assert(bytes.take(n as int) =~= bytes);
    }
    (defense, attack)
}

/// The defense and attack of a soldier whose attributes are exactly as the
/// Citizen contract writes them; `None` for any other attributes.
pub fn soldier_stats_of(attributes: &Vec<u8>) -> (r: Option<(u8, u8)>)
    ensures
        r == soldier_stats(attributes@),
{
    let (d, a) = read_stats(attributes);
    if bytes_eq(attributes, &make_soldier_attributes(d, a)) {
        Some((d, a))
    } else {
        None
    }
}

} // verus!
