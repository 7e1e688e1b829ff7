//! The fixed names, prefixes and attribute texts that the contracts use.

use vstd::prelude::*;

verus! {

/// `WOOD-`: the prefix of WOOD token identifiers.
pub open spec fn wood_prefix() -> Seq<u8> {
    seq!['W' as u8, 'O' as u8, 'O' as u8, 'D' as u8, '-' as u8]
}

/// Builds `wood_prefix()`.
pub fn make_wood_prefix() -> (r: Vec<u8>)
    ensures
        r@ == wood_prefix(),
{
    vec!['W' as u8, 'O' as u8, 'O' as u8, 'D' as u8, '-' as u8]
}

/// `FOOD-`: the prefix of FOOD token identifiers.
pub open spec fn food_prefix() -> Seq<u8> {
    seq!['F' as u8, 'O' as u8, 'O' as u8, 'D' as u8, '-' as u8]
}

/// Builds `food_prefix()`.
pub fn make_food_prefix() -> (r: Vec<u8>)
    ensures
        r@ == food_prefix(),
{
    vec!['F' as u8, 'O' as u8, 'O' as u8, 'D' as u8, '-' as u8]
}

/// `GOLD-`: the prefix of GOLD token identifiers.
pub open spec fn gold_prefix() -> Seq<u8> {
    seq!['G' as u8, 'O' as u8, 'L' as u8, 'D' as u8, '-' as u8]
}

/// Builds `gold_prefix()`.
pub fn make_gold_prefix() -> (r: Vec<u8>)
    ensures
        r@ == gold_prefix(),
{
    vec!['G' as u8, 'O' as u8, 'L' as u8, 'D' as u8, '-' as u8]
}

/// `ORE-`: the prefix of ORE token identifiers.
pub open spec fn ore_prefix() -> Seq<u8> {
    seq!['O' as u8, 'R' as u8, 'E' as u8, '-' as u8]
}

/// Builds `ore_prefix()`.
pub fn make_ore_prefix() -> (r: Vec<u8>)
    ensures
        r@ == ore_prefix(),
{
    vec!['O' as u8, 'R' as u8, 'E' as u8, '-' as u8]
}

/// `STONE-`: the prefix of STONE token identifiers.
pub open spec fn stone_prefix() -> Seq<u8> {
    seq!['S' as u8, 'T' as u8, 'O' as u8, 'N' as u8, 'E' as u8, '-' as u8]
}

/// Builds `stone_prefix()`.
pub fn make_stone_prefix() -> (r: Vec<u8>)
    ensures
        r@ == stone_prefix(),
{
    vec!['S' as u8, 'T' as u8, 'O' as u8, 'N' as u8, 'E' as u8, '-' as u8]
}

/// `TOOL`: the prefix of TOOL (shield and sword) token identifiers.
pub open spec fn tool_prefix() -> Seq<u8> {
    seq!['T' as u8, 'O' as u8, 'O' as u8, 'L' as u8]
}

/// Builds `tool_prefix()`.
pub fn make_tool_prefix() -> (r: Vec<u8>)
    ensures
        r@ == tool_prefix(),
{
    vec!['T' as u8, 'O' as u8, 'O' as u8, 'L' as u8]
}

/// `rank: soldier`: the first line of a soldier's attributes.
pub open spec fn soldier_rank() -> Seq<u8> {
    seq!['r' as u8, 'a' as u8, 'n' as u8, 'k' as u8, ':' as u8, ' ' as u8, 's' as u8, 'o' as u8, 'l' as u8, 'd' as u8, 'i' as u8, 'e' as u8, 'r' as u8]
}

/// Builds `soldier_rank()`.
pub fn make_soldier_rank() -> (r: Vec<u8>)
    ensures
        r@ == soldier_rank(),
{
    vec!['r' as u8, 'a' as u8, 'n' as u8, 'k' as u8, ':' as u8, ' ' as u8, 's' as u8, 'o' as u8, 'l' as u8, 'd' as u8, 'i' as u8, 'e' as u8, 'r' as u8]
}

/// `CITIZEN`: the name of a minted citizen NFT.
pub open spec fn citizen_name() -> Seq<u8> {
    seq!['C' as u8, 'I' as u8, 'T' as u8, 'I' as u8, 'Z' as u8, 'E' as u8, 'N' as u8]
}

/// Builds `citizen_name()`.
pub fn make_citizen_name() -> (r: Vec<u8>)
    ensures
        r@ == citizen_name(),
{
    vec!['C' as u8, 'I' as u8, 'T' as u8, 'I' as u8, 'Z' as u8, 'E' as u8, 'N' as u8]
}

/// `SHIELD`: the name of a minted shield NFT.
pub open spec fn shield_name() -> Seq<u8> {
    seq!['S' as u8, 'H' as u8, 'I' as u8, 'E' as u8, 'L' as u8, 'D' as u8]
}

/// Builds `shield_name()`.
pub fn make_shield_name() -> (r: Vec<u8>)
    ensures
        r@ == shield_name(),
{
    vec!['S' as u8, 'H' as u8, 'I' as u8, 'E' as u8, 'L' as u8, 'D' as u8]
}

/// `SWORD`: the name of a minted sword NFT.
pub open spec fn sword_name() -> Seq<u8> {
    seq!['S' as u8, 'W' as u8, 'O' as u8, 'R' as u8, 'D' as u8]
}

/// Builds `sword_name()`.
pub fn make_sword_name() -> (r: Vec<u8>)
    ensures
        r@ == sword_name(),
{
    vec!['S' as u8, 'W' as u8, 'O' as u8, 'R' as u8, 'D' as u8]
}

/// `WINTER`: the ticker of the token that can be staked.
pub open spec fn winter_ticker() -> Seq<u8> {
    seq!['W' as u8, 'I' as u8, 'N' as u8, 'T' as u8, 'E' as u8, 'R' as u8]
}

/// Builds `winter_ticker()`.
pub fn make_winter_ticker() -> (r: Vec<u8>)
    ensures
        r@ == winter_ticker(),
{
    vec!['W' as u8, 'I' as u8, 'N' as u8, 'T' as u8, 'E' as u8, 'R' as u8]
}

/// `FOOD`: the FOOD resource type.
pub open spec fn food_type() -> Seq<u8> {
    seq!['F' as u8, 'O' as u8, 'O' as u8, 'D' as u8]
}

/// Builds `food_type()`.
pub fn make_food_type() -> (r: Vec<u8>)
    ensures
        r@ == food_type(),
{
    vec!['F' as u8, 'O' as u8, 'O' as u8, 'D' as u8]
}

/// `WOOD`: the WOOD resource type.
pub open spec fn wood_type() -> Seq<u8> {
    seq!['W' as u8, 'O' as u8, 'O' as u8, 'D' as u8]
}

/// Builds `wood_type()`.
pub fn make_wood_type() -> (r: Vec<u8>)
    ensures
        r@ == wood_type(),
{
    vec!['W' as u8, 'O' as u8, 'O' as u8, 'D' as u8]
}

/// `STONE`: the STONE resource type.
pub open spec fn stone_type() -> Seq<u8> {
    seq!['S' as u8, 'T' as u8, 'O' as u8, 'N' as u8, 'E' as u8]
}

/// Builds `stone_type()`.
pub fn make_stone_type() -> (r: Vec<u8>)
    ensures
        r@ == stone_type(),
{
    vec!['S' as u8, 'T' as u8, 'O' as u8, 'N' as u8, 'E' as u8]
}

/// `GOLD`: the GOLD resource type.
pub open spec fn gold_type() -> Seq<u8> {
    seq!['G' as u8, 'O' as u8, 'L' as u8, 'D' as u8]
}

/// Builds `gold_type()`.
pub fn make_gold_type() -> (r: Vec<u8>)
    ensures
        r@ == gold_type(),
{
    vec!['G' as u8, 'O' as u8, 'L' as u8, 'D' as u8]
}

} // verus!
