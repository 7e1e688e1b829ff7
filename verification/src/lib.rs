//! Verified game logic of a family of MultiversX smart contracts: staking
//! WINTER tokens, generating and claiming resources, crafting citizens and
//! tools, and arena fights between soldier NFTs.
//!
//! Every endpoint is a decision function: it takes the contract's state and
//! what the chain tells about the call (caller, payments, block data), and
//! either returns the actions to perform (mint, burn, send, issue) together
//! with the new state, or an error, in which case the state is left as it was
//! (a failed transaction is reverted).

pub mod bytes;
pub mod store;
pub mod esdt;
pub mod tokens;
pub mod attributes;
pub mod citizen;
pub mod arena;
pub mod blacksmith;
pub mod ore;
pub mod food;
pub mod wood;
pub mod resource;
pub mod snow;
pub mod staking;
pub mod staking_sc;
