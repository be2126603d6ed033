//! Burn-to-vote: the computational core of an anonymous voting protocol in
//! which voters burn tokens to addresses derived from Poseidon commitments.

pub mod arith;
pub mod uint;
pub mod field;
pub mod merkle;
pub mod config;
pub mod circuits;
pub mod mpt;
pub mod onchain;
pub mod commands;
