//! A two-party wagered rock-paper-scissors game, split into an escrow
//! coordinator (`factory`) that pools waiting players, pairs them and
//! escrows their deposits, and a per-match state machine (`game`) that
//! runs a commit-reveal protocol between the two paired players.
//!
//! Both halves are pure state machines over plain values: the ledger
//! host's identities arrive as arguments, and every outbound effect
//! (a transfer, a spawn, a teardown) is returned as an [`factory::Action`]
//! value for the surrounding host wiring to perform.

pub mod account;
pub mod errors;
pub mod factory;
pub mod game;
pub mod hashing;
