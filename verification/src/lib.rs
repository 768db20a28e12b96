//! Bridge configuration orchestrator for a hub chain connected to several
//! independently-failing bridged chains.
//!
//! A declarative configuration describes, per chain, a token mapping,
//! relayer set and transfer parameters. The library turns that
//! configuration into per-chain operations, runs them sequentially or
//! concurrently with isolated failures, and reconciles observed on-chain
//! state against the declared one. All remote effects are modelled as a
//! pure state machine over a [`engine::World`] of per-chain remote states;
//! an unverified front end performs the actual network calls and mirrors
//! the machine's decisions.

pub mod config;
pub mod decimal;
pub mod errors;
pub mod ops;
pub mod orchestrator;
pub mod engine;
pub mod state;
