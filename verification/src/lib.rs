//! Liquidity-provisioning core of a concentrated-liquidity market maker.
//!
//! A pool holds two tokens and lets liquidity be supplied over a chosen range
//! of ticks. This crate decides what one deposit does: which records change,
//! how many tokens the depositor owes, and how many pool shares are minted in
//! return. Moving the tokens is left to the caller.

pub mod error;
pub mod instructions;
pub mod ledger;
pub mod shares;
pub mod state;
pub mod utils;
