//! A verified model of program-derived-address (PDA) custody on a
//! deterministic-address ledger: a single-owner vault with
//! initialize / deposit / withdraw / close, and a two-party escrow
//! with an atomic refund path.
//!
//! The ledger itself is modelled explicitly: every instruction first
//! re-derives and checks the addresses and records it was handed, and
//! only then applies its mutations, so each instruction is all-or-nothing.

pub mod addr;
pub mod error;
pub mod pda;
pub mod ledger;
pub mod vault;
pub mod escrow;
