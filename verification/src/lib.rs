//! Escrow-backed tournaments decided by a panel of verifiers.
//!
//! Participants and teams pay entry fees into a pooled balance, a panel of
//! verifiers votes a tournament through its phases, and on a terminal phase
//! the pool is either split between the organizer and the winners or paid
//! back. The crate holds the rules of that lifecycle as functions from the
//! current records to the next ones; moving funds and storing records is left
//! to the caller, who is handed the amounts to move.

pub mod bloom;
pub mod claims;
pub mod consensus;
pub mod data;
pub mod error;
pub mod escrow;
pub mod platform;
pub mod pubkey;
pub mod roles;
pub mod team;
pub mod tournament;
pub mod winner;
