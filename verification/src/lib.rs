//! A token whose amounts are hidden inside Pedersen commitments on the Ristretto
//! group.
//!
//! The ledger consists of one-time accounts that hold one commitment each. Minting
//! creates a commitment under the authority of a mint; a transfer consumes two
//! commitments and produces two new ones whose hidden values balance; closing an
//! account opens its commitment. This crate holds the commitment scheme and the proof
//! of knowledge (`scalar`, `ristretto`, `crypto`, `proofs`), the payloads and
//! instructions with their wire format (`txdata`, `instruction`, `wire`), the records
//! and the handlers of the program (`state`, `processor`), and the two clients that
//! build a transfer between them (`client`).

#![allow(non_snake_case)]

pub mod bytes;
pub mod client;
pub mod crypto;
pub mod error;
pub mod instruction;
pub mod modular;
pub mod processor;
pub mod proofs;
pub mod pubkey;
pub mod ristretto;
pub mod scalar;
pub mod state;
pub mod txdata;
pub mod wire;

pub use crate::instruction::{check_id, id};
