//! The ClipCash clips NFT contract: minting clips as NFTs under a backend
//! signature, approvals and transfers, royalties, burning, and an admin
//! pause with a timelock on resuming.
//!
//! The contract's state is a plain value, [`ClipsNftContract`]; each entry
//! point is a method that reads and updates it. What the ledger host does
//! around an entry point is left to the host binding: checking that the
//! acting address authorized the call, reading the ledger sequence (passed
//! here as an argument), publishing the events that the state collects,
//! moving royalty funds, installing new contract code, and discarding every
//! change of a call that returns an error (the methods here already leave
//! the state untouched on error).

pub mod types;
pub mod events;
pub mod state;
pub mod royalty;
pub mod admin;
pub mod transfer;
pub mod mint;
pub mod laws;
pub mod parts;
