//! ClipCash: a verified model of the ClipCash clips NFT contract and of the
//! webhook delivery service that accompanies it.
#![allow(unused_imports)]

pub mod address;
pub mod digest;
pub mod error;
pub mod table;
pub mod xdr;
pub mod nft;
pub mod webhook;

pub use error::Error;
