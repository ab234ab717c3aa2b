//! Verified logic of the Cosmic Mad Scientist auction and swap-pool contract.

pub mod error;
pub mod env;
pub mod order;
pub mod msg;
pub mod queries;
pub mod state;
pub mod swap;
pub mod admin;
pub mod auction;
pub mod collections;
pub mod contract;
pub mod invariants;
pub mod laws;
pub mod holdings;
