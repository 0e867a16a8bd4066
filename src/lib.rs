//! Capacity accounting driven by verified ledger payments, with tiered
//! referral rewards.

pub mod identity;
pub mod error;
pub mod ledger;
pub mod record;
pub mod service;
pub mod laws;
pub mod applications;
pub mod minting;
