//! An incremental cache of the stake delegated to each validator.
//!
//! The cache is fed one account update at a time and keeps, for every validator whose
//! account it has seen, the sum of the amounts that the delegators it has seen delegate to
//! that validator. [`Stakes`] is the cache; [`model`] says what an update does to it and
//! what it means for the cache to be consistent; [`laws`] holds what follows for every
//! cache and every update.

pub mod account;
pub mod consistency;
pub mod delegation;
pub mod laws;
pub mod listing;
pub mod model;
pub mod programs;
pub mod pubkey;
pub mod stakes;
pub mod sum;
pub mod table;
pub mod update;

pub use crate::account::Account;
pub use crate::model::AccountKind;
pub use crate::pubkey::Pubkey;
pub use crate::stakes::Stakes;
pub use crate::table::Table;
