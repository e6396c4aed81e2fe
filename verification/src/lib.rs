//! Accounting and packet rules of an ICS20 token bridge whose transfers can
//! carry an action (swap, pool entry and exit, lockup and staking) for the
//! receiving chain.

pub mod accounting;
pub mod ack;
pub mod amount;
pub mod binary;
pub mod codec;
pub mod contract;
pub mod error;
pub mod ibc;
pub mod ibc_msg;
pub mod json;
pub mod migrations;
pub mod msg;
pub mod query;
pub mod state;
pub mod store;
pub mod text;
pub mod timestamp;

pub use crate::error::ContractError;
