//! Verified state machine of a data-coalition contract: DAO registration,
//! staking, board membership, data categories and delegation bookkeeping.

pub mod address;
pub mod storage;
pub mod amount;
pub mod types;
pub mod state;
pub mod config;
pub mod dao;
pub mod aggregate;
pub mod category;
pub mod stake;
pub mod board;
pub mod coalition;
pub mod laws;

pub use crate::coalition::DataCoalition;
pub use crate::types::Info;
pub mod effects;
