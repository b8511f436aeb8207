//! Verified core of the Slot command line tool: argument parsing, reward
//! computation, report formatting and the decisions that the commands take
//! between their network calls.

pub mod auth;
pub mod deployments;
pub mod json;
pub mod merkle_drops;
pub mod paymaster;
pub mod paymasters;
pub mod rpc;
pub mod teams;
pub mod text;
