//! `paymasters`: the paymasters of every team of the account.

pub mod list;
