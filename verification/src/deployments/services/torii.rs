//! The options of a Torii service.

use vstd::prelude::*;

verus! {

/// The options of creating a Torii service.
#[derive(Debug)]
pub struct ToriiCreateArgs {
    /// The configuration file (TOML).
    pub config: String,
    /// The number of replicas.
    pub replicas: Option<i64>,
    /// The Torii version.
    pub version: Option<String>,
    /// Replicate the database with litestream.
    pub replication: bool,
}

/// The options of updating a Torii service.
#[derive(Debug)]
pub struct ToriiUpdateArgs {
    pub replicas: Option<i64>,
    pub version: Option<String>,
    pub config: Option<String>,
}

} // verus!
