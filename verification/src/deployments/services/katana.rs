//! The options of a Katana service.

use vstd::prelude::*;

verus! {

/// The options of creating a Katana service.
#[derive(Debug)]
pub struct KatanaCreateArgs {
    /// The configuration file (TOML).
    pub config: Option<String>,
    /// Run in provable mode.
    pub provable: bool,
    /// The network, in provable mode.
    pub network: Option<String>,
    /// Start a Saya instance beside the provable Katana.
    pub saya: bool,
}

/// The options of updating a Katana service: a new configuration file.
#[derive(Debug)]
pub struct KatanaUpdateArgs {
    pub config: Option<String>,
}

/// The options of listing a Katana service's accounts (none).
#[derive(Debug)]
pub struct KatanaAccountArgs {}

} // verus!
