//! The options of a Saya service.

use vstd::prelude::*;

verus! {

/// The options of creating a Saya service.
#[derive(Debug)]
pub struct SayaCreateArgs {
    pub version: Option<String>,
    pub mode: String,
    pub rpc_url: String,
    pub registry: String,
    pub settlement_contract: String,
    /// The world's address, as the 32 big-endian bytes of its field element.
    pub world: Vec<u8>,
    pub start_block: Option<i64>,
    pub prover_url: String,
    pub store_proofs: Option<bool>,
    pub starknet_url: String,
    pub signer_key: String,
    pub signer_address: String,
    pub private_key: String,
    pub batch_size: Option<i64>,
}

/// The options of updating a Saya service: its version.
#[derive(Debug)]
pub struct SayaUpdateArgs {
    pub version: Option<String>,
}

} // verus!
