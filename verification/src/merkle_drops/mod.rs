//! Merkle drops: reward computation over holder snapshots, snapshot
//! assembly and the validation of claim data.

pub mod create;
pub mod process;
pub mod snapshot;

use vstd::prelude::*;

verus! {

/// The merkle drop operations.
#[derive(Debug)]
pub enum MerkleDropsCmd {
    Snapshot(snapshot::SnapshotArgs),
    Process(process::ProcessArgs),
    Create(create::CreateArgs),
}

} // verus!
