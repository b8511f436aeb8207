//! `teams <name> update`.

use vstd::prelude::*;

verus! {

/// The options of `teams <name> update`.
#[derive(Debug)]
pub struct UpdateTeamArgs {
    /// The new address for team notifications.
    pub email: Option<String>,
}

} // verus!
