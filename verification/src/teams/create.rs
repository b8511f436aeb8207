//! `teams <name> create`.

use vstd::prelude::*;

verus! {

/// The options of `teams <name> create`.
#[derive(Debug)]
pub struct CreateTeamArgs {
    /// The address team notifications go to.
    pub email: String,
    /// The team's postal address.
    pub address: Option<String>,
    /// The team's tax id.
    pub tax_id: Option<String>,
}

} // verus!
