//! Teams: their members, balances and invoices.

pub mod balance;
pub mod create;
pub mod delete;
pub mod invoices;
pub mod list;
pub mod members;
pub mod update;

use vstd::prelude::*;

verus! {

/// The team operations.
#[derive(Debug)]
pub enum TeamsCommands {
    Create(create::CreateTeamArgs),
    Update(update::UpdateTeamArgs),
    Delete(delete::DeleteTeamArgs),
    List(members::TeamListArgs),
    Add(members::TeamAddArgs),
    Remove(members::TeamRemoveArgs),
}

/// The options of `teams`: the team's name and the operation.
#[derive(Debug)]
pub struct Teams {
    pub name: String,
    pub teams_commands: TeamsCommands,
}

} // verus!
