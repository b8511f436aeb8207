//! `teams <name> delete`.

use vstd::prelude::*;

verus! {

/// The options of `teams <name> delete` (none).
#[derive(Debug)]
pub struct DeleteTeamArgs {}

/// The line printed after a deletion request: whether the server deleted
/// the team.
pub fn deletion_report(name: &str, deleted: bool) -> (r: String)
    ensures
        deleted ==> r@ == "Team '"@ + name@ + "' deleted successfully"@,
        !deleted ==> r@ == "Failed to delete team '"@ + name@ + "'"@,
{
    if deleted {
        String::from_str("Team '").concat(name).concat("' deleted successfully")
    } else {
        String::from_str("Failed to delete team '").concat(name).concat("'")
    }
}

} // verus!
