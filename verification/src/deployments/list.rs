//! `deployments list`: every deployment of the account's teams.

use vstd::prelude::*;

verus! {

/// The options of `deployments list` (none).
#[derive(Debug)]
pub struct ListArgs {}

/// The three lines printed for a deployment.
pub open spec fn deployment_lines(project: Seq<char>, service: Seq<char>) -> Seq<Seq<char>> {
    seq!["Project: "@ + project, "Service: "@ + service, "---"@]
}

/// Writes the lines of a deployment in the listing.
pub fn deployment_listing(project: &str, service: &str) -> (r: Vec<String>)
    ensures
        r@.map_values(|s: String| s@) == deployment_lines(project@, service@),
{
    let mut r: Vec<String> = Vec::new();
    r.push(String::from_str("Project: ").concat(project));
    r.push(String::from_str("Service: ").concat(service));
    r.push(String::from_str("---"));
    assert(r@.map_values(|s: String| s@) =~= deployment_lines(project@, service@));
    r
}

} // verus!
