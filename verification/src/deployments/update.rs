//! `deployments update`.

use vstd::prelude::*;
use super::services::UpdateServiceCommands;
use super::Tier;

verus! {

/// The options of `deployments update`.
#[derive(Debug)]
pub struct UpdateArgs {
    /// The project.
    pub project: String,
    /// The new tier, if it changes.
    pub tier: Option<Tier>,
    /// The service and its new options.
    pub update_commands: UpdateServiceCommands,
}

/// The lines printed about the observability secret an update returned:
/// none where there is no secret.
pub fn observability_lines(secret: &Option<String>) -> (r: Vec<String>)
    ensures
        secret is None ==> r@.len() == 0,
        secret matches Some(s) ==> r@.len() == 3 && r@[0]@ == "\nObservability Secret: "@ + s@
            && r@[1]@ == "Save this secret - it will be needed to access Prometheus and Grafana."@
            && r@[2]@ == "The username is 'admin' and the password is the secret."@,
{
    let mut r: Vec<String> = Vec::new();
    match secret {
        Some(s) => {
            r.push(String::from_str("\nObservability Secret: ").concat(s.as_str()));
            r.push(String::from_str("Save this secret - it will be needed to access Prometheus and Grafana."));
            r.push(String::from_str("The username is 'admin' and the password is the secret."));
        },
        None => {},
    }
    r
}

} // verus!
