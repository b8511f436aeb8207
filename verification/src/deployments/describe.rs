//! `deployments describe`: a deployment's configuration.

use vstd::prelude::*;
use super::services::{service_name, Service};
use super::{service_url, service_url_text};

verus! {

/// The options of `deployments describe`.
#[derive(Debug)]
pub struct DescribeArgs {
    /// The project.
    pub project: String,
    /// The service to describe.
    pub service: Service,
}

/// The branch a deployment follows: `Default` where none is set.
pub fn branch_text(branch: &Option<String>) -> (r: String)
    ensures
        r@ == match branch { Some(b) => b@, None => "Default"@ },
{
    match branch {
        Some(b) => b.clone(),
        None => String::from_str("Default"),
    }
}

/// Whether the deprecation notice is printed: the deployment says it is
/// deprecated (an absent flag means it is not).
pub fn is_deprecated(flag: Option<bool>) -> (r: bool)
    ensures
        r == (flag == Some(true)),
{
    match flag {
        Some(b) => b,
        None => false,
    }
}

impl DescribeArgs {
    /// The address line of the description: the service's address under
    /// the deployment's project.
    pub fn url_line(&self, project: &str) -> (r: String)
        ensures
            r@ == "Url: "@ + service_url(project@, service_name(self.service)),
    {
        String::from_str("Url: ").concat(service_url_text(project, self.service.to_string().as_str()).as_str())
    }
}

} // verus!
