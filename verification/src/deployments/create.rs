//! `deployments create`.

use vstd::prelude::*;
use super::services::CreateServiceCommands;
use super::{service_url, service_url_text, Tier};

verus! {

/// The options of `deployments create`.
#[derive(Debug)]
pub struct CreateArgs {
    /// The project.
    pub project: String,
    /// The team; the one named after the user where absent.
    pub team: Option<String>,
    /// The tier.
    pub tier: Tier,
    /// The regions to deploy to.
    pub regions: Option<Vec<String>>,
    /// Write the service configuration to this file instead of deploying.
    pub output_service_config: Option<String>,
    /// The service and its options.
    pub create_commands: CreateServiceCommands,
    /// Skip the cost confirmation.
    pub force: bool,
}

/// The name of the service a creation deploys.
pub open spec fn created_service_name(c: CreateServiceCommands) -> Seq<char> {
    match c {
        CreateServiceCommands::Katana(_) => "katana"@,
        CreateServiceCommands::Torii(_) => "torii"@,
        CreateServiceCommands::Saya(_) => "saya"@,
    }
}

impl CreateArgs {
    /// The line printed when the deployment starts.
    pub fn deploying_line(&self) -> (r: String)
        ensures
            r@ == "Deploying "@ + service_url(self.project@, created_service_name(self.create_commands)) + " ..."@,
    {
        let service = match &self.create_commands {
            CreateServiceCommands::Katana(_) => "katana",
            CreateServiceCommands::Torii(_) => "torii",
            CreateServiceCommands::Saya(_) => "saya",
        };
        String::from_str("Deploying ").concat(service_url_text(self.project.as_str(), service).as_str()).concat(" ...")
    }

    /// The hint printed after the deployment succeeded.
    pub fn logs_hint(&self) -> (r: String)
        ensures
            r@ == "\nStream logs with `slot deployments logs "@ + self.project@ + " "@
                + created_service_name(self.create_commands) + " -f`"@,
    {
        let service = match &self.create_commands {
            CreateServiceCommands::Katana(_) => "katana",
            CreateServiceCommands::Torii(_) => "torii",
            CreateServiceCommands::Saya(_) => "saya",
        };
        String::from_str("\nStream logs with `slot deployments logs ").concat(self.project.as_str())
            .concat(" ").concat(service).concat(" -f`")
    }
}

} // verus!
