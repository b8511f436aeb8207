//! `rpc whitelist`: the origins allowed to call a team's RPC.

use vstd::prelude::*;

verus! {

/// The options of `rpc whitelist add`.
#[derive(Debug)]
pub struct AddArgs {
    /// The origin to allow.
    pub origin: String,
    /// The team the origin is allowed for.
    pub team: String,
}

/// The options of `rpc whitelist remove`.
#[derive(Debug)]
pub struct RemoveArgs {
    /// The id of the allowed origin.
    pub id: String,
}

/// The options of `rpc whitelist list`.
#[derive(Debug)]
pub struct ListArgs {
    /// The team whose origins are listed.
    pub team: String,
}

/// The whitelist operations.
#[derive(Debug)]
pub enum WhitelistSubcommand {
    Add(AddArgs),
    Remove(RemoveArgs),
    List(ListArgs),
}

/// The options of `rpc whitelist`.
#[derive(Debug)]
pub struct WhitelistCmd {
    pub command: WhitelistSubcommand,
}

/// The rate limit given to a newly allowed origin, in requests per minute.
pub const DEFAULT_RATE_LIMIT_PER_MINUTE: i64 = 60;

/// What allowing an origin sends.
#[derive(Debug)]
pub struct CorsDomainRequest {
    pub team_name: String,
    pub domain: String,
    pub rate_limit_per_minute: Option<i64>,
}

impl AddArgs {
    /// The request of `rpc whitelist add`: the origin for the team, at the
    /// default rate limit.
    pub fn request(&self) -> (r: CorsDomainRequest)
        ensures
            r.team_name@ == self.team@,
            r.domain@ == self.origin@,
            r.rate_limit_per_minute == Some(60i64),
    {
        CorsDomainRequest {
            team_name: self.team.clone(),
            domain: self.origin.clone(),
            rate_limit_per_minute: Some(DEFAULT_RATE_LIMIT_PER_MINUTE),
        }
    }
}

} // verus!
