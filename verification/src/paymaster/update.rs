//! `paymaster update`: replacing a paymaster's policies by a preset's.

use vstd::prelude::*;
use crate::text::{decimal, u64_to_string};

verus! {

/// The options of `paymaster update`.
#[derive(Debug)]
pub struct UpdateArgs {
    /// The paymaster's id.
    pub paymaster_id: String,
    /// The preset whose policies are applied.
    pub preset: String,
    /// The chain whose policies are taken from the preset.
    pub chain_id: String,
    /// Remove the existing policies first.
    pub replace: bool,
}

/// What the update does once the preset's policies for the chain are
/// known.
#[derive(Debug, PartialEq, Eq, Structural)]
pub enum UpdateStep {
    /// The preset has no policies for the chain: the update stops and says
    /// so.
    NoPolicies,
    /// The existing policies are fetched and removed before the preset's
    /// are added.
    RemoveExisting,
    /// The preset's policies are added at once.
    Apply,
}

impl UpdateArgs {
    /// The step after loading the preset, from the number of its policies
    /// for the chain: stop on none, else remove the existing policies first
    /// where `replace` asks for it, else apply.
    pub fn first_step(&self, policy_count: usize) -> (r: UpdateStep)
        ensures
            policy_count == 0 ==> r == UpdateStep::NoPolicies,
            policy_count > 0 && self.replace ==> r == UpdateStep::RemoveExisting,
            policy_count > 0 && !self.replace ==> r == UpdateStep::Apply,
    {
        if policy_count == 0 {
            UpdateStep::NoPolicies
        } else if self.replace {
            UpdateStep::RemoveExisting
        } else {
            UpdateStep::Apply
        }
    }
}

/// The existing policies are removed only where there are some.
pub fn removal_needed(existing_ids: &Vec<String>) -> (r: bool)
    ensures
        r == (existing_ids@.len() > 0),
{
    existing_ids.len() > 0
}

/// The line announcing how many of the preset's policies are applied.
pub fn applying_line(policy_count: u64) -> (r: String)
    ensures
        r@ == "Applying "@ + decimal(policy_count as nat) + " paymaster policies from preset..."@,
{
    String::from_str("Applying ").concat(u64_to_string(policy_count).as_str()).concat(" paymaster policies from preset...")
}

/// The closing line: the number of policies the server reports added, or
/// zero where it reports none.
pub fn updated_line(added: Option<u64>) -> (r: String)
    ensures
        r@ == "Successfully updated paymaster with "@ + decimal(
            match added {
                Some(n) => n as nat,
                None => 0,
            },
        ) + " policies from preset"@,
{
    let n: u64 = match added {
        Some(n) => n,
        None => 0,
    };
    String::from_str("Successfully updated paymaster with ").concat(u64_to_string(n).as_str()).concat(" policies from preset")
}

/// The ids of the listed policy edges that are present, in order.
pub open spec fn present_ids(edges: Seq<Option<Option<String>>>) -> Seq<Seq<char>>
    decreases edges.len(),
{
    if edges.len() == 0 {
        seq![]
    } else {
        let rest = present_ids(edges.drop_last());
        match edges.last() {
            Some(Some(id)) => rest.push(id@),
            _ => rest,
        }
    }
}

/// The ids of the existing policies, from the listed edges: edges and
/// nodes that are absent are skipped.
pub fn existing_policy_ids(edges: &Vec<Option<Option<String>>>) -> (r: Vec<String>)
    ensures
        r@.map_values(|s: String| s@) == present_ids(edges@),
{
    let mut r: Vec<String> = Vec::new();
    for i in 0..edges.len()
        invariant
            r@.map_values(|s: String| s@) == present_ids(edges@.take(i as int)),
    {
        assert(edges@.take(i + 1).drop_last() == edges@.take(i as int));
        let ghost before = r@.map_values(|s: String| s@);
        match &edges[i] {
            Some(Some(id)) => {
                r.push(id.clone());
                assert(r@.map_values(|s: String| s@) =~= before.push(id@));
            },
            _ => {},
        }
    }
    assert(edges@.take(edges.len() as int) == edges@);
    r
}

} // verus!
