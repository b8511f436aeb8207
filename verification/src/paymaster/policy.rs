//! `paymaster policy`: adding, listing and removing the policies of a
//! paymaster.

use vstd::prelude::*;
use super::PolicyArgs;
use crate::text::{eq_ignore_ascii_case, eq_ignore_ascii_case_chars, to_chars, trim, trim_chars};

verus! {

/// The options of `paymaster policy add-from-json`.
#[derive(Debug)]
pub struct AddJsonPolicyArgs {
    /// The JSON file with the policies.
    pub file: String,
}

/// The options of `paymaster policy add-from-preset`.
#[derive(Debug)]
pub struct AddPresetPolicyArgs {
    /// The preset's name.
    pub name: String,
}

/// The options of `paymaster policy remove`.
#[derive(Debug)]
pub struct RemovePolicyArgs {
    /// The ids of the policies to remove.
    pub policy_ids: Vec<String>,
}

/// The options of `paymaster policy remove-all` (none).
#[derive(Debug)]
pub struct RemoveAllArgs {}

/// The options of `paymaster policy list` (none).
#[derive(Debug)]
pub struct ListPolicyArgs {}

/// The policy operations.
#[derive(Debug)]
pub enum PolicySubcommand {
    Add(PolicyArgs),
    AddFromPreset(AddPresetPolicyArgs),
    AddFromJson(AddJsonPolicyArgs),
    Remove(RemovePolicyArgs),
    RemoveAll(RemoveAllArgs),
    List(ListPolicyArgs),
}

/// The options of `paymaster policy`.
#[derive(Debug)]
pub struct PolicyCmd {
    pub command: PolicySubcommand,
}

/// The answer to the removal prompt confirms it: `y` in either case, with
/// surrounding white space ignored.
pub open spec fn confirms(answer: Seq<char>) -> bool {
    eq_ignore_ascii_case(trim(answer), "y"@)
}

/// Whether the answer typed at `Remove all policies ...? [y/N]` confirms
/// the removal; anything else cancels it.
pub fn removal_confirmed(answer: &str) -> (r: bool)
    ensures
        r == confirms(answer@),
{
    let t = trim_chars(&to_chars(answer));
    let y = to_chars("y");
    eq_ignore_ascii_case_chars(&t, &y)
}

/// A policy the server reports: its contract and entry point.
#[derive(Debug)]
pub struct ReportedPolicy {
    pub contract_address: String,
    pub entry_point: String,
}

/// The policies the server reports, as the policy table lists them
/// (without triggers).
pub fn reported_policy_args(policies: &Vec<ReportedPolicy>) -> (r: Vec<PolicyArgs>)
    ensures
        r@.len() == policies@.len(),
        forall|i: int| 0 <= i < r@.len() ==> (#[trigger] r@[i]).contract@ == policies@[i].contract_address@
            && r@[i].entrypoint@ == policies@[i].entry_point@
            && r@[i].trigger_contract is None && r@[i].trigger_entrypoint is None,
{
    let mut r: Vec<PolicyArgs> = Vec::new();
    for i in 0..policies.len()
        invariant
            r@.len() == i,
            forall|k: int| 0 <= k < i ==> (#[trigger] r@[k]).contract@ == policies@[k].contract_address@
                && r@[k].entrypoint@ == policies@[k].entry_point@
                && r@[k].trigger_contract is None && r@[k].trigger_entrypoint is None,
    {
        r.push(PolicyArgs {
            contract: policies[i].contract_address.clone(),
            entrypoint: policies[i].entry_point.clone(),
            trigger_contract: None,
            trigger_entrypoint: None,
        });
    }
    r
}

} // verus!
