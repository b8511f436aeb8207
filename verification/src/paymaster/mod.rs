//! Paymasters: their policies, budgets, statistics, transactions and the
//! Dune query built from their policies.

pub mod budget;
pub mod create;
pub mod dune;
pub mod get;
pub mod info;
pub mod policy;
pub mod stats;
pub mod transactions;
pub mod update;
pub mod utils;

use vstd::prelude::*;

verus! {

/// A policy of a paymaster: the call it pays for, and optionally the call
/// that must be in the same multicall for it to apply.
#[derive(Debug)]
pub struct PolicyArgs {
    pub contract: String,
    pub entrypoint: String,
    pub trigger_contract: Option<String>,
    pub trigger_entrypoint: Option<String>,
}

/// Some policy names a trigger contract or a trigger entry point.
pub open spec fn any_trigger(policies: Seq<PolicyArgs>) -> bool {
    exists|i: int| 0 <= i < policies.len()
        && ((#[trigger] policies[i]).trigger_contract is Some || policies[i].trigger_entrypoint is Some)
}

/// An optional text, or `-` where it is absent.
pub open spec fn or_dash(o: Option<String>) -> Seq<char> {
    match o {
        Some(s) => s@,
        None => "-"@,
    }
}

/// The cells of a policy's row: two columns, or four where the table shows
/// triggers.
pub open spec fn policy_row(p: PolicyArgs, with_triggers: bool) -> Seq<Seq<char>> {
    if with_triggers {
        seq![p.contract@, p.entrypoint@, or_dash(p.trigger_contract), or_dash(p.trigger_entrypoint)]
    } else {
        seq![p.contract@, p.entrypoint@]
    }
}

/// The header of the policy table.
pub open spec fn policy_header(with_triggers: bool) -> Seq<Seq<char>> {
    if with_triggers {
        seq!["Contract Address"@, "Entry Point"@, "Trigger Contract"@, "Trigger Entry Point"@]
    } else {
        seq!["Contract Address"@, "Entry Point"@]
    }
}

/// The cell texts of a table row.
pub open spec fn cells(row: Vec<String>) -> Seq<Seq<char>> {
    row@.map_values(|c: String| c@)
}

/// A table of text cells: a header and rows.
#[derive(Debug)]
pub struct TextTable {
    pub header: Vec<String>,
    pub rows: Vec<Vec<String>>,
}

fn text_cells(a: &str, b: &str) -> (r: Vec<String>)
    ensures
        cells(r) == seq![a@, b@],
{
    let mut r: Vec<String> = Vec::new();
    r.push(String::from_str(a));
    r.push(String::from_str(b));
    assert(cells(r) =~= seq![a@, b@]);
    r
}

/// An optional text, or `-` where it is absent.
pub fn or_dash_text(o: &Option<String>) -> (r: String)
    ensures
        r@ == or_dash(*o),
{
    match o {
        Some(s) => s.clone(),
        None => String::from_str("-"),
    }
}

fn has_trigger(policies: &Vec<PolicyArgs>) -> (r: bool)
    ensures
        r == any_trigger(policies@),
{
    for i in 0..policies.len()
        invariant
            forall|k: int| 0 <= k < i ==> (#[trigger] policies@[k]).trigger_contract is None
                && policies@[k].trigger_entrypoint is None,
    {
        if policies[i].trigger_contract.is_some() || policies[i].trigger_entrypoint.is_some() {
            assert((policies@[i as int]).trigger_contract is Some || policies@[i as int].trigger_entrypoint is Some);
            return true;
        }
    }
    false
}

/// The table that lists policies: the trigger columns appear exactly when
/// some policy has a trigger, and a missing trigger reads `-`.
pub fn policies_table(policies: &Vec<PolicyArgs>) -> (t: TextTable)
    ensures
        cells(t.header) == policy_header(any_trigger(policies@)),
        t.rows@.len() == policies@.len(),
        forall|i: int| 0 <= i < t.rows@.len() ==>
            cells(#[trigger] t.rows@[i]) == policy_row(policies@[i], any_trigger(policies@)),
{
    let triggers = has_trigger(policies);
    let header = if triggers {
        let mut h: Vec<String> = Vec::new();
        h.push(String::from_str("Contract Address"));
        h.push(String::from_str("Entry Point"));
        h.push(String::from_str("Trigger Contract"));
        h.push(String::from_str("Trigger Entry Point"));
        assert(cells(h) =~= policy_header(true));
        h
    } else {
        text_cells("Contract Address", "Entry Point")
    };
    let mut rows: Vec<Vec<String>> = Vec::new();
    for i in 0..policies.len()
        invariant
            triggers == any_trigger(policies@),
            rows@.len() == i,
            forall|k: int| 0 <= k < i ==> cells(#[trigger] rows@[k]) == policy_row(policies@[k], triggers),
    {
        let p = &policies[i];
        let mut row: Vec<String> = Vec::new();
        row.push(p.contract.clone());
        row.push(p.entrypoint.clone());
        if triggers {
            row.push(or_dash_text(&p.trigger_contract));
            row.push(or_dash_text(&p.trigger_entrypoint));
        }
        assert(cells(row) =~= policy_row(policies@[i as int], triggers));
        rows.push(row);
    }
    TextTable { header, rows }
}

/// The paymaster operations.
#[derive(Debug)]
pub enum PaymasterSubcommand {
    Create(create::CreateArgs),
    Update(update::UpdateArgs),
    Policy(policy::PolicyCmd),
    Budget(budget::BudgetCmd),
    Stats(stats::StatsArgs),
    Info(info::InfoArgs),
    Transactions(transactions::TransactionArgs),
    Dune(dune::DuneArgs),
}

/// The options of `paymaster`: the paymaster's name and the operation.
#[derive(Debug)]
pub struct PaymasterCmd {
    pub name: String,
    pub command: PaymasterSubcommand,
}

} // verus!
