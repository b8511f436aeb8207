//! `auth info`: the account's credits and teams.

use vstd::prelude::*;
use crate::text::{decimal_point, decimal_point_text, div_toward_zero, i64_div_toward_zero, i64_to_string, signed_decimal, str_eq};

verus! {

/// The options of `auth info` (none).
#[derive(Debug)]
pub struct InfoArgs {}

/// Credits written as dollars with two decimals: `$` and the amount in
/// hundredths.
pub open spec fn usd_text(credits: i64) -> Seq<char> {
    "$"@ + decimal_point(credits as int, 100, 2)
}

/// Writes an amount of credits (hundredths of a dollar) as dollars with two
/// decimals, as in `$1.02` or `$-0.05`.
pub fn format_usd(credits: i64) -> (r: String)
    ensures
        r@ == usd_text(credits),
{
    String::from_str("$").concat(decimal_point_text(credits, 100, 2).as_str())
}

/// A team's credits in whole units: the stored amount has six decimals,
/// and the fraction is dropped toward zero.
pub open spec fn team_credit_units(credits: i64) -> int {
    div_toward_zero(credits as int, 1000000)
}

/// A team's credits in whole units, as the report shows them.
pub fn team_credits(credits: i64) -> (r: i64)
    ensures
        r == team_credit_units(credits),
{
    i64_div_toward_zero(credits, 1000000)
}

/// The account's credit line: the credits and their dollar value.
pub open spec fn account_credit_line(credits: i64) -> Seq<char> {
    "Credits: "@ + signed_decimal(credits as int) + " ("@ + usd_text(credits) + ")"@
}

/// Writes the account's credit line.
pub fn account_credits_text(credits: i64) -> (r: String)
    ensures
        r@ == account_credit_line(credits),
{
    String::from_str("Credits: ").concat(i64_to_string(credits).as_str()).concat(" (")
        .concat(format_usd(credits).as_str()).concat(")")
}

/// A team's credit line: its whole credits, and those whole credits read
/// as hundredths of a dollar.
pub open spec fn team_credit_line(credits: i64) -> Seq<char> {
    let whole = team_credit_units(credits);
    "  Credits: "@ + signed_decimal(whole) + " ("@ + usd_text(whole as i64) + ")"@
}

/// Writes a team's credit line.
pub fn team_credits_text(credits: i64) -> (r: String)
    ensures
        r@ == team_credit_line(credits),
{
    let whole = team_credits(credits);
    String::from_str("  Credits: ").concat(i64_to_string(whole).as_str()).concat(" (")
        .concat(format_usd(whole).as_str()).concat(")")
}

/// The note under `Teams:` for an account without teams; `None` where it
/// has some.
pub fn no_teams_line(team_count: usize) -> (r: Option<String>)
    ensures
        team_count == 0 ==> (r matches Some(t) && t@ == "  No teams yet"@),
        team_count > 0 ==> r is None,
{
    if team_count == 0 {
        Some(String::from_str("  No teams yet"))
    } else {
        None
    }
}

/// A deployment of a team as the report lists it.
#[derive(Debug)]
pub struct TeamDeployment {
    /// The deployment's status, as its name is written.
    pub status: String,
    pub project: String,
    pub service_id: String,
}

/// The report's lines for the deployments that are not deleted.
pub open spec fn deployment_lines(deps: Seq<TeamDeployment>) -> Seq<Seq<char>>
    decreases deps.len(),
{
    if deps.len() == 0 {
        seq![]
    } else {
        let rest = deployment_lines(deps.drop_last());
        let d = deps.last();
        if d.status@ == "deleted"@ {
            rest
        } else {
            rest.push("    Deployment: "@ + d.project@ + "/"@ + d.service_id@)
        }
    }
}

/// The lines listing a team's deployments: those not deleted, or a note
/// that there are none.
pub fn team_deployment_lines(deps: &Vec<TeamDeployment>) -> (r: Vec<String>)
    ensures
        deployment_lines(deps@).len() == 0 ==> r@.map_values(|s: String| s@) == seq!["    No deployments yet"@],
        deployment_lines(deps@).len() > 0 ==> r@.map_values(|s: String| s@) == deployment_lines(deps@),
{
    let mut r: Vec<String> = Vec::new();
    for i in 0..deps.len()
        invariant
            r@.map_values(|s: String| s@) == deployment_lines(deps@.take(i as int)),
    {
        assert(deps@.take(i + 1).drop_last() == deps@.take(i as int));
        let ghost before = r@.map_values(|s: String| s@);
        let d = &deps[i];
        if !str_eq(d.status.as_str(), "deleted") {
            r.push(String::from_str("    Deployment: ").concat(d.project.as_str()).concat("/").concat(d.service_id.as_str()));
            assert(r@.map_values(|s: String| s@) =~= before.push("    Deployment: "@ + d.project@ + "/"@ + d.service_id@));
        }
    }
    assert(deps@.take(deps.len() as int) == deps@);
    if r.len() == 0 {
        r.push(String::from_str("    No deployments yet"));
        assert(r@.map_values(|s: String| s@) =~= seq!["    No deployments yet"@]);
    }
    r
}

} // verus!
