//! `paymasters list`: one row per paymaster with its team and budget.

use vstd::prelude::*;
use crate::paymaster::info::BudgetFeeUnit;
use crate::text::{decimal_point, decimal_point_text, div_toward_zero, i64_div_toward_zero, i64_to_string, signed_decimal};

verus! {

/// The options of `paymasters list` (none).
#[derive(Debug)]
pub struct ListArgs {}

/// The number of budget units in one displayed unit: budgets are kept with
/// six decimals.
pub const BUDGET_DECIMALS: i64 = 1_000_000;

/// A budget as the listing shows it: the whole units (fraction dropped
/// toward zero); credits are shown as dollars with two decimals.
pub open spec fn budget_text(unit: BudgetFeeUnit, budget: i64) -> Seq<char> {
    let whole = div_toward_zero(budget as int, 1000000);
    match unit {
        BudgetFeeUnit::Credit => "$"@ + decimal_point(whole, 100, 2) + " USD"@,
        BudgetFeeUnit::Strk => signed_decimal(whole) + " STRK"@,
        BudgetFeeUnit::Other => signed_decimal(whole) + " UNKNOWN"@,
    }
}

/// Writes a paymaster's budget for the listing.
pub fn format_budget(unit: BudgetFeeUnit, budget: i64) -> (r: String)
    ensures
        r@ == budget_text(unit, budget),
{
    let whole = i64_div_toward_zero(budget, 1000000);
    match unit {
        BudgetFeeUnit::Credit => String::from_str("$").concat(decimal_point_text(whole, 100, 2).as_str()).concat(" USD"),
        BudgetFeeUnit::Strk => i64_to_string(whole).concat(" STRK"),
        BudgetFeeUnit::Other => i64_to_string(whole).concat(" UNKNOWN"),
    }
}

/// A paymaster as the listing shows it.
#[derive(Debug)]
pub struct PaymasterLine {
    pub name: String,
    pub team: String,
    pub unit: BudgetFeeUnit,
    pub budget: i64,
    pub active: bool,
}

/// The cells of a paymaster's row: name, team, budget and activity.
pub fn paymaster_row(p: &PaymasterLine) -> (r: Vec<String>)
    ensures
        r@.len() == 4,
        r@[0]@ == p.name@,
        r@[1]@ == p.team@,
        r@[2]@ == budget_text(p.unit, p.budget),
        r@[3]@ == if p.active { "true"@ } else { "false"@ },
{
    let mut r: Vec<String> = Vec::new();
    r.push(p.name.clone());
    r.push(p.team.clone());
    r.push(format_budget(p.unit, p.budget));
    r.push(if p.active { String::from_str("true") } else { String::from_str("false") });
    r
}

} // verus!
