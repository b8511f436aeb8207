//! `teams <name> invoices`: the monthly invoices of a team.

use vstd::prelude::*;
use crate::text::str_eq;

verus! {

/// The options of `teams <name> invoices` (none).
#[derive(Debug)]
pub struct InvoicesArgs {}

/// The title of an invoice's table: the current month's is marked.
pub open spec fn invoice_title(team_name: Seq<char>, current: bool) -> Seq<char> {
    if current {
        "Invoices for team `"@ + team_name + "` (Current Month)"@
    } else {
        "Invoices for team `"@ + team_name + "`"@
    }
}

/// The title of the table of the invoice for `month`, given the current
/// month (both written `YYYY-MM`).
pub fn invoice_table_title(team_name: &str, month: &str, current_month: &str) -> (r: String)
    ensures
        r@ == invoice_title(team_name@, month@ == current_month@),
{
    if str_eq(month, current_month) {
        String::from_str("Invoices for team `").concat(team_name).concat("` (Current Month)")
    } else {
        String::from_str("Invoices for team `").concat(team_name).concat("`")
    }
}

/// The incubator stage as the invoice shows it: `None` where there is none.
pub fn incubator_stage_text(stage: &Option<String>) -> (r: String)
    ensures
        r@ == match stage { Some(s) => s@, None => "None"@ },
{
    match stage {
        Some(s) => s.clone(),
        None => String::from_str("None"),
    }
}

} // verus!
