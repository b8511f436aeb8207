//! `teams <name> balance`: a team's dollar and STRK balances.

use vstd::prelude::*;
use crate::text::{decimal_point, decimal_point_text};

verus! {

/// The options of `teams <name> balance` (none).
#[derive(Debug)]
pub struct BalanceArgs {}

/// A STRK amount kept with six decimals, written with all six.
pub open spec fn strk_text(strk: i64) -> Seq<char> {
    decimal_point(strk as int, 1000000, 6)
}

/// Writes a STRK balance, as in `1.500000` or `-0.000001`.
pub fn format_strk(strk: i64) -> (r: String)
    ensures
        r@ == strk_text(strk),
{
    decimal_point_text(strk, 1000000, 6)
}

/// The header of the balance table.
pub fn balance_title(team_name: &str) -> (r: String)
    ensures
        r@ == "Balance for team `"@ + team_name@ + "`"@,
{
    String::from_str("Balance for team `").concat(team_name).concat("`")
}

} // verus!
