//! `auth transfer`: moving credits from the account to a team.

use vstd::prelude::*;
use crate::text::{i64_to_string, signed_decimal};

verus! {

/// The options of `auth transfer`.
#[derive(Debug)]
pub struct TransferArgs {
    /// The team that receives the funds.
    pub team: String,
    /// The amount to transfer.
    pub amount: i64,
}

/// The balances before and after a transfer.
#[derive(Debug)]
pub struct TransferBalances {
    pub account_before: i64,
    pub account_after: i64,
    pub team_before: i64,
    pub team_after: i64,
}

/// A balance change as the report writes it: `$before -> $after`.
pub open spec fn balance_change(before: i64, after: i64) -> Seq<char> {
    "$"@ + signed_decimal(before as int) + " -> $"@ + signed_decimal(after as int)
}

fn balance_change_text(before: i64, after: i64) -> (r: String)
    ensures
        r@ == balance_change(before, after),
{
    String::from_str("$").concat(i64_to_string(before).as_str()).concat(" -> $").concat(i64_to_string(after).as_str())
}

impl TransferArgs {
    /// The three lines of the transfer report.
    pub fn report(&self, b: &TransferBalances) -> (r: Vec<String>)
        ensures
            r@.len() == 3,
            r@[0]@ == "Transferred $"@ + signed_decimal(self.amount as int) + " to "@ + self.team@,
            r@[1]@ == "User balance: "@ + balance_change(b.account_before, b.account_after),
            r@[2]@ == "Team balance: "@ + balance_change(b.team_before, b.team_after),
    {
        let mut r: Vec<String> = Vec::new();
        r.push(String::from_str("Transferred $").concat(i64_to_string(self.amount).as_str()).concat(" to ").concat(self.team.as_str()));
        r.push(String::from_str("User balance: ").concat(balance_change_text(b.account_before, b.account_after).as_str()));
        r.push(String::from_str("Team balance: ").concat(balance_change_text(b.team_before, b.team_after).as_str()));
        r
    }
}

} // verus!
