//! `deployments accounts`: the predeployed accounts of a Katana
//! deployment.

use vstd::prelude::*;
use super::services::KatanaAccountCommands;
use crate::json::{json_member, JsonValue};

verus! {

/// The options of `deployments accounts`.
#[derive(Debug)]
pub struct AccountsArgs {
    /// The project.
    pub project: String,
    /// The service whose accounts are listed.
    pub accounts_commands: KatanaAccountCommands,
}

/// The address of the node of a project's Katana.
pub open spec fn katana_rpc_url(project: Seq<char>) -> Seq<char> {
    "https://api.cartridge.gg/x/"@ + project + "/katana"@
}

impl AccountsArgs {
    /// The address the accounts are requested from.
    pub fn rpc_url(&self) -> (r: String)
        ensures
            r@ == katana_rpc_url(self.project@),
    {
        String::from_str("https://api.cartridge.gg/x/").concat(self.project.as_str()).concat("/katana")
    }
}

/// A member's text, or nothing where the member is absent or not a string.
pub open spec fn member_text(v: JsonValue, key: Seq<char>) -> Option<Seq<char>> {
    match json_member(v, key) {
        Some(JsonValue::String(s)) => Some(s@),
        _ => None,
    }
}

/// The lines printed for one account: its address, its private key where
/// it has one, its public key, and a blank line; a missing address or
/// public key reads as empty.
pub open spec fn account_lines(a: JsonValue) -> Seq<Seq<char>> {
    let address = match member_text(a, "address"@) { Some(t) => t, None => seq![] };
    let public_key = match member_text(a, "publicKey"@) { Some(t) => t, None => seq![] };
    let head = seq!["| Account Address |  "@ + address];
    let middle = match member_text(a, "privateKey"@) {
        Some(k) => seq!["| Private key     |  "@ + k],
        None => seq![],
    };
    head + middle + seq!["| Public key      |  "@ + public_key, ""@]
}

fn text_of(v: &JsonValue, key: &str) -> (r: Option<String>)
    ensures
        match member_text(*v, key@) {
            Some(t) => r matches Some(s) && s@ == t,
            None => r is None,
        },
{
    match v.get(key) {
        Some(m) => match m.as_str() {
            Some(t) => Some(String::from_str(t)),
            None => None,
        },
        None => None,
    }
}

/// Writes the lines of one account.
pub fn account_report(a: &JsonValue) -> (r: Vec<String>)
    ensures
        r@.map_values(|s: String| s@) == account_lines(*a),
{
    let address = match text_of(a, "address") { Some(t) => t, None => String::new() };
    let public_key = match text_of(a, "publicKey") { Some(t) => t, None => String::new() };
    let mut r: Vec<String> = Vec::new();
    r.push(String::from_str("| Account Address |  ").concat(address.as_str()));
    let private_key = text_of(a, "privateKey");
    match &private_key {
        Some(k) => r.push(String::from_str("| Private key     |  ").concat(k.as_str())),
        None => {},
    }
    r.push(String::from_str("| Public key      |  ").concat(public_key.as_str()));
    r.push(String::new());
    proof {
        reveal_strlit("");
        assert(""@ =~= Seq::<char>::empty());
        let addr = match member_text(*a, "address"@) { Some(t) => t, None => seq![] };
        let pk = match member_text(*a, "publicKey"@) { Some(t) => t, None => seq![] };
        assert(address@ == addr);
        assert(public_key@ == pk);
        let v = r@.map_values(|s: String| s@);
        match member_text(*a, "privateKey"@) {
            Some(k) => {
                assert(v.len() == 4);
                assert(v =~= seq!["| Account Address |  "@ + addr, "| Private key     |  "@ + k,
                    "| Public key      |  "@ + pk, ""@]);
            },
            None => {
                assert(v.len() == 3);
                assert(v =~= seq!["| Account Address |  "@ + addr, "| Public key      |  "@ + pk, ""@]);
            },
        }
    }
    assert(r@.map_values(|s: String| s@) =~= account_lines(*a));
    r
}

/// The lines printed for all accounts of a node's answer: those of each
/// account of its `result` array, in order; none where there is no such
/// array.
pub open spec fn all_account_lines(accounts: Seq<JsonValue>) -> Seq<Seq<char>>
    decreases accounts.len(),
{
    if accounts.len() == 0 {
        seq![]
    } else {
        all_account_lines(accounts.drop_last()) + account_lines(accounts.last())
    }
}

/// Writes the report of a node's answer to the accounts request.
pub fn accounts_report(response: &JsonValue) -> (r: Vec<String>)
    ensures
        match json_member(*response, "result"@) {
            Some(JsonValue::Array(items)) => r@.map_values(|s: String| s@) == all_account_lines(items@),
            _ => r@.len() == 0,
        },
{
    let mut r: Vec<String> = Vec::new();
    match response.get("result") {
        Some(JsonValue::Array(items)) => {
            for i in 0..items.len()
                invariant
                    r@.map_values(|s: String| s@) == all_account_lines(items@.take(i as int)),
            {
                let lines = account_report(&items[i]);
                let ghost before = r@.map_values(|s: String| s@);
                assert(items@.take(i + 1).drop_last() == items@.take(i as int));
                for j in 0..lines.len()
                    invariant
                        r@.map_values(|s: String| s@) == before + lines@.map_values(|s: String| s@).take(j as int),
                {
                    let line = lines[j].clone();
                    let ghost old_r = r@;
                    assert(line@ == lines@[j as int]@);
                    r.push(line);
                    assert(r@ == old_r.push(line));
                    assert(r@.map_values(|s: String| s@) =~= old_r.map_values(|s: String| s@).push(line@));
                    assert(r@.map_values(|s: String| s@) =~= before + lines@.map_values(|s: String| s@).take(j + 1));
                }
                assert(lines@.map_values(|s: String| s@).take(lines.len() as int) == lines@.map_values(|s: String| s@));
            }
            assert(items@.take(items.len() as int) == items@);
            r
        },
        _ => r,
    }
}

} // verus!
