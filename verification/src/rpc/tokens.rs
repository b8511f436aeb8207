//! `rpc tokens`: RPC API keys of a team.

use vstd::prelude::*;
use crate::paymaster::{cells, or_dash, or_dash_text};

verus! {

/// The options of `rpc tokens create`.
#[derive(Debug)]
pub struct CreateArgs {
    /// The key's name.
    pub name: String,
    /// The team the key belongs to.
    pub team: String,
}

/// The options of `rpc tokens delete`.
#[derive(Debug)]
pub struct DeleteArgs {
    /// The key's id.
    pub id: String,
}

/// The options of `rpc tokens list`.
#[derive(Debug)]
pub struct ListArgs {
    /// The team whose keys are listed.
    pub team: String,
}

/// The token operations.
#[derive(Debug)]
pub enum TokensSubcommand {
    Create(CreateArgs),
    Delete(DeleteArgs),
    List(ListArgs),
}

/// The options of `rpc tokens`.
#[derive(Debug)]
pub struct TokensCmd {
    pub command: TokensSubcommand,
}

/// An API key as the server lists it.
#[derive(Debug)]
pub struct ApiKeyLine {
    pub id: String,
    pub name: String,
    pub key_prefix: String,
    pub active: bool,
    pub created_at: String,
    pub last_used_at: Option<String>,
}

/// The cells of a key's row: activity as a check or a cross, a key never
/// used as `-`.
pub open spec fn key_row(k: ApiKeyLine) -> Seq<Seq<char>> {
    seq![k.id@, k.name@, k.key_prefix@, if k.active { "✓"@ } else { "✗"@ }, k.created_at@, or_dash(k.last_used_at)]
}

/// The cells of a key's row.
pub fn key_row_cells(k: &ApiKeyLine) -> (r: Vec<String>)
    ensures
        cells(r) == key_row(*k),
{
    let mut r: Vec<String> = Vec::new();
    r.push(k.id.clone());
    r.push(k.name.clone());
    r.push(k.key_prefix.clone());
    r.push(if k.active { String::from_str("✓") } else { String::from_str("✗") });
    r.push(k.created_at.clone());
    r.push(or_dash_text(&k.last_used_at));
    assert(cells(r) =~= key_row(*k));
    r
}

} // verus!
