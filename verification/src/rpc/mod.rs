//! RPC access: API tokens, the origin whitelist and request logs.

pub mod logs;
pub mod tokens;
pub mod whitelist;

use vstd::prelude::*;

verus! {

/// The RPC operations.
#[derive(Debug)]
pub enum RpcCmd {
    Tokens(tokens::TokensCmd),
    Whitelist(whitelist::WhitelistCmd),
}

} // verus!
