//! `paymaster get`: the options of the policy listing by name.

use vstd::prelude::*;

verus! {

/// The options of `paymaster get` (none).
#[derive(Debug)]
pub struct GetArgs {}

} // verus!
