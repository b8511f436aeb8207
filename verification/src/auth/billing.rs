//! `auth enable-slot-billing`.

use vstd::prelude::*;

verus! {

/// The options of `auth enable-slot-billing` (none).
#[derive(Debug)]
pub struct BillingArgs {}

} // verus!
