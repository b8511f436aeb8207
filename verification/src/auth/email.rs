//! `auth set-email`.

use vstd::prelude::*;

verus! {

/// The options of `auth set-email`.
#[derive(Debug)]
pub struct EmailArgs {
    /// The new email address.
    pub email: String,
}

} // verus!
