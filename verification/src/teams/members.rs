//! `teams <name> list|add|remove`: the members of a team.

use vstd::prelude::*;

verus! {

/// The options of `teams <name> list` (none).
#[derive(Debug)]
pub struct TeamListArgs {}

/// The options of `teams <name> add`.
#[derive(Debug)]
pub struct TeamAddArgs {
    /// The accounts to add.
    pub account: Vec<String>,
}

/// The options of `teams <name> remove`.
#[derive(Debug)]
pub struct TeamRemoveArgs {
    /// The accounts to remove.
    pub account: Vec<String>,
}

/// The lines printed for the errors the server returned, one per error.
pub fn error_lines(messages: &Vec<String>) -> (r: Vec<String>)
    ensures
        r@.len() == messages@.len(),
        forall|i: int| 0 <= i < r@.len() ==> (#[trigger] r@[i])@ == "Error: "@ + messages@[i]@,
{
    let mut r: Vec<String> = Vec::new();
    for i in 0..messages.len()
        invariant
            r@.len() == i,
            forall|k: int| 0 <= k < i ==> (#[trigger] r@[k])@ == "Error: "@ + messages@[k]@,
    {
        r.push(String::from_str("Error: ").concat(messages[i].as_str()));
    }
    r
}

} // verus!
