//! `teams list`: every team of the account.

use vstd::prelude::*;

verus! {

/// The options of `teams list` (none).
#[derive(Debug)]
pub struct TeamListAllArgs {}

/// The listing lines: each team name that is present, indented by two
/// spaces, in order.
pub open spec fn team_lines(names: Seq<Option<String>>) -> Seq<Seq<char>>
    decreases names.len(),
{
    if names.len() == 0 {
        seq![]
    } else {
        let rest = team_lines(names.drop_last());
        match names.last() {
            Some(n) => rest.push("  "@ + n@),
            None => rest,
        }
    }
}

/// Writes the team listing; absent entries are skipped.
pub fn team_listing(names: &Vec<Option<String>>) -> (r: Vec<String>)
    ensures
        r@.map_values(|s: String| s@) == team_lines(names@),
{
    let mut r: Vec<String> = Vec::new();
    for i in 0..names.len()
        invariant
            r@.map_values(|s: String| s@) == team_lines(names@.take(i as int)),
    {
        assert(names@.take(i + 1).drop_last() == names@.take(i as int));
        let ghost before = r@.map_values(|s: String| s@);
        match &names[i] {
            Some(n) => {
                let line = String::from_str("  ").concat(n.as_str());
                r.push(line);
                assert(r@.map_values(|s: String| s@) =~= before.push("  "@ + n@));
            },
            None => {},
        }
    }
    assert(names@.take(names.len() as int) == names@);
    r
}

} // verus!
