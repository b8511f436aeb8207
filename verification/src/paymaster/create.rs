//! `paymaster create`: the unit and budget of a new paymaster.

use vstd::prelude::*;
use super::budget::FeeUnit;
use crate::text::{str_eq, unicode_uppercase, uppercase, ascii_upper, is_ascii_text};

verus! {

/// The options of `paymaster create`.
#[derive(Debug)]
pub struct CreateArgs {
    /// The team that owns the paymaster.
    pub team: String,
    /// The initial budget, in the unit's smallest amount.
    pub budget: u64,
    /// `CREDIT` or `STRK`, in any letter case.
    pub unit: String,
}

/// What a paymaster creation sends.
#[derive(Debug)]
pub struct CreatePaymasterRequest {
    pub name: String,
    pub team_name: String,
    pub budget: i64,
    pub unit: FeeUnit,
}

/// The unit named by an upper-cased unit text at creation.
pub open spec fn creation_unit(upper: Seq<char>) -> Option<FeeUnit> {
    if upper == "CREDIT"@ {
        Some(FeeUnit::Credit)
    } else if upper == "STRK"@ {
        Some(FeeUnit::Strk)
    } else {
        None
    }
}

/// The name of a unit at creation.
pub open spec fn creation_unit_text(u: FeeUnit) -> Seq<char> {
    match u {
        FeeUnit::Credit => "CREDIT"@,
        FeeUnit::Strk => "STRK"@,
    }
}

/// An upper-cased unit text reads as a unit at creation exactly where it is
/// that unit's name.
pub proof fn creation_units_read_back(upper: Seq<char>, u: FeeUnit)
    ensures
        creation_unit(upper) == Some(u) <==> upper == creation_unit_text(u),
{
    reveal_strlit("CREDIT");
    reveal_strlit("STRK");
    assert("CREDIT"@.len() != "STRK"@.len());
}

/// The unit an upper-cased unit text names at creation.
pub fn creation_unit_of(upper: &str) -> (r: Option<FeeUnit>)
    ensures
        r == creation_unit(upper@),
{
    if str_eq(upper, "CREDIT") {
        Some(FeeUnit::Credit)
    } else if str_eq(upper, "STRK") {
        Some(FeeUnit::Strk)
    } else {
        None
    }
}

impl CreateArgs {
    /// Builds the request of `paymaster <name> create`: the unit must be
    /// `CREDIT` or `STRK` in any letter case, else the error names it.
    pub fn request(&self, name: &str) -> (r: Result<CreatePaymasterRequest, String>)
        ensures
            match creation_unit(unicode_uppercase(self.unit@)) {
                Some(u) => r matches Ok(q) && q.name@ == name@ && q.team_name@ == self.team@
                    && q.budget == self.budget as i64 && q.unit == u,
                None => r matches Err(m) && m@ == "Invalid unit: "@ + self.unit@,
            },
            is_ascii_text(self.unit@) ==> unicode_uppercase(self.unit@) == ascii_upper(self.unit@),
    {
        let upper = uppercase(self.unit.as_str());
        let unit = match creation_unit_of(upper.as_str()) {
            Some(u) => u,
            None => return Err(String::from_str("Invalid unit: ").concat(self.unit.as_str())),
        };
        Ok(CreatePaymasterRequest {
            name: String::from_str(name),
            team_name: self.team.clone(),
            budget: self.budget as i64,
            unit,
        })
    }
}

} // verus!
