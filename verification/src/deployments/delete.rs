//! `deployments delete`.

use vstd::prelude::*;

verus! {

/// A kind of service, as deletion names it.
#[derive(Clone, Copy, PartialEq, Eq, Structural, Debug)]
pub enum Service {
    Katana,
    Torii,
    Saya,
}

/// The service as the confirmation question writes it.
pub open spec fn service_label(s: Service) -> Seq<char> {
    match s {
        Service::Katana => "Katana"@,
        Service::Torii => "Torii"@,
        Service::Saya => "Saya"@,
    }
}

/// The options of `deployments delete`.
#[derive(Debug)]
pub struct DeleteArgs {
    /// The project.
    pub project: String,
    /// The service to delete.
    pub service: Service,
    /// Delete without asking.
    pub force: bool,
}

impl DeleteArgs {
    /// The confirmation question, unless the deletion is forced.
    pub fn confirmation_prompt(&self) -> (r: Option<String>)
        ensures
            self.force ==> r is None,
            !self.force ==> (r matches Some(p) && p@ == "Please confirm to delete "@ + self.project@ + " "@ + service_label(self.service)),
    {
        if self.force {
            return None;
        }
        let label = match self.service {
            Service::Katana => "Katana",
            Service::Torii => "Torii",
            Service::Saya => "Saya",
        };
        Some(String::from_str("Please confirm to delete ").concat(self.project.as_str()).concat(" ").concat(label))
    }
}

} // verus!
