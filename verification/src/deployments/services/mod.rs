//! The services a deployment runs, and their options.

pub mod katana;
pub mod saya;
pub mod torii;

use vstd::prelude::*;
use crate::text::{eq_ignore_ascii_case, eq_ignore_ascii_case_chars, to_chars};

verus! {

/// The options of creating each kind of service.
#[derive(Debug)]
pub enum CreateServiceCommands {
    Katana(katana::KatanaCreateArgs),
    Torii(torii::ToriiCreateArgs),
    Saya(saya::SayaCreateArgs),
}

/// The options of updating each kind of service.
#[derive(Debug)]
pub enum UpdateServiceCommands {
    Katana(katana::KatanaUpdateArgs),
    Torii(Box<torii::ToriiUpdateArgs>),
    Saya(saya::SayaUpdateArgs),
}

/// The services whose accounts can be listed.
#[derive(Debug)]
pub enum KatanaAccountCommands {
    Katana(katana::KatanaAccountArgs),
}

/// A kind of service.
#[derive(Clone, Copy, PartialEq, Eq, Structural, Debug)]
pub enum Service {
    Katana,
    Torii,
    Saya,
}

/// The name of a service, as commands and addresses write it.
pub open spec fn service_name(s: Service) -> Seq<char> {
    match s {
        Service::Katana => "katana"@,
        Service::Torii => "torii"@,
        Service::Saya => "saya"@,
    }
}

/// The service a command-line value names: its name exactly, or in any
/// ASCII letter case where case is ignored.
pub open spec fn service_named(input: Seq<char>, ignore_case: bool) -> Option<Service> {
    if (if ignore_case { eq_ignore_ascii_case(input, "katana"@) } else { input == "katana"@ }) {
        Some(Service::Katana)
    } else if (if ignore_case { eq_ignore_ascii_case(input, "torii"@) } else { input == "torii"@ }) {
        Some(Service::Torii)
    } else if (if ignore_case { eq_ignore_ascii_case(input, "saya"@) } else { input == "saya"@ }) {
        Some(Service::Saya)
    } else {
        None
    }
}

fn names(input: &Vec<char>, name: &str, ignore_case: bool) -> (r: bool)
    ensures
        r == if ignore_case { eq_ignore_ascii_case(input@, name@) } else { input@ == name@ },
{
    let n = to_chars(name);
    if ignore_case {
        eq_ignore_ascii_case_chars(input, &n)
    } else {
        crate::text::eq_chars(input, &n)
    }
}

impl Service {
    /// The service's name.
    pub fn to_string(&self) -> (r: String)
        ensures
            r@ == service_name(*self),
    {
        match self {
            Service::Katana => String::from_str("katana"),
            Service::Torii => String::from_str("torii"),
            Service::Saya => String::from_str("saya"),
        }
    }

    /// Reads a service from its name on the command line; the error names
    /// the value that is not a service.
    pub fn from_str(input: &str, ignore_case: bool) -> (r: Result<Service, String>)
        ensures
            match service_named(input@, ignore_case) {
                Some(s) => r == Ok::<Service, String>(s),
                None => r matches Err(m) && m@ == "invalid variant: "@ + input@,
            },
    {
        let v = to_chars(input);
        if names(&v, "katana", ignore_case) {
            Ok(Service::Katana)
        } else if names(&v, "torii", ignore_case) {
            Ok(Service::Torii)
        } else if names(&v, "saya", ignore_case) {
            Ok(Service::Saya)
        } else {
            Err(String::from_str("invalid variant: ").concat(input))
        }
    }
}

/// Reading a service's name back gives the service, whether or not case is
/// ignored.
pub proof fn service_names_read_back(s: Service, ignore_case: bool)
    ensures
        service_named(service_name(s), ignore_case) == Some(s),
{
    reveal_strlit("katana");
    reveal_strlit("torii");
    reveal_strlit("saya");
    match s {
        Service::Katana => {},
        Service::Torii => {
            assert(!eq_ignore_ascii_case("torii"@, "katana"@));
        },
        Service::Saya => {
            assert(!eq_ignore_ascii_case("saya"@, "katana"@));
            assert(!eq_ignore_ascii_case("saya"@, "torii"@));
        },
    }
}

} // verus!
