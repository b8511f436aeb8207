//! The signed-in account: logging in, its information, sessions and
//! transfers.

pub mod billing;
pub mod email;
pub mod info;
pub mod login;
pub mod session;
pub mod transfer;

use vstd::prelude::*;

verus! {

/// The account operations.
#[derive(Debug)]
pub enum Auth {
    Login(login::LoginArgs),
    Info(info::InfoArgs),
    SetEmail(email::EmailArgs),
    EnableSlotBilling(billing::BillingArgs),
    Transfer(transfer::TransferArgs),
    CreateSession(session::CreateSession),
}

} // verus!
