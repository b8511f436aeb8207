//! `auth login`: the browser flow and the manual code entry that race to
//! deliver an authorization code.

use vstd::prelude::*;
use crate::text::{decimal, decimal_chars, push_chars, to_chars, trim, trim_chars, from_chars};

verus! {

/// The options of `auth login` (none).
#[derive(Debug)]
pub struct LoginArgs {}

/// How an authorization attempt ended.
#[derive(PartialEq, Eq, Debug)]
pub enum AuthResult {
    /// The authorization code.
    Success(String),
    /// Why it failed.
    Failure(String),
}

/// The address the browser is sent back to: the local server's callback.
pub open spec fn callback_uri(port: u16) -> Seq<char> {
    "http://localhost:"@ + decimal(port as nat) + "/callback"@
}

/// Writes the local callback address for a port.
pub fn callback_uri_text(port: u16) -> (r: String)
    ensures
        r@ == callback_uri(port),
{
    let mut s = String::from_str("http://localhost:");
    push_chars(&mut s, &decimal_chars(port as u64));
    s.append("/callback");
    s
}

/// The page that starts the flow in the browser.
pub open spec fn login_url(keychain_url: Seq<char>, callback: Seq<char>) -> Seq<char> {
    keychain_url + "/slot?callback_uri="@ + callback
}

/// Writes the address that starts the flow.
pub fn login_url_text(keychain_url: &str, callback: &str) -> (r: String)
    ensures
        r@ == login_url(keychain_url@, callback@),
{
    String::from_str(keychain_url).concat("/slot?callback_uri=").concat(callback)
}

/// What the callback does with the code the browser brings: a code is an
/// authorization and sends the browser to the success page; no code means
/// the user refused, and sends it to the failure page.
pub fn callback_outcome(code: Option<String>, keychain_url: &str) -> (r: (AuthResult, String))
    ensures
        match code {
            Some(c) => r.0 == AuthResult::Success(c) && r.1@ == keychain_url@ + "/success"@,
            None => (r.0 matches AuthResult::Failure(m) && m@ == "User denied consent"@)
                && r.1@ == keychain_url@ + "/failure"@,
        },
{
    match code {
        Some(c) => (AuthResult::Success(c), String::from_str(keychain_url).concat("/success")),
        None => (
            AuthResult::Failure(String::from_str("User denied consent")),
            String::from_str(keychain_url).concat("/failure"),
        ),
    }
}

/// One line read for the manual code entry: a line that is not blank once
/// trimmed is the code and ends the entry; a read error ends it with a
/// failure; a blank line asks for another (`None`).
pub fn manual_input_step(read: Result<String, String>) -> (r: Option<AuthResult>)
    ensures
        match read {
            Ok(line) => if trim(line@).len() == 0 {
                r is None
            } else {
                r matches Some(AuthResult::Success(c)) && c@ == trim(line@)
            },
            Err(e) => r == Some(AuthResult::Failure(e)),
        },
{
    match read {
        Ok(line) => {
            let t = trim_chars(&to_chars(line.as_str()));
            if t.len() == 0 {
                None
            } else {
                Some(AuthResult::Success(from_chars(&t)))
            }
        },
        Err(e) => Some(AuthResult::Failure(e)),
    }
}

} // verus!
