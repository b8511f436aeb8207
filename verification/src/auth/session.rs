//! `auth create-session`: the policies a session is created with.

use vstd::prelude::*;
use crate::text::{from_chars, has_prefix, matches_at, split_chars, split_on, str_starts_with, to_chars};

verus! {

/// A call a session may make: the target contract, as the 32 big-endian
/// bytes of its field element, and the method's name.
#[derive(Debug)]
pub struct PolicyMethod {
    pub target: Vec<u8>,
    pub method: String,
}

/// The options of `auth create-session`.
#[derive(Debug)]
pub struct CreateSession {
    /// The RPC address of the network.
    pub rpc_url: String,
    /// The session's policies.
    pub policies: Vec<PolicyMethod>,
}

/// What `Felt::from_str` gives for a text: the 32 big-endian bytes of the
/// field element (a `0x` text read as hexadecimal, any other as decimal),
/// or the text of the parse error.
pub uninterp spec fn felt_from_str(s: Seq<char>) -> Result<Seq<u8>, Seq<char>>;

/// The decimal digits of `2^256 - 6` divided by ten: the one value below
/// `2^256` whose tenfold plus a digit from 6 to 9 reaches `2^256`.
pub open spec fn felt_limit_prefix() -> Seq<char> {
    "11579208923731619542357098500868790785326998466564056403945758400791312963993"@
}

/// The text with its leading `0` characters removed.
pub open spec fn strip_zeros(d: Seq<char>) -> Seq<char>
    decreases d.len(),
{
    if d.len() > 0 && d[0] == '0' { strip_zeros(d.drop_first()) } else { d }
}

/// The text is one on which the decimal reading of `Felt::from_str` adds
/// past `2^256`. That reading (a text not starting with `0x`, one leading
/// `-` removed) multiplies its running value by ten, failing when that
/// passes `2^256`, and then adds the next digit unchecked. The sum passes
/// `2^256` only from the running value `(2^256 - 6) / 10` with a digit of 6
/// or more, that is, for digits that after leading zeros begin with
/// [`felt_limit_prefix`] followed by one of `6`..`9`.
pub open spec fn felt_text_overflows(s: Seq<char>) -> bool {
    !has_prefix(s, "0x"@) && {
        let d = if s.len() > 0 && s[0] == '-' { s.drop_first() } else { s };
        let z = strip_zeros(d);
        &&& z.len() > 77
        &&& has_prefix(z, felt_limit_prefix())
        &&& '6' <= z[77] && z[77] <= '9'
    }
}

/// `starknet::core::types::Felt::from_str`, the element taken by
/// `to_bytes_be` and the error by its `Display` text. The result is the
/// named one; how the text is read is not stated here. Texts on which the
/// decimal reading adds past `2^256` (where the addition panics or wraps)
/// are left out.
#[verifier::external_body]
fn parse_felt(s: &str) -> (r: Result<Vec<u8>, String>)
    requires
        !felt_text_overflows(s@),
    ensures
        match r {
            Ok(b) => felt_from_str(s@) == Ok::<Seq<u8>, Seq<char>>(b@),
            Err(e) => felt_from_str(s@) == Err::<Seq<u8>, Seq<char>>(e@),
        },
{
    match s.parse::<starknet::core::types::Felt>() {
        Ok(f) => Ok(f.to_bytes_be().to_vec()),
        Err(e) => Err(e.to_string()),
    }
}

/// Why a policy text was refused.
#[derive(Debug)]
pub enum PolicyParseError {
    /// No method after the target.
    MissingMethod,
    /// More than a target and a method.
    ExtraPart,
    /// The target is not a field element; carries the parse error's text.
    InvalidTarget(String),
}

/// The message of a refused policy text.
pub open spec fn policy_error_message(e: PolicyParseError) -> Seq<char> {
    match e {
        PolicyParseError::MissingMethod => "missing method"@,
        PolicyParseError::ExtraPart => "Condition failed: `parts.next().is_none()`"@,
        PolicyParseError::InvalidTarget(m) => m@,
    }
}

impl PolicyParseError {
    /// The message the command prints for this error.
    pub fn message(&self) -> (r: String)
        ensures
            r@ == policy_error_message(*self),
    {
        match self {
            PolicyParseError::MissingMethod => String::from_str("missing method"),
            PolicyParseError::ExtraPart => String::from_str("Condition failed: `parts.next().is_none()`"),
            PolicyParseError::InvalidTarget(m) => m.clone(),
        }
    }
}

/// The policy a `target,method` text stands for, given its pieces split at
/// commas and what parsing the first piece as a field element gave: a parse
/// error is reported first, then a missing method, then extra pieces.
pub fn policy_from_parts(target: Result<Vec<u8>, String>, parts: &Vec<Vec<char>>) -> (r: Result<PolicyMethod, PolicyParseError>)
    ensures
        match target {
            Err(m) => r matches Err(PolicyParseError::InvalidTarget(e)) && e@ == m@,
            Ok(t) => if parts@.len() < 2 {
                r matches Err(PolicyParseError::MissingMethod)
            } else if parts@.len() > 2 {
                r matches Err(PolicyParseError::ExtraPart)
            } else {
                r matches Ok(p) && p.target@ == t@ && p.method@ == parts@[1]@
            },
        },
{
    let target = match target {
        Ok(t) => t,
        Err(m) => return Err(PolicyParseError::InvalidTarget(m)),
    };
    if parts.len() < 2 {
        return Err(PolicyParseError::MissingMethod);
    }
    let method = from_chars(&parts[1]);
    if parts.len() > 2 {
        return Err(PolicyParseError::ExtraPart);
    }
    Ok(PolicyMethod { target, method })
}

/// Whether the decimal reading of a target would add past `2^256`.
pub fn felt_target_overflows(s: &str) -> (b: bool)
    ensures
        b == felt_text_overflows(s@),
{
    proof {
        reveal_strlit("0x");
        reveal_strlit("11579208923731619542357098500868790785326998466564056403945758400791312963993");
    }
    if str_starts_with(s, "0x") {
        return false;
    }
    let v = to_chars(s);
    let start: usize = if v.len() > 0 && v[0] == '-' { 1 } else { 0 };
    let ghost d = if s@.len() > 0 && s@[0] == '-' { s@.drop_first() } else { s@ };
    assert(v@.skip(start as int) == d);
    let mut i = start;
    while i < v.len() && v[i] == '0'
        invariant
            start <= i <= v.len(),
            strip_zeros(d) == strip_zeros(v@.skip(i as int)),
        decreases v.len() - i,
    {
        assert(v@.skip(i as int).drop_first() == v@.skip(i + 1));
        i = i + 1;
    }
    let ghost z = v@.skip(i as int);
    assert(strip_zeros(z) == z);
    let p = to_chars("11579208923731619542357098500868790785326998466564056403945758400791312963993");
    assert(p@.len() == 77);
    if v.len() - i <= 77 {
        return false;
    }
    let m = matches_at(&v, &p, i);
    proof {
        assert(z.subrange(0, 77) == v@.subrange(i as int, i + 77));
    }
    if !m {
        return false;
    }
    let c = v[i + 77];
    assert(z[77] == c);
    '6' <= c && c <= '9'
}

/// The error given for a target whose decimal reading would add past
/// `2^256`.
pub open spec fn felt_overflow_message() -> Seq<char> {
    "failed to create Felt from string: invalid dec string"@
}

/// Reads a policy written `target,method`: the target is parsed first, then
/// the method must be there, and nothing may follow it. A decimal target
/// that would be read past `2^256` is refused as an invalid target.
pub fn parse_policy_method(value: &str) -> (r: Result<PolicyMethod, PolicyParseError>)
    ensures
        ({
            let parts = split_on(value@, ',');
            if felt_text_overflows(parts[0]) {
                r matches Err(PolicyParseError::InvalidTarget(e)) && e@ == felt_overflow_message()
            } else { match felt_from_str(parts[0]) {
                Err(m) => r matches Err(PolicyParseError::InvalidTarget(e)) && e@ == m,
                Ok(t) => if parts.len() < 2 {
                    r matches Err(PolicyParseError::MissingMethod)
                } else if parts.len() > 2 {
                    r matches Err(PolicyParseError::ExtraPart)
                } else {
                    r matches Ok(p) && p.target@ == t && p.method@ == parts[1]
                },
            } }
        }),
{
    let parts = split_chars(&to_chars(value), ',');
    proof {
        assert(crate::text::views(parts@) == split_on(value@, ','));
        crate::text::lemma_split_on_nonempty(value@, ',');
    }
    let target_text = from_chars(&parts[0]);
    if felt_target_overflows(target_text.as_str()) {
        return Err(PolicyParseError::InvalidTarget(
            String::from_str("failed to create Felt from string: invalid dec string"),
        ));
    }
    let target = parse_felt(target_text.as_str());
    policy_from_parts(target, &parts)
}

} // verus!
