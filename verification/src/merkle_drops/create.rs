//! `merkle-drops create`: the claim data of a merkle drop, checked and
//! turned into claims.

use vstd::prelude::*;
use crate::json::{json_as_i64, JsonValue};
use crate::text::{decimal, has_infix, lowercase, split_chars, split_on, to_chars, contains_chars, from_chars, trim, trim_chars, unicode_lowercase, ascii_lower, is_ascii_text};

verus! {

/// What is wrong with one entry of the claim data.
#[derive(Clone, Copy, PartialEq, Eq, Structural, Debug)]
pub enum EntryFault {
    NotArray,
    NotPair,
    AddressNotString,
    IdsNotArray,
}

/// The first thing wrong with an entry, in the order the command checks:
/// an array, of two elements, a string then an array.
pub open spec fn entry_fault(e: JsonValue) -> Option<EntryFault> {
    match e {
        JsonValue::Array(items) => {
            if items@.len() != 2 {
                Some(EntryFault::NotPair)
            } else if !(items@[0] is String) {
                Some(EntryFault::AddressNotString)
            } else if !(items@[1] is Array) {
                Some(EntryFault::IdsNotArray)
            } else {
                None
            }
        },
        _ => Some(EntryFault::NotArray),
    }
}

/// The first faulty entry at or after position `i`, with its fault.
pub open spec fn first_fault_from(entries: Seq<JsonValue>, i: int) -> Option<(int, EntryFault)>
    decreases entries.len() - i,
{
    if i < 0 || i >= entries.len() {
        None
    } else {
        match entry_fault(entries[i]) {
            Some(f) => Some((i, f)),
            None => first_fault_from(entries, i + 1),
        }
    }
}

/// A claim data entry that failed the check.
#[derive(Clone, Copy, PartialEq, Eq, Structural, Debug)]
pub struct MerkleDataError {
    pub index: usize,
    pub fault: EntryFault,
}

/// The message of a failed check, as the command reports it.
pub open spec fn entry_fault_message(index: nat, fault: EntryFault) -> Seq<char> {
    "Entry "@ + decimal(index) + match fault {
        EntryFault::NotArray => " must be an array"@,
        EntryFault::NotPair => " must have exactly 2 elements: [address, token_ids]"@,
        EntryFault::AddressNotString => " first element must be a string address"@,
        EntryFault::IdsNotArray => " second element must be an array"@,
    }
}

impl MerkleDataError {
    /// The message the command prints for this error.
    pub fn message(&self) -> (r: String)
        ensures
            r@ == entry_fault_message(self.index as nat, self.fault),
    {
        let mut s = String::from_str("Entry ");
        let digits = crate::text::decimal_chars(self.index as u64);
        crate::text::push_chars(&mut s, &digits);
        match self.fault {
            EntryFault::NotArray => s.append(" must be an array"),
            EntryFault::NotPair => s.append(" must have exactly 2 elements: [address, token_ids]"),
            EntryFault::AddressNotString => s.append(" first element must be a string address"),
            EntryFault::IdsNotArray => s.append(" second element must be an array"),
        }
        s
    }
}

fn check_entry(e: &JsonValue) -> (r: Option<EntryFault>)
    ensures
        r == entry_fault(*e),
{
    match e {
        JsonValue::Array(items) => {
            if items.len() != 2 {
                Some(EntryFault::NotPair)
            } else if !matches!(items[0], JsonValue::String(_)) {
                Some(EntryFault::AddressNotString)
            } else if !matches!(items[1], JsonValue::Array(_)) {
                Some(EntryFault::IdsNotArray)
            } else {
                None
            }
        },
        _ => Some(EntryFault::NotArray),
    }
}

/// Checks that every entry of the claim data is a pair of an address string
/// and an array of token ids; the error names the first entry that is not.
pub fn validate_merkle_data(merkle_array: &Vec<JsonValue>) -> (r: Result<(), MerkleDataError>)
    ensures
        match first_fault_from(merkle_array@, 0) {
            None => r is Ok,
            Some((i, f)) => r == Err::<(), MerkleDataError>(MerkleDataError { index: i as usize, fault: f }),
        },
{
    for i in 0..merkle_array.len()
        invariant
            first_fault_from(merkle_array@, 0) == first_fault_from(merkle_array@, i as int),
    {
        match check_entry(&merkle_array[i]) {
            Some(f) => {
                return Err(MerkleDataError { index: i, fault: f });
            },
            None => {},
        }
    }
    Ok(())
}

/// A claim of a merkle drop: an address and the ids of its tokens.
#[derive(Debug)]
pub struct MerkleClaim {
    pub address: String,
    pub token_ids: Vec<i64>,
}

/// A token id of the claim data: its value where it is a 64-bit signed
/// integer, else 0.
pub open spec fn claim_id(v: JsonValue) -> i64 {
    match json_as_i64(v) {
        Some(i) => i,
        None => 0,
    }
}

/// The entry is a pair of an address string and an id array.
pub open spec fn entry_ok(e: JsonValue) -> bool {
    entry_fault(e) is None
}

/// The claim an entry that passed the check stands for.
pub open spec fn entry_claim(e: JsonValue, c: MerkleClaim) -> bool {
    match e {
        JsonValue::Array(items) => match (items@[0], items@[1]) {
            (JsonValue::String(a), JsonValue::Array(ids)) =>
                c.address@ == a@ && c.token_ids@ == ids@.map_values(|x: JsonValue| claim_id(x)),
            _ => false,
        },
        _ => false,
    }
}

fn claim_ids(ids: &Vec<JsonValue>) -> (r: Vec<i64>)
    ensures
        r@ == ids@.map_values(|x: JsonValue| claim_id(x)),
{
    let mut r: Vec<i64> = Vec::new();
    for j in 0..ids.len()
        invariant
            r@ == ids@.take(j as int).map_values(|x: JsonValue| claim_id(x)),
    {
        let v = match ids[j].as_i64() {
            Some(i) => i,
            None => 0,
        };
        r.push(v);
        assert(ids@.take(j + 1).map_values(|x: JsonValue| claim_id(x))
            =~= ids@.take(j as int).map_values(|x: JsonValue| claim_id(x)).push(v));
    }
    assert(ids@.take(ids.len() as int) == ids@);
    r
}

/// Turns checked claim data into claims: each entry's address, and its ids
/// where they are 64-bit signed integers (0 where they are not).
pub fn convert_to_claims(merkle_array: &Vec<JsonValue>) -> (r: Vec<MerkleClaim>)
    requires
        forall|i: int| 0 <= i < merkle_array@.len() ==> entry_ok(#[trigger] merkle_array@[i]),
    ensures
        r@.len() == merkle_array@.len(),
        forall|i: int| 0 <= i < r@.len() ==> entry_claim(merkle_array@[i], #[trigger] r@[i]),
{
    let mut r: Vec<MerkleClaim> = Vec::new();
    for i in 0..merkle_array.len()
        invariant
            forall|k: int| 0 <= k < merkle_array@.len() ==> entry_ok(#[trigger] merkle_array@[k]),
            r@.len() == i,
            forall|k: int| 0 <= k < i ==> entry_claim(merkle_array@[k], #[trigger] r@[k]),
    {
        assert(entry_ok(merkle_array@[i as int]));
        match &merkle_array[i] {
            JsonValue::Array(items) => {
                match (&items[0], &items[1]) {
                    (JsonValue::String(a), JsonValue::Array(ids)) => {
                        let claim = MerkleClaim { address: a.clone(), token_ids: claim_ids(ids) };
                        r.push(claim);
                    },
                    _ => {},
                }
            },
            _ => {},
        }
    }
    r
}

/// A check that passes means every entry is a well-formed pair.
pub proof fn passing_data_is_well_formed(entries: Seq<JsonValue>, i: int)
    requires
        first_fault_from(entries, i) is None,
        0 <= i,
    ensures
        forall|k: int| i <= k < entries.len() ==> entry_ok(#[trigger] entries[k]),
    decreases entries.len() - i,
{
    if i < entries.len() {
        passing_data_is_well_formed(entries, i + 1);
    }
}

/// Checks the claim data and turns it into claims, as each way of creating
/// a merkle drop does before the request.
pub fn claims_from_data(merkle_array: &Vec<JsonValue>) -> (r: Result<Vec<MerkleClaim>, MerkleDataError>)
    ensures
        match first_fault_from(merkle_array@, 0) {
            Some((i, f)) => r matches Err(e) && e == (MerkleDataError { index: i as usize, fault: f }),
            None => r matches Ok(c) && c@.len() == merkle_array@.len()
                && forall|i: int| 0 <= i < c@.len() ==> entry_claim(merkle_array@[i], #[trigger] c@[i]),
        },
{
    match validate_merkle_data(merkle_array) {
        Err(e) => Err(e),
        Ok(()) => {
            proof {
                passing_data_is_well_formed(merkle_array@, 0);
            }
            Ok(convert_to_claims(merkle_array))
        },
    }
}

/// The error when a data file does not hold a JSON array.
pub open spec fn not_array_message() -> Seq<char> {
    "Data file must contain a JSON array"@
}

/// The entries of a data file, which must be a JSON array.
pub fn data_entries(data: JsonValue) -> (r: Result<Vec<JsonValue>, String>)
    ensures
        match data {
            JsonValue::Array(items) => r == Ok::<Vec<JsonValue>, String>(items),
            _ => r matches Err(m) && m@ == not_array_message(),
        },
{
    match data {
        JsonValue::Array(items) => Ok(items),
        _ => Err(String::from_str("Data file must contain a JSON array")),
    }
}

/// The value is the two-element array of `a` and `b`.
pub open spec fn is_pair_of(v: JsonValue, a: JsonValue, b: JsonValue) -> bool {
    match v {
        JsonValue::Array(items) => items@ == seq![a, b],
        _ => false,
    }
}

/// The data pairs of a JSON configuration, each made a two-element array
/// so that it is checked as a data file entry is.
pub fn pairs_to_entries(data: Vec<(JsonValue, JsonValue)>) -> (r: Vec<JsonValue>)
    ensures
        r@.len() == data@.len(),
        forall|i: int| 0 <= i < r@.len() ==> is_pair_of(#[trigger] r@[i], data@[i].0, data@[i].1),
{
    let mut r: Vec<JsonValue> = Vec::new();
    let mut rest = data;
    let ghost all = rest@;
    let mut rev: Vec<(JsonValue, JsonValue)> = Vec::new();
    while rest.len() > 0
        invariant
            rev@.len() + rest@.len() == all.len(),
            rest@ == all.take(rest@.len() as int),
            forall|k: int| 0 <= k < rev@.len() ==> #[trigger] rev@[k] == all[all.len() - 1 - k],
        decreases rest@.len(),
    {
        let last = rest.pop().unwrap();
        rev.push(last);
    }
    while rev.len() > 0
        invariant
            rev@.len() + r@.len() == all.len(),
            forall|k: int| 0 <= k < rev@.len() ==> #[trigger] rev@[k] == all[all.len() - 1 - k],
            forall|i: int| 0 <= i < r@.len() ==> is_pair_of(#[trigger] r@[i], all[i].0, all[i].1),
        decreases rev@.len(),
    {
        let ghost k = rev@.len() - 1;
        let ghost before = r@;
        proof {
            assert(rev@[k] == all[all.len() - 1 - k]);
        }
        let (a, b) = rev.pop().unwrap();
        let mut items: Vec<JsonValue> = Vec::new();
        items.push(a);
        items.push(b);
        assert(items@ =~= seq![all[before.len() as int].0, all[before.len() as int].1]);
        r.push(JsonValue::Array(items));
        assert(r@ == before.push(r@[before.len() as int]));
    }
    r
}

/// Splits the comma-separated call arguments, trimming each.
pub fn split_call_args(args: &str) -> (r: Vec<String>)
    ensures
        r@.len() == split_on(args@, ',').len(),
        forall|j: int| 0 <= j < r@.len() ==> (#[trigger] r@[j])@ == trim(split_on(args@, ',')[j]),
{
    let chars = to_chars(args);
    let parts = split_chars(&chars, ',');
    let mut r: Vec<String> = Vec::new();
    for j in 0..parts.len()
        invariant
            crate::text::views(parts@) == split_on(args@, ','),
            r@.len() == j,
            forall|u: int| 0 <= u < j ==> (#[trigger] r@[u])@ == trim(split_on(args@, ',')[u]),
    {
        assert(parts@[j as int]@ == split_on(args@, ',')[j as int]);
        let t = trim_chars(&parts[j]);
        r.push(from_chars(&t));
    }
    r
}

/// The lower-cased text of an API error says that the server does not
/// know the merkle drop mutation: it names the mutation (`createmerkledrop`
/// once lower-cased) or an unknown field.
pub open spec fn missing_mutation_text(lower: Seq<char>) -> bool {
    ||| has_infix(lower, "createmerkledrop"@)
    ||| has_infix(lower, "no field named createmerkledrop"@)
    ||| has_infix(lower, "unknown field"@)
}

/// Whether a failed creation request is answered with a preview instead
/// of an error: the lower-cased error text names the missing mutation.
pub fn is_missing_mutation_error(error_text: &str) -> (r: bool)
    ensures
        r == missing_mutation_text(unicode_lowercase(error_text@)),
        is_ascii_text(error_text@) ==> r == missing_mutation_text(ascii_lower(error_text@)),
{
    let lower = lowercase(error_text);
    names_missing_mutation(lower.as_str())
}

/// Whether a lower-cased API error text names the missing mutation.
pub fn names_missing_mutation(lower: &str) -> (r: bool)
    ensures
        r == missing_mutation_text(lower@),
{
    let h = to_chars(lower);
    let a = to_chars("createmerkledrop");
    let b = to_chars("no field named createmerkledrop");
    let c = to_chars("unknown field");
    contains_chars(&h, &a) || contains_chars(&h, &b) || contains_chars(&h, &c)
}

/// The contract call a merkle drop is claimed through.
#[derive(Debug)]
pub struct MerkleDropConfig {
    pub description: Option<String>,
    pub network: String,
    pub contract: String,
    pub entrypoint: String,
    pub args: Option<Vec<String>>,
}

/// A merkle drop described in one JSON file: its key, its configuration
/// and its claim data.
#[derive(Debug)]
pub struct MerkleDropJsonConfig {
    pub key: String,
    pub config: MerkleDropConfig,
    pub data: Vec<(JsonValue, JsonValue)>,
}

/// The options of `merkle-drops create params`.
#[derive(Debug)]
pub struct CreateFromParamsArgs {
    pub key: String,
    pub description: Option<String>,
    pub network: String,
    pub contract: String,
    pub entrypoint: String,
    /// The call arguments, comma-separated.
    pub args: Option<String>,
    /// The JSON file with the claim data.
    pub data_file: String,
}

/// The options of `merkle-drops create json`.
#[derive(Debug)]
pub struct CreateFromJsonArgs {
    /// The JSON file with the configuration and the claim data.
    pub file: String,
}

/// The options of `merkle-drops create preset`.
#[derive(Debug)]
pub struct CreateFromPresetArgs {
    pub name: String,
    pub key: String,
    pub network: String,
}

/// The ways of creating a merkle drop.
#[derive(Debug)]
pub enum CreateSubcommand {
    Params(CreateFromParamsArgs),
    Json(CreateFromJsonArgs),
    Preset(CreateFromPresetArgs),
}

/// The options of `merkle-drops create`.
#[derive(Debug)]
pub struct CreateArgs {
    pub command: CreateSubcommand,
}

/// The call arguments a comma-separated text stands for: each piece
/// trimmed.
pub open spec fn call_args(args: Option<String>) -> Option<Seq<Seq<char>>> {
    match args {
        Some(a) => Some(split_on(a@, ',').map_values(|p: Seq<char>| trim(p))),
        None => None,
    }
}

impl CreateFromParamsArgs {
    /// The configuration of the drop given by the options.
    pub fn config(&self) -> (r: MerkleDropConfig)
        ensures
            r.description == self.description,
            r.network@ == self.network@,
            r.contract@ == self.contract@,
            r.entrypoint@ == self.entrypoint@,
            match r.args {
                Some(v) => call_args(self.args) == Some(v@.map_values(|s: String| s@)),
                None => self.args is None,
            },
    {
        let args = match &self.args {
            Some(a) => {
                let v = split_call_args(a.as_str());
                assert(v@.map_values(|s: String| s@) =~= split_on(a@, ',').map_values(|p: Seq<char>| trim(p)));
                Some(v)
            },
            None => None,
        };
        let description = match &self.description {
            Some(d) => Some(d.clone()),
            None => None,
        };
        MerkleDropConfig {
            description,
            network: self.network.clone(),
            contract: self.contract.clone(),
            entrypoint: self.entrypoint.clone(),
            args,
        }
    }
}

} // verus!
