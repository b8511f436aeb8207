//! `paymaster dune`: the Dune SQL query over a paymaster's policy contracts.

use vstd::prelude::*;
use crate::text::{from_chars, pad_left, pad_left_chars, push_chars, replace_all, replace_chars, to_chars};

verus! {

/// The options of `paymaster dune`.
#[derive(Debug)]
pub struct DuneArgs {
    /// Use the fast query (the default).
    pub fast: bool,
    /// Use the exact, slower query.
    pub exact: bool,
    /// The look-back period; the paymaster's creation time where absent.
    pub last: Option<String>,
    /// Leave Dune's own time parameters in the query.
    pub dune_params: bool,
}

/// `s` with every leading `0x` removed (`str::trim_start_matches("0x")`).
pub open spec fn strip_hex_prefixes(s: Seq<char>) -> Seq<char>
    decreases s.len(),
{
    if s.len() >= 2 && s[0] == '0' && s[1] == 'x' {
        strip_hex_prefixes(s.skip(2))
    } else {
        s
    }
}

/// How a contract address is written into the query: indented, with `0x`
/// and its digits padded with zeros to 64.
pub open spec fn dune_address(addr: Seq<char>) -> Seq<char> {
    "    0x"@ + pad_left(strip_hex_prefixes(addr), 64, '0')
}

fn strip_prefixes(v: &Vec<char>) -> (r: Vec<char>)
    ensures
        r@ == strip_hex_prefixes(v@),
{
    let mut i: usize = 0;
    assert(v@.skip(0) == v@);
    while v.len() - i >= 2 && v[i] == '0' && v[i + 1] == 'x'
        invariant
            i <= v.len(),
            strip_hex_prefixes(v@) == strip_hex_prefixes(v@.skip(i as int)),
        decreases v.len() - i,
    {
        assert(v@.skip(i as int).skip(2) == v@.skip(i + 2));
        i = i + 2;
    }
    let r = crate::text::sub_chars(v, i, v.len());
    assert(r@ == v@.skip(i as int));
    r
}

/// Writes a contract address as the query lists it.
pub fn format_dune_address(addr: &str) -> (r: String)
    ensures
        r@ == dune_address(addr@),
{
    let digits = pad_left_chars(&strip_prefixes(&to_chars(addr)), 64, '0');
    let mut s = String::from_str("    0x");
    push_chars(&mut s, &digits);
    s
}

/// No element occurs twice.
pub open spec fn no_repeats(s: Seq<Seq<char>>) -> bool {
    forall|a: int, b: int| 0 <= a < b < s.len() ==> s[a] != s[b]
}

/// The texts of a vector of strings.
pub open spec fn texts(v: Seq<String>) -> Seq<Seq<char>> {
    v.map_values(|s: String| s@)
}

/// The addresses with repeats dropped: each distinct text once, so that
/// the query lists every contract exactly once.
pub fn unique_addresses(addrs: &Vec<String>) -> (r: Vec<String>)
    ensures
        no_repeats(texts(r@)),
        forall|x: Seq<char>| texts(r@).contains(x) <==> texts(addrs@).contains(x),
{
    let mut r: Vec<String> = Vec::new();
    for i in 0..addrs.len()
        invariant
            no_repeats(texts(r@)),
            forall|x: Seq<char>| texts(r@).contains(x) <==> texts(addrs@).take(i as int).contains(x),
    {
        let a = &addrs[i];
        let mut seen = false;
        let mut j: usize = 0;
        while j < r.len()
            invariant
                j <= r@.len(),
                seen ==> texts(r@).contains(a@),
                !seen ==> forall|k: int| 0 <= k < j ==> texts(r@)[k] != a@,
            decreases r@.len() - j,
        {
            if r[j] == *a {
                assert(texts(r@)[j as int] == a@);
                seen = true;
            }
            j = j + 1;
        }
        let ghost before = texts(r@);
        proof {
            assert(texts(addrs@).take(i + 1) == texts(addrs@).take(i as int).push(a@));
        }
        if !seen {
            r.push(a.clone());
            proof {
                assert(texts(r@) =~= before.push(a@));
                assert forall|x: int, y: int| 0 <= x < y < texts(r@).len() implies texts(r@)[x] != texts(r@)[y] by {
                    if y == before.len() {
                        assert(texts(r@)[x] == before[x]);
                    }
                }
            }
        }
        proof {
            let now = texts(addrs@).take(i + 1);
            let prev = texts(addrs@).take(i as int);
            assert(seen ==> texts(r@) == before);
            assert(!seen ==> texts(r@) == before.push(a@));
            assert(now[i as int] == a@);
            assert forall|x: Seq<char>| texts(r@).contains(x) <==> now.contains(x) by {
                if now.contains(x) {
                    let k = choose|k: int| 0 <= k < now.len() && #[trigger] now[k] == x;
                    if k < i {
                        assert(prev[k] == x);
                        assert(prev.contains(x));
                        assert(before.contains(x));
                        let q = choose|q: int| 0 <= q < before.len() && #[trigger] before[q] == x;
                        assert(texts(r@)[q] == x);
                    } else {
                        assert(x == a@);
                        if !seen {
                            assert(texts(r@)[before.len() as int] == x);
                        }
                    }
                }
                if texts(r@).contains(x) {
                    let q = choose|q: int| 0 <= q < texts(r@).len() && #[trigger] texts(r@)[q] == x;
                    if q < before.len() {
                        assert(before[q] == x);
                        assert(before.contains(x));
                        assert(prev.contains(x));
                        let k = choose|k: int| 0 <= k < prev.len() && #[trigger] prev[k] == x;
                        assert(now[k] == x);
                    } else {
                        assert(x == a@);
                        assert(now[i as int] == x);
                    }
                }
            }
        }
    }
    assert(texts(addrs@).take(addrs.len() as int) == texts(addrs@));
    r
}

/// The texts joined with a separator between each two.
pub open spec fn join(parts: Seq<Seq<char>>, sep: Seq<char>) -> Seq<char>
    decreases parts.len(),
{
    if parts.len() == 0 {
        seq![]
    } else if parts.len() == 1 {
        parts[0]
    } else {
        join(parts.drop_last(), sep) + sep + parts.last()
    }
}

/// Joins the strings with a separator.
pub fn join_strings(parts: &Vec<String>, sep: &str) -> (r: String)
    ensures
        r@ == join(texts(parts@), sep@),
{
    let mut s = String::new();
    for i in 0..parts.len()
        invariant
            s@ == join(texts(parts@).take(i as int), sep@),
    {
        let ghost prev = texts(parts@).take(i as int);
        assert(texts(parts@).take(i + 1).drop_last() == prev);
        if i > 0 {
            s.append(sep);
        }
        s.append(parts[i].as_str());
        assert(texts(parts@).take(i + 1).last() == parts@[i as int]@);
        if i == 0 {
            assert(s@ =~= join(texts(parts@).take(i + 1), sep@));
        }
    }
    assert(texts(parts@).take(parts.len() as int) == texts(parts@));
    s
}

/// The start time as the query writes it: the date, a space and the time,
/// without the zone letter (`T` made a space, `Z` dropped).
pub open spec fn dune_time(created_at: Seq<char>) -> Seq<char> {
    replace_all(replace_all(created_at, "T"@, " "@), "Z"@, ""@)
}

/// Writes a start time for the query.
pub fn format_dune_time(created_at: &str) -> (r: String)
    ensures
        r@ == dune_time(created_at@),
{
    let t = to_chars("T");
    let z = to_chars("Z");
    proof {
        reveal_strlit("T");
        reveal_strlit("Z");
    }
    let a = replace_chars(&to_chars(created_at), &t, &to_chars(" "));
    let b = replace_chars(&a, &z, &to_chars(""));
    from_chars(&b)
}

/// The name of the query template the options select.
pub open spec fn template_name(exact: bool) -> Seq<char> {
    if exact { "exact.sql"@ } else { "fast.sql"@ }
}

impl DuneArgs {
    /// The name of the template file the options select.
    pub fn template_file(&self) -> (r: &'static str)
        ensures
            r@ == template_name(self.exact),
    {
        if self.exact { "exact.sql" } else { "fast.sql" }
    }
}

/// The time constraint that closes the query: Dune's end-time parameter
/// where the query keeps Dune's parameters, else nothing.
pub open spec fn end_time_constraint(dune_params: bool) -> Seq<char> {
    if dune_params { "AND t.block_time <= TIMESTAMP '{{end_time}}'"@ } else { ""@ }
}

/// The query: the template with its placeholders for the contract list,
/// the start time and the end-time constraint filled in, in that order.
pub open spec fn dune_query(template: Seq<char>, addresses: Seq<Seq<char>>, start_time: Seq<char>, dune_params: bool) -> Seq<char> {
    replace_all(
        replace_all(
            replace_all(template, "{contract_addresses}"@, join(addresses, ",\n"@)),
            "{start_time}"@, start_time),
        "{end_time_constraint}"@, end_time_constraint(dune_params))
}

/// Fills the query template.
pub fn build_dune_query(template: &str, addresses: &Vec<String>, start_time: &str, dune_params: bool) -> (r: String)
    ensures
        r@ == dune_query(template@, texts(addresses@), start_time@, dune_params),
{
    proof {
        reveal_strlit("{contract_addresses}");
        reveal_strlit("{start_time}");
        reveal_strlit("{end_time_constraint}");
    }
    let list = join_strings(addresses, ",\n");
    let a = replace_chars(&to_chars(template), &to_chars("{contract_addresses}"), &to_chars(list.as_str()));
    let b = replace_chars(&a, &to_chars("{start_time}"), &to_chars(start_time));
    let end = if dune_params { "AND t.block_time <= TIMESTAMP '{{end_time}}'" } else { "" };
    let c = replace_chars(&b, &to_chars("{end_time_constraint}"), &to_chars(end));
    from_chars(&c)
}

/// The contract list of the query: each policy contract written as the
/// query lists it, each once.
pub fn query_addresses(contracts: &Vec<String>) -> (r: Vec<String>)
    ensures
        no_repeats(texts(r@)),
        forall|x: Seq<char>| texts(r@).contains(x) <==>
            exists|i: int| 0 <= i < contracts@.len() && x == dune_address(#[trigger] contracts@[i]@),
{
    let mut formatted: Vec<String> = Vec::new();
    for i in 0..contracts.len()
        invariant
            formatted@.len() == i,
            forall|k: int| 0 <= k < i ==> (#[trigger] formatted@[k])@ == dune_address(contracts@[k]@),
    {
        formatted.push(format_dune_address(contracts[i].as_str()));
    }
    let r = unique_addresses(&formatted);
    proof {
        assert forall|x: Seq<char>| texts(r@).contains(x) <==>
            exists|i: int| 0 <= i < contracts@.len() && x == dune_address(#[trigger] contracts@[i]@) by {
            if texts(formatted@).contains(x) {
                let k = choose|k: int| 0 <= k < texts(formatted@).len() && #[trigger] texts(formatted@)[k] == x;
                assert(x == dune_address(contracts@[k]@));
            }
            if exists|i: int| 0 <= i < contracts@.len() && x == dune_address(#[trigger] contracts@[i]@) {
                let i = choose|i: int| 0 <= i < contracts@.len() && x == dune_address(#[trigger] contracts@[i]@);
                assert(texts(formatted@)[i] == x);
            }
        }
    }
    r
}

/// The start time the query is given. Where the query keeps Dune's own
/// parameters it is Dune's `{{start_time}}`. Otherwise it is the start of
/// the look-back period where one was given (its error stops the command),
/// else the paymaster's creation time (`None`: the paymaster was not found),
/// written as Dune reads it.
pub fn dune_start_time(
    dune_params: bool,
    look_back: Option<Result<String, String>>,
    created_at: Option<String>,
) -> (r: Result<Option<String>, String>)
    ensures
        dune_params ==> (r matches Ok(Some(t)) && t@ == "{{start_time}}"@),
        !dune_params ==> match look_back {
            Some(Err(m)) => r matches Err(e) && e@ == m@,
            Some(Ok(t)) => r matches Ok(Some(x)) && x@ == dune_time(t@),
            None => match created_at {
                None => r matches Ok(None),
                Some(c) => r matches Ok(Some(x)) && x@ == dune_time(c@),
            },
        },
{
    if dune_params {
        return Ok(Some(String::from_str("{{start_time}}")));
    }
    match look_back {
        Some(Err(m)) => Err(m),
        Some(Ok(t)) => Ok(Some(format_dune_time(t.as_str()))),
        None => match created_at {
            None => Ok(None),
            Some(c) => Ok(Some(format_dune_time(c.as_str()))),
        },
    }
}

} // verus!
