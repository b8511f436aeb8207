//! `merkle-drops process`: rewards per holder from several snapshots.

use vstd::prelude::*;
use crate::text::{decimal, u64_to_string};

verus! {

/// Per-NFT reward amounts: for each contract address, one amount per reward
/// token. No contract address occurs twice.
#[derive(Debug)]
pub struct RewardsConfig {
    pub contracts: Vec<(String, Vec<u64>)>,
}

/// The holders of one contract at one block: each entry is a holder address
/// with the token ids it holds.
#[derive(Debug)]
pub struct SnapshotData {
    pub network: String,
    pub contract_address: String,
    pub snapshot: Vec<(String, Vec<String>)>,
}

/// The arguments of `merkle-drops process`.
#[derive(Debug)]
pub struct ProcessArgs {
    pub name: String,
    pub description: String,
    pub claim_contract: String,
    pub entrypoint: String,
    pub snapshots: Vec<String>,
    pub rewards_config: String,
    pub output: String,
}

/// The processed drop, ready for `merkle-drops create`: one row per holder
/// with its reward for each token.
#[derive(Debug)]
pub struct ProcessedData {
    pub name: String,
    pub network: String,
    pub description: String,
    pub claim_contract: String,
    pub entrypoint: String,
    pub snapshot: Vec<(String, Vec<i64>)>,
}

/// Why processing stopped.
#[derive(Debug)]
pub enum ProcessError {
    /// A contract lists another number of reward tokens than the first one.
    TokenCountMismatch { contract: String, found: usize, expected_count: usize },
    /// No snapshot was given.
    NoSnapshots,
    /// A snapshot is on another network than the first one.
    NetworkMismatch { contract: String, network: String, expected: String },
    /// No holder earns anything.
    NoHolders,
}

impl RewardsConfig {
    /// No contract address occurs twice.
    pub open spec fn well_formed(&self) -> bool {
        forall|i: int, j: int|
            0 <= i < j < self.contracts@.len() ==> (#[trigger] self.contracts@[i]).0@ != (#[trigger] self.contracts@[j]).0@
    }
}

/// The number of reward tokens: that of the first contract, or one when
/// there is none.
pub open spec fn token_count(cfg: Seq<(String, Vec<u64>)>) -> nat {
    if cfg.len() == 0 { 1 } else { cfg[0].1@.len() }
}

/// Every contract lists `n` reward amounts.
pub open spec fn uniform_token_count(cfg: Seq<(String, Vec<u64>)>, n: nat) -> bool {
    forall|i: int| 0 <= i < cfg.len() ==> (#[trigger] cfg[i]).1@.len() == n
}

/// The reward amounts of a contract, if it is configured.
pub open spec fn rates_of(cfg: Seq<(String, Vec<u64>)>, contract: Seq<char>) -> Option<Seq<u64>>
    decreases cfg.len(),
{
    if cfg.len() == 0 {
        None
    } else if cfg[0].0@ == contract {
        Some(cfg[0].1@)
    } else {
        rates_of(cfg.drop_first(), contract)
    }
}

/// How many tokens `holder` holds over all its entries of one snapshot.
pub open spec fn holdings(entries: Seq<(String, Vec<String>)>, holder: Seq<char>) -> nat
    decreases entries.len(),
{
    if entries.len() == 0 {
        0
    } else {
        holdings(entries.drop_last(), holder)
            + if entries.last().0@ == holder { entries.last().1@.len() } else { 0 }
    }
}

/// What one snapshot gives `holder` of token `k`: the tokens it holds there
/// times the contract's amount per token, or nothing when the contract is not
/// configured.
pub open spec fn snapshot_reward(
    cfg: Seq<(String, Vec<u64>)>,
    snap: SnapshotData,
    holder: Seq<char>,
    k: int,
) -> nat {
    match rates_of(cfg, snap.contract_address@) {
        Some(r) => if 0 <= k < r.len() { (holdings(snap.snapshot@, holder) * r[k]) as nat } else { 0 },
        None => 0,
    }
}

/// The reward of `holder` in token `k`: the sum over all snapshots.
pub open spec fn reward_of(
    snaps: Seq<SnapshotData>,
    cfg: Seq<(String, Vec<u64>)>,
    holder: Seq<char>,
    k: int,
) -> nat
    decreases snaps.len(),
{
    if snaps.len() == 0 {
        0
    } else {
        reward_of(snaps.drop_last(), cfg, holder, k) + snapshot_reward(cfg, snaps.last(), holder, k)
    }
}

/// Every reward fits in the 64-bit signed amounts of the output.
pub open spec fn rewards_fit(snaps: Seq<SnapshotData>, cfg: Seq<(String, Vec<u64>)>) -> bool {
    forall|h: Seq<char>, k: int|
        0 <= k < token_count(cfg) ==> #[trigger] reward_of(snaps, cfg, h, k) <= i64::MAX
}

/// Some of the first `n` amounts is positive.
pub open spec fn row_positive(v: Seq<i64>, n: nat) -> bool {
    exists|k: int| 0 <= k < n && #[trigger] v[k] > 0
}

/// `rows` lists each rewarded holder once, with its reward in each of the
/// `n` tokens, and lists no one else.
pub open spec fn is_reward_table(
    rows: Seq<(String, Vec<i64>)>,
    snaps: Seq<SnapshotData>,
    cfg: Seq<(String, Vec<u64>)>,
    n: nat,
) -> bool {
    &&& forall|i: int, j: int| 0 <= i < j < rows.len() ==> (#[trigger] rows[i]).0@ != (#[trigger] rows[j]).0@
    &&& forall|i: int| 0 <= i < rows.len() ==> (#[trigger] rows[i]).1@.len() == n
    &&& forall|i: int, k: int|
        0 <= i < rows.len() && 0 <= k < n ==> #[trigger] rows[i].1@[k] == reward_of(snaps, cfg, rows[i].0@, k)
    &&& forall|i: int| 0 <= i < rows.len() ==> row_positive((#[trigger] rows[i]).1@, n)
    &&& forall|h: Seq<char>, k: int|
        0 <= k < n && #[trigger] reward_of(snaps, cfg, h, k) > 0 ==> exists|i: int| 0 <= i < rows.len() && (#[trigger] rows[i]).0@ == h
}

/// The holder table after the snapshots before `i` and the first `j`
/// entries of snapshot `i`: every holder with something is listed once, with
/// exactly what that part of the input gives it.
pub open spec fn table_at(
    holders: Seq<String>,
    values: Seq<Vec<i64>>,
    n: nat,
    snaps: Seq<SnapshotData>,
    cfg: Seq<(String, Vec<u64>)>,
    i: int,
    j: int,
) -> bool {
    &&& holders.len() == values.len()
    &&& forall|a: int, b: int| 0 <= a < b < holders.len() ==> (#[trigger] holders[a])@ != (#[trigger] holders[b])@
    &&& forall|t: int| 0 <= t < values.len() ==> (#[trigger] values[t])@.len() == n
    &&& forall|t: int, k: int|
        0 <= t < values.len() && 0 <= k < n ==> #[trigger] values[t]@[k] == partial_reward(snaps, cfg, i, j, holders[t]@, k)
    &&& forall|h: Seq<char>, k: int|
        0 <= k < n && (forall|t: int| 0 <= t < holders.len() ==> (#[trigger] holders[t])@ != h)
            ==> #[trigger] partial_reward(snaps, cfg, i, j, h, k) == 0
}

/// What the snapshots before `i`, and the first `j` entries of snapshot `i`,
/// give `h` of token `k`.
pub open spec fn partial_reward(
    snaps: Seq<SnapshotData>,
    cfg: Seq<(String, Vec<u64>)>,
    i: int,
    j: int,
    h: Seq<char>,
    k: int,
) -> int {
    reward_of(snaps.take(i), cfg, h, k) + match rates_of(cfg, snaps[i].contract_address@) {
        Some(r) => if 0 <= k < r.len() { holdings(snaps[i].snapshot@.take(j), h) * r[k] } else { 0 },
        None => 0,
    }
}

proof fn lemma_holdings_take_monotone(e: Seq<(String, Vec<String>)>, h: Seq<char>, a: int, b: int)
    requires
        0 <= a <= b <= e.len(),
    ensures
        holdings(e.take(a), h) <= holdings(e.take(b), h),
    decreases b - a,
{
    if a < b {
        lemma_holdings_take_monotone(e, h, a, b - 1);
        assert(e.take(b).drop_last() == e.take(b - 1));
    }
}

proof fn lemma_reward_take_monotone(
    snaps: Seq<SnapshotData>,
    cfg: Seq<(String, Vec<u64>)>,
    h: Seq<char>,
    k: int,
    a: int,
    b: int,
)
    requires
        0 <= a <= b <= snaps.len(),
    ensures
        reward_of(snaps.take(a), cfg, h, k) <= reward_of(snaps.take(b), cfg, h, k),
    decreases b - a,
{
    if a < b {
        lemma_reward_take_monotone(snaps, cfg, h, k, a, b - 1);
        assert(snaps.take(b).drop_last() == snaps.take(b - 1));
    }
}

proof fn lemma_table_transfer(
    holders: Seq<String>,
    values: Seq<Vec<i64>>,
    n: nat,
    snaps: Seq<SnapshotData>,
    cfg: Seq<(String, Vec<u64>)>,
    i1: int,
    j1: int,
    i2: int,
    j2: int,
)
    requires
        table_at(holders, values, n, snaps, cfg, i1, j1),
        forall|h: Seq<char>, k: int| #[trigger] partial_reward(snaps, cfg, i2, j2, h, k) == partial_reward(snaps, cfg, i1, j1, h, k),
    ensures
        table_at(holders, values, n, snaps, cfg, i2, j2),
{
    assert forall|t: int, k: int| 0 <= t < values.len() && 0 <= k < n implies
        #[trigger] values[t]@[k] == partial_reward(snaps, cfg, i2, j2, holders[t]@, k) by {
        assert(partial_reward(snaps, cfg, i2, j2, holders[t]@, k) == partial_reward(snaps, cfg, i1, j1, holders[t]@, k));
    }
    assert forall|h: Seq<char>, k: int|
        0 <= k < n && (forall|t: int| 0 <= t < holders.len() ==> (#[trigger] holders[t])@ != h) implies
            #[trigger] partial_reward(snaps, cfg, i2, j2, h, k) == 0 by {
        assert(partial_reward(snaps, cfg, i2, j2, h, k) == partial_reward(snaps, cfg, i1, j1, h, k));
    }
}

proof fn lemma_partial_full(
    snaps: Seq<SnapshotData>,
    cfg: Seq<(String, Vec<u64>)>,
    i: int,
    h: Seq<char>,
    k: int,
)
    requires
        0 <= i < snaps.len(),
    ensures
        partial_reward(snaps, cfg, i, snaps[i].snapshot@.len() as int, h, k) == reward_of(snaps.take(i + 1), cfg, h, k),
        partial_reward(snaps, cfg, i, 0, h, k) == reward_of(snaps.take(i), cfg, h, k),
{
    assert(snaps.take(i + 1).drop_last() == snaps.take(i));
    assert(snaps.take(i + 1).last() == snaps[i]);
    assert(snaps[i].snapshot@.take(snaps[i].snapshot@.len() as int) == snaps[i].snapshot@);
    assert(snaps[i].snapshot@.take(0).len() == 0);
    assert(holdings(snaps[i].snapshot@.take(0), h) == 0);
    match rates_of(cfg, snaps[i].contract_address@) {
        Some(r) => {
            if 0 <= k < r.len() {
                let a = holdings(snaps[i].snapshot@, h);
                let c = r[k];
                assert(a * c >= 0) by (nonlinear_arith)
                    requires a >= 0, c >= 0;
                assert(0 * c == 0);
            }
        },
        None => {},
    }
}

proof fn lemma_partial_below_total(
    snaps: Seq<SnapshotData>,
    cfg: Seq<(String, Vec<u64>)>,
    i: int,
    j: int,
    h: Seq<char>,
    k: int,
)
    requires
        0 <= i < snaps.len(),
        0 <= j <= snaps[i].snapshot@.len(),
    ensures
        partial_reward(snaps, cfg, i, j, h, k) <= reward_of(snaps, cfg, h, k),
{
    let e = snaps[i].snapshot@;
    lemma_holdings_take_monotone(e, h, j, e.len() as int);
    assert(e.take(e.len() as int) == e);
    match rates_of(cfg, snaps[i].contract_address@) {
        Some(r) => {
            if 0 <= k < r.len() {
                let a = holdings(e.take(j), h);
                let b = holdings(e, h);
                let c = r[k];
                assert(a * c <= b * c) by (nonlinear_arith)
                    requires a <= b, c >= 0;
            }
        },
        None => {},
    }
    lemma_partial_full(snaps, cfg, i, h, k);
    lemma_reward_take_monotone(snaps, cfg, h, k, i + 1, snaps.len() as int);
    assert(snaps.take(snaps.len() as int) == snaps);
}

/// Position of a holder in the table.
fn find_holder(holders: &Vec<String>, h: &String) -> (r: Option<usize>)
    ensures
        match r {
            Some(t) => t < holders.len() && holders@[t as int]@ == h@,
            None => forall|t: int| 0 <= t < holders.len() ==> (#[trigger] holders@[t])@ != h@,
        },
{
    for t in 0..holders.len()
        invariant
            forall|u: int| 0 <= u < t ==> (#[trigger] holders@[u])@ != h@,
    {
        if holders[t] == *h {
            return Some(t);
        }
    }
    None
}

/// The reward amounts of a contract, looked up in the configuration.
fn lookup_rates<'a>(cfg: &'a Vec<(String, Vec<u64>)>, contract: &String) -> (r: Option<&'a Vec<u64>>)
    ensures
        match r {
            Some(v) => rates_of(cfg@, contract@) == Some(v@),
            None => rates_of(cfg@, contract@) is None,
        },
{
    let mut i: usize = 0;
    assert(cfg@.skip(0) == cfg@);
    while i < cfg.len()
        invariant
            i <= cfg.len(),
            rates_of(cfg@, contract@) == rates_of(cfg@.skip(i as int), contract@),
        decreases cfg.len() - i,
    {
        assert(cfg@.skip(i as int).drop_first() == cfg@.skip(i + 1));
        if cfg[i].0 == *contract {
            return Some(&cfg[i].1);
        }
        i = i + 1;
    }
    None
}

/// `row` with `count` times `rates` added, or `None` when a sum passes the
/// largest signed 64-bit amount.
fn add_scaled(row: &Vec<i64>, count: u64, rates: &Vec<u64>) -> (r: Option<Vec<i64>>)
    requires
        row.len() == rates.len(),
        forall|k: int| 0 <= k < row.len() ==> row@[k] >= 0,
    ensures
        match r {
            Some(v) => v.len() == row.len() && forall|k: int|
                0 <= k < row.len() ==> #[trigger] v@[k] == row@[k] + count * rates@[k] && v@[k] >= row@[k],
            None => exists|k: int| 0 <= k < row.len() && row@[k] + count * rates@[k] > i64::MAX,
        },
{
    let mut out: Vec<i64> = Vec::new();
    for k in 0..row.len()
        invariant
            row.len() == rates.len(),
            forall|m: int| 0 <= m < row.len() ==> row@[m] >= 0,
            out.len() == k,
            forall|m: int| 0 <= m < k ==> #[trigger] out@[m] == row@[m] + count * rates@[m] && out@[m] >= row@[m],
    {
        let cur = row[k] as u64;
        match count.checked_mul(rates[k]) {
            None => {
                assert(count * rates@[k as int] > u64::MAX);
                return None;
            },
            Some(p) => {
                if p > (i64::MAX as u64) - cur {
                    return None;
                }
                out.push((cur + p) as i64);
            },
        }
    }
    Some(out)
}

proof fn lemma_rates_of_member(cfg: Seq<(String, Vec<u64>)>, contract: Seq<char>)
    ensures
        rates_of(cfg, contract) matches Some(r) ==> exists|m: int| 0 <= m < cfg.len() && (#[trigger] cfg[m]).1@ == r,
    decreases cfg.len(),
{
    if cfg.len() > 0 && cfg[0].0@ != contract {
        lemma_rates_of_member(cfg.drop_first(), contract);
        if rates_of(cfg, contract) is Some {
            let m = choose|m: int| 0 <= m < cfg.drop_first().len() && (#[trigger] cfg.drop_first()[m]).1@ == rates_of(cfg, contract)->0;
            assert(cfg[m + 1] == cfg.drop_first()[m]);
        }
    }
}

proof fn lemma_partial_step(
    snaps: Seq<SnapshotData>,
    cfg: Seq<(String, Vec<u64>)>,
    i: int,
    j: int,
    h: Seq<char>,
    k: int,
)
    requires
        0 <= i < snaps.len(),
        0 <= j < snaps[i].snapshot@.len(),
    ensures
        partial_reward(snaps, cfg, i, j + 1, h, k) == partial_reward(snaps, cfg, i, j, h, k) + match rates_of(cfg, snaps[i].contract_address@) {
            Some(r) => if 0 <= k < r.len() && snaps[i].snapshot@[j].0@ == h {
                snaps[i].snapshot@[j].1@.len() * r[k]
            } else {
                0
            },
            None => 0,
        },
{
    let e = snaps[i].snapshot@;
    assert(e.take(j + 1).drop_last() == e.take(j));
    assert(e.take(j + 1).last() == e[j]);
    match rates_of(cfg, snaps[i].contract_address@) {
        Some(r) => {
            if 0 <= k < r.len() {
                let a = holdings(e.take(j), h);
                let c = r[k];
                let d: int = if e[j].0@ == h { e[j].1@.len() as int } else { 0 };
                assert((a + d) * c == a * c + d * c) by (nonlinear_arith);
            }
        },
        None => {},
    }
}

proof fn lemma_partial_start(snaps: Seq<SnapshotData>, cfg: Seq<(String, Vec<u64>)>, i: int, h: Seq<char>, k: int)
    requires
        0 <= i <= snaps.len(),
    ensures
        partial_reward(snaps, cfg, i, 0, h, k) == reward_of(snaps.take(i), cfg, h, k),
{
    assert(snaps[i].snapshot@.take(0).len() == 0);
    assert(holdings(snaps[i].snapshot@.take(0), h) == 0);
}

proof fn lemma_table_push(
    holders: Seq<String>,
    values: Seq<Vec<i64>>,
    n: nat,
    snaps: Seq<SnapshotData>,
    cfg: Seq<(String, Vec<u64>)>,
    i: int,
    j: int,
    h: String,
    z: Vec<i64>,
)
    requires
        table_at(holders, values, n, snaps, cfg, i, j),
        forall|t: int| 0 <= t < holders.len() ==> (#[trigger] holders[t])@ != h@,
        z@.len() == n,
        forall|k: int| 0 <= k < n ==> #[trigger] z@[k] == 0,
    ensures
        table_at(holders.push(h), values.push(z), n, snaps, cfg, i, j),
{
    let hs = holders.push(h);
    let vs = values.push(z);
    assert forall|t: int, k: int| 0 <= t < vs.len() && 0 <= k < n implies
        #[trigger] vs[t]@[k] == partial_reward(snaps, cfg, i, j, hs[t]@, k) by {
        if t == holders.len() {
            assert(partial_reward(snaps, cfg, i, j, h@, k) == 0);
        } else {
            assert(vs[t] == values[t] && hs[t] == holders[t]);
        }
    }
    assert forall|a: int, b: int| 0 <= a < b < hs.len() implies (#[trigger] hs[a])@ != (#[trigger] hs[b])@ by {
        if b == holders.len() {
            assert(hs[a] == holders[a]);
        } else {
            assert(hs[a] == holders[a] && hs[b] == holders[b]);
        }
    }
    assert forall|g: Seq<char>, k: int|
        0 <= k < n && (forall|t: int| 0 <= t < hs.len() ==> (#[trigger] hs[t])@ != g) implies
            #[trigger] partial_reward(snaps, cfg, i, j, g, k) == 0 by {
        assert forall|t: int| 0 <= t < holders.len() implies (#[trigger] holders[t])@ != g by {
            assert(hs[t] == holders[t]);
        }
    }
    assert forall|t: int| 0 <= t < vs.len() implies (#[trigger] vs[t])@.len() == n by {
        if t < values.len() {
            assert(vs[t] == values[t]);
        }
    }
}

proof fn lemma_table_update(
    holders: Seq<String>,
    values: Seq<Vec<i64>>,
    n: nat,
    snaps: Seq<SnapshotData>,
    cfg: Seq<(String, Vec<u64>)>,
    i: int,
    j: int,
    rates: Seq<u64>,
    t: int,
    row: Vec<i64>,
)
    requires
        table_at(holders, values, n, snaps, cfg, i, j),
        0 <= i < snaps.len(),
        0 <= j < snaps[i].snapshot@.len(),
        rates_of(cfg, snaps[i].contract_address@) == Some(rates),
        rates.len() == n,
        0 <= t < holders.len(),
        holders[t]@ == snaps[i].snapshot@[j].0@,
        row@.len() == n,
        forall|k: int| 0 <= k < n ==> #[trigger] row@[k] == values[t]@[k] + snaps[i].snapshot@[j].1@.len() * rates[k],
    ensures
        table_at(holders, values.update(t, row), n, snaps, cfg, i, j + 1),
{
    let e = snaps[i].snapshot@[j];
    let vs = values.update(t, row);
    assert forall|u: int, k: int| 0 <= u < vs.len() && 0 <= k < n implies
        #[trigger] vs[u]@[k] == partial_reward(snaps, cfg, i, j + 1, holders[u]@, k) by {
        lemma_partial_step(snaps, cfg, i, j, holders[u]@, k);
        if u != t {
            assert(holders[u]@ != e.0@);
        }
    }
    assert forall|g: Seq<char>, k: int|
        0 <= k < n && (forall|u: int| 0 <= u < holders.len() ==> (#[trigger] holders[u])@ != g) implies
            #[trigger] partial_reward(snaps, cfg, i, j + 1, g, k) == 0 by {
        lemma_partial_step(snaps, cfg, i, j, g, k);
        assert(holders[t]@ != g);
    }
    assert forall|u: int| 0 <= u < vs.len() implies (#[trigger] vs[u])@.len() == n by {
        if u != t {
            assert(vs[u] == values[u]);
        }
    }
}

fn zeros(n: usize) -> (r: Vec<i64>)
    ensures
        r.len() == n,
        forall|k: int| 0 <= k < n ==> #[trigger] r@[k] == 0,
{
    let mut r: Vec<i64> = Vec::new();
    for k in 0..n
        invariant
            r.len() == k,
            forall|m: int| 0 <= m < k ==> #[trigger] r@[m] == 0,
    {
        r.push(0);
    }
    r
}

fn any_positive(v: &Vec<i64>) -> (b: bool)
    ensures
        b == exists|k: int| 0 <= k < v.len() && #[trigger] v@[k] > 0,
{
    for k in 0..v.len()
        invariant
            forall|m: int| 0 <= m < k ==> #[trigger] v@[m] <= 0,
    {
        if v[k] > 0 {
            return true;
        }
    }
    false
}

fn copy_row(v: &Vec<i64>) -> (r: Vec<i64>)
    ensures
        r@ == v@,
{
    let mut r: Vec<i64> = Vec::new();
    for k in 0..v.len()
        invariant
            r@ == v@.take(k as int),
    {
        r.push(v[k]);
        assert(v@.take(k + 1) == v@.take(k as int).push(v@[k as int]));
    }
    assert(v@.take(v.len() as int) == v@);
    r
}

/// The reward table, or `None` where a reward does not fit in 64 signed
/// bits (where the command's unchecked arithmetic panics).
pub fn try_calculate_rewards(snapshots: &Vec<SnapshotData>, rewards_config: &RewardsConfig) -> (r: Option<Vec<(String, Vec<i64>)>>)
    requires
        uniform_token_count(rewards_config.contracts@, token_count(rewards_config.contracts@)),
    ensures
        r is Some <==> rewards_fit(snapshots@, rewards_config.contracts@),
        r matches Some(rows) ==> is_reward_table(
            rows@,
            snapshots@,
            rewards_config.contracts@,
            token_count(rewards_config.contracts@),
        ),
{
    let cfg = &rewards_config.contracts;
    let ghost snaps = snapshots@;
    let n: usize = if cfg.len() == 0 { 1 } else { cfg[0].1.len() };
    let mut holders: Vec<String> = Vec::new();
    let mut values: Vec<Vec<i64>> = Vec::new();
    proof {
        assert forall|h: Seq<char>, k: int| #[trigger] partial_reward(snaps, cfg@, 0, 0, h, k) == 0 by {
            lemma_partial_start(snaps, cfg@, 0, h, k);
            assert(snaps.take(0).len() == 0);
        }
    }
    for i in 0..snapshots.len()
        invariant
            snaps == snapshots@,
            cfg@ == rewards_config.contracts@,
            n == token_count(cfg@),
            uniform_token_count(cfg@, n as nat),
            table_at(holders@, values@, n as nat, snaps, cfg@, i as int, 0),
            forall|t: int, k: int| 0 <= t < values@.len() && 0 <= k < n ==> #[trigger] values@[t]@[k] >= 0,
    {
        let snap = &snapshots[i];
        proof {
            assert forall|h: Seq<char>, k: int| #[trigger] partial_reward(snaps, cfg@, i + 1, 0, h, k)
                == partial_reward(snaps, cfg@, i as int, snaps[i as int].snapshot@.len() as int, h, k) by {
                lemma_partial_full(snaps, cfg@, i as int, h, k);
                lemma_partial_start(snaps, cfg@, i + 1, h, k);
            }
        }
        match lookup_rates(cfg, &snap.contract_address) {
            None => {
                proof {
                    assert forall|h: Seq<char>, k: int| #[trigger] partial_reward(snaps, cfg@, i + 1, 0, h, k)
                        == partial_reward(snaps, cfg@, i as int, 0, h, k) by {
                        lemma_partial_full(snaps, cfg@, i as int, h, k);
                    }
                    lemma_table_transfer(holders@, values@, n as nat, snaps, cfg@, i as int, 0, i + 1, 0);
                }
            },
            Some(rates) => {
                proof {
                    lemma_rates_of_member(cfg@, snap.contract_address@);
                }
                for j in 0..snap.snapshot.len()
                    invariant
                        snaps == snapshots@,
                        cfg@ == rewards_config.contracts@,
                        i < snaps.len(),
                        *snap == snaps[i as int],
                        n == token_count(cfg@),
                        rates@.len() == n,
                        rates_of(cfg@, snap.contract_address@) == Some(rates@),
                        table_at(holders@, values@, n as nat, snaps, cfg@, i as int, j as int),
                        forall|t: int, k: int| 0 <= t < values@.len() && 0 <= k < n ==> #[trigger] values@[t]@[k] >= 0,
                {
                    let entry = &snap.snapshot[j];
                    let count = entry.1.len() as u64;
                    if count > 0 {
                        let t = match find_holder(&holders, &entry.0) {
                            Some(t) => t,
                            None => {
                                let z = zeros(n);
                                let h = entry.0.clone();
                                proof {
                                    lemma_table_push(holders@, values@, n as nat, snaps, cfg@, i as int, j as int, h, z);
                                }
                                holders.push(h);
                                values.push(z);
                                holders.len() - 1
                            },
                        };
                        match add_scaled(&values[t], count, rates) {
                            None => {
                                proof {
                                    let k = choose|k: int| 0 <= k < n && values@[t as int]@[k] + count * rates@[k] > i64::MAX;
                                    assert(*entry == snaps[i as int].snapshot@[j as int]);
                                    assert(holders@[t as int]@ == entry.0@);
                                    assert(values@[t as int]@[k] == partial_reward(snaps, cfg@, i as int, j as int, entry.0@, k));
                                    lemma_partial_step(snaps, cfg@, i as int, j as int, entry.0@, k);
                                    assert(partial_reward(snaps, cfg@, i as int, j + 1, entry.0@, k)
                                        == values@[t as int]@[k] + count * rates@[k]);
                                    lemma_partial_below_total(snaps, cfg@, i as int, j + 1, entry.0@, k);
                                    assert(reward_of(snaps, cfg@, entry.0@, k) > i64::MAX);
                                    assert(!rewards_fit(snaps, cfg@));
                                }
                                return None;
                            },
                            Some(row) => {
                                proof {
                                    lemma_table_update(holders@, values@, n as nat, snaps, cfg@, i as int, j as int, rates@, t as int, row);
                                }
                                values.set(t, row);
                            },
                        }
                    } else {
                        proof {
                            assert(*entry == snaps[i as int].snapshot@[j as int]);
                            assert(entry.1@.len() == 0);
                            assert forall|h: Seq<char>, k: int| #[trigger] partial_reward(snaps, cfg@, i as int, j + 1, h, k)
                                == partial_reward(snaps, cfg@, i as int, j as int, h, k) by {
                                lemma_partial_step(snaps, cfg@, i as int, j as int, h, k);
                                if 0 <= k < n {
                                    assert(0 * rates@[k] == 0);
                                }
                            }
                            lemma_table_transfer(holders@, values@, n as nat, snaps, cfg@, i as int, j as int, i as int, j + 1);
                        }
                    }
                }
                proof {
                    lemma_table_transfer(holders@, values@, n as nat, snaps, cfg@, i as int, snaps[i as int].snapshot@.len() as int, i + 1, 0);
                }
            },
        }
    }
    proof {
        assert forall|h: Seq<char>, k: int| #[trigger] partial_reward(snaps, cfg@, snaps.len() as int, 0, h, k)
            == reward_of(snaps, cfg@, h, k) by {
            lemma_partial_start(snaps, cfg@, snaps.len() as int, h, k);
            assert(snaps.take(snaps.len() as int) == snaps);
        }
    }
    let ghost last = snaps.len() as int;
    let mut rows: Vec<(String, Vec<i64>)> = Vec::new();
    let ghost mut src: Seq<int> = seq![];
    for t in 0..holders.len()
        invariant
            snaps == snapshots@,
            cfg@ == rewards_config.contracts@,
            last == snaps.len(),
            n == token_count(cfg@),
            table_at(holders@, values@, n as nat, snaps, cfg@, last, 0),
            src.len() == rows@.len(),
            forall|a: int, b: int| 0 <= a < b < src.len() ==> src[a] < src[b],
            forall|m: int| 0 <= m < src.len() ==> 0 <= #[trigger] src[m] < t,
            forall|m: int| 0 <= m < rows@.len() ==> (#[trigger] rows@[m]).0@ == holders@[src[m]]@
                && rows@[m].1@ == values@[src[m]]@,
            forall|m: int| 0 <= m < rows@.len() ==> #[trigger] row_positive(rows@[m].1@, n as nat),
            forall|u: int| 0 <= u < t && #[trigger] row_positive(values@[u]@, n as nat)
                ==> exists|m: int| 0 <= m < src.len() && #[trigger] src[m] == u,
    {
        if any_positive(&values[t]) {
            rows.push((holders[t].clone(), copy_row(&values[t])));
            proof {
                let old_src = src;
                src = src.push(t as int);
                assert(src[src.len() - 1] == t);
                assert(row_positive(values@[t as int]@, n as nat));
                assert forall|u: int| 0 <= u < t + 1 && #[trigger] row_positive(values@[u]@, n as nat)
                    implies exists|m: int| 0 <= m < src.len() && #[trigger] src[m] == u by {
                    if u < t {
                        let m = choose|m: int| 0 <= m < old_src.len() && #[trigger] old_src[m] == u;
                        assert(src[m] == u);
                    } else {
                        assert(src[src.len() - 1] == u);
                    }
                }
            }
        }
    }
    proof {
        assert forall|i: int, j: int| 0 <= i < j < rows@.len() implies (#[trigger] rows@[i]).0@ != (#[trigger] rows@[j]).0@ by {
            assert(src[i] < src[j]);
        }
        assert forall|i: int, k: int| 0 <= i < rows@.len() && 0 <= k < n implies
            #[trigger] rows@[i].1@[k] == reward_of(snaps, cfg@, rows@[i].0@, k) by {
            assert(values@[src[i]]@[k] == partial_reward(snaps, cfg@, last, 0, holders@[src[i]]@, k));
        }
        assert forall|h: Seq<char>, k: int| 0 <= k < n && #[trigger] reward_of(snaps, cfg@, h, k) > 0 implies
            exists|i: int| 0 <= i < rows@.len() && (#[trigger] rows@[i]).0@ == h by {
            assert(partial_reward(snaps, cfg@, last, 0, h, k) != 0);
            let u = choose|u: int| 0 <= u < holders@.len() && (#[trigger] holders@[u])@ == h;
            assert(values@[u]@[k] == partial_reward(snaps, cfg@, last, 0, h, k));
            assert(row_positive(values@[u]@, n as nat));
            let m = choose|m: int| 0 <= m < src.len() && #[trigger] src[m] == u;
            assert(rows@[m].0@ == h);
        }
        assert forall|h: Seq<char>, k: int| 0 <= k < token_count(cfg@) implies #[trigger] reward_of(snaps, cfg@, h, k) <= i64::MAX by {
            assert(partial_reward(snaps, cfg@, last, 0, h, k) == reward_of(snaps, cfg@, h, k));
            if exists|u: int| 0 <= u < holders@.len() && (#[trigger] holders@[u])@ == h {
                let u = choose|u: int| 0 <= u < holders@.len() && (#[trigger] holders@[u])@ == h;
                assert(values@[u]@[k] == partial_reward(snaps, cfg@, last, 0, h, k));
            }
        }
        assert(forall|i: int| 0 <= i < rows@.len() ==> (#[trigger] rows@[i]).1@.len() == n);
        assert(is_reward_table(rows@, snaps, cfg@, n as nat));
    }
    Some(rows)
}

/// The value of a [`ProcessError`].
pub enum ProcessFailure {
    TokenCountMismatch { contract: Seq<char>, found: nat, expected_count: nat },
    NoSnapshots,
    NetworkMismatch { contract: Seq<char>, network: Seq<char>, expected: Seq<char> },
    NoHolders,
}

impl View for ProcessError {
    type V = ProcessFailure;

    open spec fn view(&self) -> ProcessFailure {
        match self {
            ProcessError::TokenCountMismatch { contract, found, expected_count } =>
                ProcessFailure::TokenCountMismatch { contract: contract@, found: *found as nat, expected_count: *expected_count as nat },
            ProcessError::NoSnapshots => ProcessFailure::NoSnapshots,
            ProcessError::NetworkMismatch { contract, network, expected } =>
                ProcessFailure::NetworkMismatch { contract: contract@, network: network@, expected: expected@ },
            ProcessError::NoHolders => ProcessFailure::NoHolders,
        }
    }
}

/// The first contract from position `i` on whose number of reward amounts
/// differs from the first contract's.
pub open spec fn token_count_mismatch_from(cfg: Seq<(String, Vec<u64>)>, i: int) -> Option<int>
    decreases cfg.len() - i,
{
    if i < 0 || i >= cfg.len() {
        None
    } else if cfg[i].1@.len() != cfg[0].1@.len() {
        Some(i)
    } else {
        token_count_mismatch_from(cfg, i + 1)
    }
}

/// What checking the configuration gives: the number of reward tokens, or
/// the first contract that lists another number of them than the first.
pub open spec fn checked_token_count(cfg: Seq<(String, Vec<u64>)>) -> Result<nat, ProcessFailure> {
    match token_count_mismatch_from(cfg, 0) {
        None => Ok(token_count(cfg)),
        Some(i) => Err(ProcessFailure::TokenCountMismatch {
            contract: cfg[i].0@,
            found: cfg[i].1@.len(),
            expected_count: cfg[0].1@.len(),
        }),
    }
}

proof fn lemma_no_mismatch_uniform(cfg: Seq<(String, Vec<u64>)>, i: int)
    requires
        0 <= i <= cfg.len(),
        token_count_mismatch_from(cfg, i) is None,
        forall|m: int| 0 <= m < i ==> (#[trigger] cfg[m]).1@.len() == cfg[0].1@.len(),
    ensures
        uniform_token_count(cfg, token_count(cfg)),
    decreases cfg.len() - i,
{
    if i < cfg.len() {
        lemma_no_mismatch_uniform(cfg, i + 1);
    }
}

/// Checks that all contracts list the same number of reward amounts, and
/// gives that number (one when no contract is configured).
pub fn reward_token_count(config: &RewardsConfig) -> (r: Result<usize, ProcessError>)
    ensures
        match r {
            Ok(n) => checked_token_count(config.contracts@) == Ok::<nat, ProcessFailure>(n as nat),
            Err(e) => checked_token_count(config.contracts@) == Err::<nat, ProcessFailure>(e@),
        },
        r is Ok ==> uniform_token_count(config.contracts@, token_count(config.contracts@)),
{
    let cfg = &config.contracts;
    if cfg.len() == 0 {
        return Ok(1);
    }
    let expected = cfg[0].1.len();
    let mut i: usize = 0;
    while i < cfg.len()
        invariant
            cfg@ == config.contracts@,
            0 < cfg.len(),
            expected == cfg@[0].1@.len(),
            i <= cfg.len(),
            token_count_mismatch_from(cfg@, 0) == token_count_mismatch_from(cfg@, i as int),
            forall|m: int| 0 <= m < i ==> (#[trigger] cfg@[m]).1@.len() == expected,
        decreases cfg.len() - i,
    {
        if cfg[i].1.len() != expected {
            return Err(ProcessError::TokenCountMismatch {
                contract: cfg[i].0.clone(),
                found: cfg[i].1.len(),
                expected_count: expected,
            });
        }
        i = i + 1;
    }
    proof {
        lemma_no_mismatch_uniform(cfg@, 0);
    }
    Ok(expected)
}

/// The first snapshot from position `i` on that is on another network than
/// the first snapshot.
pub open spec fn network_mismatch_from(snaps: Seq<SnapshotData>, i: int) -> Option<int>
    decreases snaps.len() - i,
{
    if i < 0 || i >= snaps.len() {
        None
    } else if snaps[i].network@ != snaps[0].network@ {
        Some(i)
    } else {
        network_mismatch_from(snaps, i + 1)
    }
}

/// What checking the networks gives: nothing when there are snapshots all
/// on the first one's network; else no snapshot at all, or the first one on
/// another network.
pub open spec fn network_check(snaps: Seq<SnapshotData>) -> Result<(), ProcessFailure> {
    if snaps.len() == 0 {
        Err(ProcessFailure::NoSnapshots)
    } else {
        match network_mismatch_from(snaps, 0) {
            None => Ok(()),
            Some(i) => Err(ProcessFailure::NetworkMismatch {
                contract: snaps[i].contract_address@,
                network: snaps[i].network@,
                expected: snaps[0].network@,
            }),
        }
    }
}

proof fn lemma_network_mismatch_none(snaps: Seq<SnapshotData>, i: int)
    requires
        0 <= i <= snaps.len(),
        network_mismatch_from(snaps, i) is None,
        forall|m: int| 0 <= m < i ==> (#[trigger] snaps[m]).network@ == snaps[0].network@,
    ensures
        forall|m: int| 0 <= m < snaps.len() ==> (#[trigger] snaps[m]).network@ == snaps[0].network@,
    decreases snaps.len() - i,
{
    if i < snaps.len() {
        lemma_network_mismatch_none(snaps, i + 1);
    }
}

impl ProcessArgs {
    /// Checks that there are snapshots and that they are all on the same
    /// network as the first one.
    pub fn validate_network_consistency(&self, snapshots: &Vec<SnapshotData>) -> (r: Result<(), ProcessError>)
        ensures
            match r {
                Ok(()) => network_check(snapshots@) == Ok::<(), ProcessFailure>(()),
                Err(e) => network_check(snapshots@) == Err::<(), ProcessFailure>(e@),
            },
            r is Ok <==> (snapshots@.len() > 0 && forall|m: int|
                0 <= m < snapshots@.len() ==> (#[trigger] snapshots@[m]).network@ == snapshots@[0].network@),
    {
        if snapshots.len() == 0 {
            return Err(ProcessError::NoSnapshots);
        }
        let first = &snapshots[0].network;
        let mut i: usize = 0;
        while i < snapshots.len()
            invariant
                0 < snapshots.len(),
                first@ == snapshots@[0].network@,
                i <= snapshots.len(),
                network_mismatch_from(snapshots@, 0) == network_mismatch_from(snapshots@, i as int),
                forall|m: int| 0 <= m < i ==> (#[trigger] snapshots@[m]).network@ == snapshots@[0].network@,
            decreases snapshots.len() - i,
        {
            if snapshots[i].network != *first {
                return Err(ProcessError::NetworkMismatch {
                    contract: snapshots[i].contract_address.clone(),
                    network: snapshots[i].network.clone(),
                    expected: first.clone(),
                });
            }
            i = i + 1;
        }
        proof {
            lemma_network_mismatch_none(snapshots@, 0);
        }
        Ok(())
    }

    /// The reward table of the snapshots under the configuration: every
    /// holder with a reward, once, with its reward in each token: the tokens
    /// it holds in each configured contract times that contract's amount per
    /// token, summed over the snapshots.
    pub fn calculate_rewards(&self, snapshots: &Vec<SnapshotData>, rewards_config: &RewardsConfig) -> (r: Vec<(String, Vec<i64>)>)
        requires
            uniform_token_count(rewards_config.contracts@, token_count(rewards_config.contracts@)),
            rewards_fit(snapshots@, rewards_config.contracts@),
        ensures
            is_reward_table(r@, snapshots@, rewards_config.contracts@, token_count(rewards_config.contracts@)),
    {
        try_calculate_rewards(snapshots, rewards_config).unwrap()
    }
}

/// The sum of column `k` over the rows.
pub open spec fn column_total(rows: Seq<(String, Vec<i64>)>, k: int) -> int
    decreases rows.len(),
{
    if rows.len() == 0 { 0 } else { column_total(rows.drop_last(), k) + rows.last().1@[k] }
}

/// All column sums fit in 64 unsigned bits.
pub open spec fn totals_fit(rows: Seq<(String, Vec<i64>)>, n: nat) -> bool {
    forall|k: int| 0 <= k < n ==> #[trigger] column_total(rows, k) <= u64::MAX
}

proof fn lemma_column_total_monotone(rows: Seq<(String, Vec<i64>)>, k: int, a: int, b: int)
    requires
        0 <= a <= b <= rows.len(),
        forall|t: int| 0 <= t < rows.len() ==> (#[trigger] rows[t]).1@[k] >= 0,
    ensures
        column_total(rows.take(a), k) <= column_total(rows.take(b), k),
    decreases b - a,
{
    if a < b {
        lemma_column_total_monotone(rows, k, a, b - 1);
        assert(rows.take(b).drop_last() == rows.take(b - 1));
    }
}

/// The total of each token over the reward table, or `None` where a total
/// passes 64 unsigned bits (where the command's unchecked sum panics).
pub fn try_total_tokens_distributed(rows: &Vec<(String, Vec<i64>)>, n: usize) -> (r: Option<Vec<u64>>)
    requires
        forall|t: int| 0 <= t < rows@.len() ==> (#[trigger] rows@[t]).1@.len() == n,
        forall|t: int, k: int| 0 <= t < rows@.len() && 0 <= k < n ==> #[trigger] rows@[t].1@[k] >= 0,
    ensures
        r is Some <==> totals_fit(rows@, n as nat),
        r matches Some(v) ==> v@.len() == n && forall|k: int| 0 <= k < n ==> #[trigger] v@[k] == column_total(rows@, k),
{
    let mut totals: Vec<u64> = Vec::new();
    for k in 0..n
        invariant
            forall|t: int| 0 <= t < rows@.len() ==> (#[trigger] rows@[t]).1@.len() == n,
            forall|t: int, m: int| 0 <= t < rows@.len() && 0 <= m < n ==> #[trigger] rows@[t].1@[m] >= 0,
            totals@.len() == k,
            forall|m: int| 0 <= m < k ==> #[trigger] totals@[m] == column_total(rows@, m),
            forall|m: int| 0 <= m < k ==> #[trigger] column_total(rows@, m) <= u64::MAX,
    {
        let mut sum: u64 = 0;
        for t in 0..rows.len()
            invariant
                k < n,
                forall|u: int| 0 <= u < rows@.len() ==> (#[trigger] rows@[u]).1@.len() == n,
                forall|u: int, m: int| 0 <= u < rows@.len() && 0 <= m < n ==> #[trigger] rows@[u].1@[m] >= 0,
                sum == column_total(rows@.take(t as int), k as int),
        {
            assert(rows@.take(t + 1).drop_last() == rows@.take(t as int));
            let amount = rows[t].1[k] as u64;
            match sum.checked_add(amount) {
                None => {
                    proof {
                        assert(forall|u: int| 0 <= u < rows@.len() ==> (#[trigger] rows@[u]).1@[k as int] >= 0);
                        lemma_column_total_monotone(rows@, k as int, t + 1, rows@.len() as int);
                        assert(rows@.take(rows@.len() as int) == rows@);
                        assert(column_total(rows@, k as int) > u64::MAX);
                    }
                    return None;
                },
                Some(x) => {
                    sum = x;
                },
            }
        }
        assert(rows@.take(rows@.len() as int) == rows@);
        totals.push(sum);
    }
    Some(totals)
}

/// Some holder is rewarded in one of the `n` tokens.
pub open spec fn anyone_rewarded(snaps: Seq<SnapshotData>, cfg: Seq<(String, Vec<u64>)>, n: nat) -> bool {
    exists|h: Seq<char>, k: int| 0 <= k < n && #[trigger] reward_of(snaps, cfg, h, k) > 0
}

/// What `merkle-drops process` computes from its configuration and
/// snapshots: either the first check that fails, or a drop named after the
/// arguments, on the snapshots' network, with the reward table. Meaningful
/// where the rewards fit (see [`ProcessArgs::try_process`]).
pub open spec fn process_outcome(
    args: ProcessArgs,
    cfg: Seq<(String, Vec<u64>)>,
    snaps: Seq<SnapshotData>,
) -> Result<(), ProcessFailure> {
    match checked_token_count(cfg) {
        Err(e) => Err(e),
        Ok(n) => match network_check(snaps) {
            Err(e) => Err(e),
            Ok(()) => if !anyone_rewarded(snaps, cfg, n) {
                Err(ProcessFailure::NoHolders)
            } else {
                Ok(())
            },
        },
    }
}

/// `d` is the drop that the arguments and the reward table make.
pub open spec fn is_processed(
    args: ProcessArgs,
    cfg: Seq<(String, Vec<u64>)>,
    snaps: Seq<SnapshotData>,
    d: ProcessedData,
) -> bool {
    &&& d.name@ == args.name@
    &&& d.description@ == args.description@
    &&& d.claim_contract@ == args.claim_contract@
    &&& d.entrypoint@ == args.entrypoint@
    &&& d.network@ == snaps[0].network@
    &&& is_reward_table(d.snapshot@, snaps, cfg, token_count(cfg))
}

/// The checks pass up to the reward computation, whose sums would not fit.
pub open spec fn process_overflows(cfg: Seq<(String, Vec<u64>)>, snaps: Seq<SnapshotData>) -> bool {
    &&& checked_token_count(cfg) is Ok
    &&& network_check(snaps) is Ok
    &&& !rewards_fit(snaps, cfg)
}

proof fn lemma_table_empty_iff(rows: Seq<(String, Vec<i64>)>, snaps: Seq<SnapshotData>, cfg: Seq<(String, Vec<u64>)>, n: nat)
    requires
        is_reward_table(rows, snaps, cfg, n),
    ensures
        rows.len() == 0 <==> !anyone_rewarded(snaps, cfg, n),
{
    if rows.len() > 0 {
        assert(row_positive(rows[0].1@, n));
        let k = choose|k: int| 0 <= k < n && #[trigger] rows[0].1@[k] > 0;
        assert(reward_of(snaps, cfg, rows[0].0@, k) > 0);
    } else {
        assert forall|h: Seq<char>, k: int| 0 <= k < n implies !(#[trigger] reward_of(snaps, cfg, h, k) > 0) by {
            if reward_of(snaps, cfg, h, k) > 0 {
                let i = choose|i: int| 0 <= i < rows.len() && (#[trigger] rows[i]).0@ == h;
            }
        }
    }
}

fn copy_string(s: &String) -> (r: String)
    ensures
        r@ == s@,
{
    s.clone()
}

impl ProcessArgs {
    /// Runs the checks and the reward computation of `merkle-drops
    /// process` over loaded inputs, in the command's order: the reward
    /// token counts, the networks, the rewards, and that someone is
    /// rewarded. `None` exactly where the rewards do not fit in 64 signed
    /// bits after the checks passed (where the command panics).
    pub fn try_process(&self, config: &RewardsConfig, snapshots: &Vec<SnapshotData>) -> (r: Option<Result<ProcessedData, ProcessError>>)
        ensures
            r is None <==> process_overflows(config.contracts@, snapshots@),
            r matches Some(Err(e)) ==> process_outcome(*self, config.contracts@, snapshots@) == Err::<(), ProcessFailure>(e@),
            r matches Some(Ok(d)) ==> process_outcome(*self, config.contracts@, snapshots@) == Ok::<(), ProcessFailure>(())
                && is_processed(*self, config.contracts@, snapshots@, d),
    {
        let n = match reward_token_count(config) {
            Err(e) => {
                return Some(Err(e));
            },
            Ok(n) => n,
        };
        match self.validate_network_consistency(snapshots) {
            Err(e) => {
                return Some(Err(e));
            },
            Ok(()) => {},
        }
        let rows = match try_calculate_rewards(snapshots, config) {
            None => return None,
            Some(rows) => rows,
        };
        proof {
            lemma_table_empty_iff(rows@, snapshots@, config.contracts@, n as nat);
        }
        if rows.len() == 0 {
            return Some(Err(ProcessError::NoHolders));
        }
        Some(Ok(ProcessedData {
            name: copy_string(&self.name),
            network: copy_string(&snapshots[0].network),
            description: copy_string(&self.description),
            claim_contract: copy_string(&self.claim_contract),
            entrypoint: copy_string(&self.entrypoint),
            snapshot: rows,
        }))
    }
}

impl ProcessError {
    /// The message that the command prints for this error.
    pub fn message(&self) -> (r: String)
        ensures
            r@ == process_failure_message(self@),
    {
        match self {
            ProcessError::TokenCountMismatch { contract, found, expected_count } => {
                String::from_str("All contracts must have the same number of reward tokens. Contract ")
                    .concat(contract.as_str())
                    .concat(" has ")
                    .concat(u64_to_string(*found as u64).as_str())
                    .concat(" tokens, expected ")
                    .concat(u64_to_string(*expected_count as u64).as_str())
            },
            ProcessError::NoSnapshots => String::from_str("No snapshots provided"),
            ProcessError::NetworkMismatch { contract, network, expected } => {
                String::from_str("Network mismatch: snapshot for contract ")
                    .concat(contract.as_str())
                    .concat(" is on network '")
                    .concat(network.as_str())
                    .concat("', expected '")
                    .concat(expected.as_str())
                    .concat("'")
            },
            ProcessError::NoHolders => String::from_str("No holders found with rewards"),
        }
    }
}

/// The message printed for a processing failure.
pub open spec fn process_failure_message(f: ProcessFailure) -> Seq<char> {
    match f {
        ProcessFailure::TokenCountMismatch { contract, found, expected_count } =>
            "All contracts must have the same number of reward tokens. Contract "@ + contract + " has "@
                + decimal(found) + " tokens, expected "@ + decimal(expected_count),
        ProcessFailure::NoSnapshots => "No snapshots provided"@,
        ProcessFailure::NetworkMismatch { contract, network, expected } =>
            "Network mismatch: snapshot for contract "@ + contract + " is on network '"@ + network
                + "', expected '"@ + expected + "'"@,
        ProcessFailure::NoHolders => "No holders found with rewards"@,
    }
}

/// Some row of `rows` is holder `h` with amounts `v`.
pub open spec fn has_row(rows: Seq<(String, Vec<i64>)>, h: Seq<char>, v: Seq<i64>) -> bool {
    exists|j: int| 0 <= j < rows.len() && (#[trigger] rows[j]).0@ == h && rows[j].1@ == v
}

/// Rewards add up over snapshots: what a list of snapshots gives a holder
/// is what its first part gives plus what its second part gives.
pub proof fn rewards_add_over_snapshots(
    first: Seq<SnapshotData>,
    second: Seq<SnapshotData>,
    cfg: Seq<(String, Vec<u64>)>,
    holder: Seq<char>,
    k: int,
)
    ensures
        reward_of(first + second, cfg, holder, k) == reward_of(first, cfg, holder, k) + reward_of(second, cfg, holder, k),
    decreases second.len(),
{
    if second.len() == 0 {
        assert(first + second =~= first);
    } else {
        rewards_add_over_snapshots(first, second.drop_last(), cfg, holder, k);
        assert((first + second).drop_last() =~= first + second.drop_last());
        assert((first + second).last() == second.last());
    }
}

/// Two reward tables whose inputs give every holder the same rewards list
/// the same holders with the same amounts, in whatever order.
proof fn lemma_tables_agree(
    rows_a: Seq<(String, Vec<i64>)>,
    rows_b: Seq<(String, Vec<i64>)>,
    sa: Seq<SnapshotData>,
    sb: Seq<SnapshotData>,
    cfg: Seq<(String, Vec<u64>)>,
)
    requires
        is_reward_table(rows_a, sa, cfg, token_count(cfg)),
        is_reward_table(rows_b, sb, cfg, token_count(cfg)),
        forall|h: Seq<char>, k: int| #[trigger] reward_of(sa, cfg, h, k) == reward_of(sb, cfg, h, k),
    ensures
        rows_a.len() == rows_b.len(),
        forall|i: int| 0 <= i < rows_a.len() ==> has_row(rows_b, (#[trigger] rows_a[i]).0@, rows_a[i].1@),
{
    let n = token_count(cfg);
    assert forall|i: int| 0 <= i < rows_a.len() implies has_row(rows_b, (#[trigger] rows_a[i]).0@, rows_a[i].1@) by {
        let h = rows_a[i].0@;
        assert(row_positive(rows_a[i].1@, n));
        let k = choose|k: int| 0 <= k < n && #[trigger] rows_a[i].1@[k] > 0;
        assert(reward_of(sb, cfg, h, k) > 0);
        let j = choose|j: int| 0 <= j < rows_b.len() && (#[trigger] rows_b[j]).0@ == h;
        assert(rows_b[j].1@ =~= rows_a[i].1@) by {
            assert forall|m: int| 0 <= m < n implies rows_b[j].1@[m] == rows_a[i].1@[m] by {
                assert(rows_b[j].1@[m] == reward_of(sb, cfg, h, m));
                assert(rows_a[i].1@[m] == reward_of(sa, cfg, h, m));
            }
        }
    }
    lemma_same_keys_same_length(rows_a, rows_b, sa, sb, cfg, n);
}

/// Taking one snapshot out of a list takes away exactly what it gives.
proof fn lemma_reward_remove(s: Seq<SnapshotData>, i: int, cfg: Seq<(String, Vec<u64>)>, h: Seq<char>, k: int)
    requires
        0 <= i < s.len(),
    ensures
        reward_of(s, cfg, h, k) == reward_of(s.remove(i), cfg, h, k) + snapshot_reward(cfg, s[i], h, k),
{
    let one = seq![s[i]];
    assert(s =~= s.take(i) + (one + s.skip(i + 1)));
    assert(s.remove(i) =~= s.take(i) + s.skip(i + 1));
    rewards_add_over_snapshots(s.take(i), one + s.skip(i + 1), cfg, h, k);
    rewards_add_over_snapshots(one, s.skip(i + 1), cfg, h, k);
    rewards_add_over_snapshots(s.take(i), s.skip(i + 1), cfg, h, k);
    assert(one.drop_last() =~= Seq::<SnapshotData>::empty());
    assert(reward_of(one.drop_last(), cfg, h, k) == 0);
    assert(one.last() == s[i]);
}

/// The order of the snapshots does not matter: two lists that hold the same
/// snapshots, in any two orders, give every holder the same rewards.
pub proof fn rewards_ignore_snapshot_order(
    first: Seq<SnapshotData>,
    second: Seq<SnapshotData>,
    cfg: Seq<(String, Vec<u64>)>,
    holder: Seq<char>,
    k: int,
)
    requires
        first.to_multiset() =~= second.to_multiset(),
    ensures
        reward_of(first, cfg, holder, k) == reward_of(second, cfg, holder, k),
    decreases first.len(),
{
    broadcast use vstd::seq_lib::group_to_multiset_ensures;

    if first.len() == 0 {
        assert(second.len() == second.to_multiset().len());
    } else {
        let x = first.last();
        assert(first.contains(x)) by {
            assert(first[first.len() - 1] == x);
        }
        assert(second.to_multiset().count(x) > 0);
        assert(second.contains(x));
        let i = choose|i: int| 0 <= i < second.len() && second[i] == x;
        let rest_a = first.drop_last();
        assert(rest_a =~= first.remove(first.len() - 1));
        assert(rest_a.to_multiset() =~= second.remove(i).to_multiset());
        rewards_ignore_snapshot_order(rest_a, second.remove(i), cfg, holder, k);
        lemma_reward_remove(second, i, cfg, holder, k);
    }
}

/// Two reward tables of the same snapshots in any two orders list the same
/// holders with the same amounts.
pub proof fn reward_tables_ignore_snapshot_order(
    first: Seq<SnapshotData>,
    second: Seq<SnapshotData>,
    cfg: Seq<(String, Vec<u64>)>,
    rows_a: Seq<(String, Vec<i64>)>,
    rows_b: Seq<(String, Vec<i64>)>,
)
    requires
        first.to_multiset() =~= second.to_multiset(),
        is_reward_table(rows_a, first, cfg, token_count(cfg)),
        is_reward_table(rows_b, second, cfg, token_count(cfg)),
    ensures
        rows_a.len() == rows_b.len(),
        forall|i: int| 0 <= i < rows_a.len() ==> has_row(rows_b, (#[trigger] rows_a[i]).0@, rows_a[i].1@),
{
    assert forall|h: Seq<char>, k: int| #[trigger] reward_of(first, cfg, h, k) == reward_of(second, cfg, h, k) by {
        rewards_ignore_snapshot_order(first, second, cfg, h, k);
    }
    lemma_tables_agree(rows_a, rows_b, first, second, cfg);
}

/// Taking one entry out of a snapshot takes away exactly the tokens it lists
/// for its holder.
proof fn lemma_holdings_remove(e: Seq<(String, Vec<String>)>, i: int, h: Seq<char>)
    requires
        0 <= i < e.len(),
    ensures
        holdings(e, h) == holdings(e.remove(i), h) + if e[i].0@ == h { e[i].1@.len() } else { 0 },
    decreases e.len(),
{
    if i == e.len() - 1 {
        assert(e.remove(i) =~= e.drop_last());
    } else {
        lemma_holdings_remove(e.drop_last(), i, h);
        assert(e.remove(i).drop_last() =~= e.drop_last().remove(i));
        assert(e.remove(i).last() == e.last());
    }
}

/// The order of a snapshot's entries does not matter: the same entries in
/// any order give every holder the same number of tokens.
pub proof fn holdings_ignore_entry_order(a: Seq<(String, Vec<String>)>, b: Seq<(String, Vec<String>)>, h: Seq<char>)
    requires
        a.to_multiset() =~= b.to_multiset(),
    ensures
        holdings(a, h) == holdings(b, h),
    decreases a.len(),
{
    broadcast use vstd::seq_lib::group_to_multiset_ensures;

    if a.len() == 0 {
        assert(b.len() == b.to_multiset().len());
    } else {
        let x = a.last();
        assert(a.contains(x)) by {
            assert(a[a.len() - 1] == x);
        }
        assert(b.to_multiset().count(x) > 0);
        assert(b.contains(x));
        let i = choose|i: int| 0 <= i < b.len() && b[i] == x;
        assert(a.drop_last() =~= a.remove(a.len() - 1));
        assert(a.drop_last().to_multiset() =~= b.remove(i).to_multiset());
        holdings_ignore_entry_order(a.drop_last(), b.remove(i), h);
        lemma_holdings_remove(b, i, h);
    }
}

/// The order of the holders inside each snapshot does not matter: snapshots
/// of the same contracts whose entries are the same in other orders give
/// every holder the same rewards.
pub proof fn rewards_ignore_holder_order(
    first: Seq<SnapshotData>,
    second: Seq<SnapshotData>,
    cfg: Seq<(String, Vec<u64>)>,
    holder: Seq<char>,
    k: int,
)
    requires
        first.len() == second.len(),
        forall|i: int| 0 <= i < first.len() ==> (#[trigger] first[i]).contract_address@ == second[i].contract_address@,
        forall|i: int| 0 <= i < first.len() ==> (#[trigger] first[i]).snapshot@.to_multiset() =~= second[i].snapshot@.to_multiset(),
    ensures
        reward_of(first, cfg, holder, k) == reward_of(second, cfg, holder, k),
    decreases first.len(),
{
    if first.len() > 0 {
        let last = first.len() - 1;
        assert(first[last].contract_address@ == second[last].contract_address@);
        assert(first[last].snapshot@.to_multiset() =~= second[last].snapshot@.to_multiset());
        holdings_ignore_entry_order(first[last].snapshot@, second[last].snapshot@, holder);
        rewards_ignore_holder_order(first.drop_last(), second.drop_last(), cfg, holder, k);
    }
}

/// Snapshots of contracts that the configuration does not list change
/// nothing wherever they stand: the whole list gives every holder what the
/// list of its configured snapshots alone gives.
pub proof fn unconfigured_snapshots_are_ignored(
    snaps: Seq<SnapshotData>,
    cfg: Seq<(String, Vec<u64>)>,
    holder: Seq<char>,
    k: int,
)
    ensures
        reward_of(snaps, cfg, holder, k) == reward_of(
            snaps.filter(|s: SnapshotData| rates_of(cfg, s.contract_address@) is Some),
            cfg,
            holder,
            k,
        ),
    decreases snaps.len(),
{
    let configured = |s: SnapshotData| rates_of(cfg, s.contract_address@) is Some;
    if snaps.len() > 0 {
        reveal(Seq::filter);
        unconfigured_snapshots_are_ignored(snaps.drop_last(), cfg, holder, k);
        let sub = snaps.drop_last().filter(configured);
        if configured(snaps.last()) {
            assert(sub.push(snaps.last()).drop_last() =~= sub);
        }
    }
}

proof fn lemma_same_keys_same_length(
    rows_a: Seq<(String, Vec<i64>)>,
    rows_b: Seq<(String, Vec<i64>)>,
    sa: Seq<SnapshotData>,
    sb: Seq<SnapshotData>,
    cfg: Seq<(String, Vec<u64>)>,
    n: nat,
)
    requires
        is_reward_table(rows_a, sa, cfg, n),
        is_reward_table(rows_b, sb, cfg, n),
        forall|h: Seq<char>, k: int| #[trigger] reward_of(sa, cfg, h, k) == reward_of(sb, cfg, h, k),
    ensures
        rows_a.len() == rows_b.len(),
{
    let ka = rows_a.map_values(|r: (String, Vec<i64>)| r.0@);
    let kb = rows_b.map_values(|r: (String, Vec<i64>)| r.0@);
    assert(ka.no_duplicates()) by {
        assert forall|i: int, j: int| 0 <= i < ka.len() && 0 <= j < ka.len() && i != j implies ka[i] != ka[j] by {
            if i < j { assert(rows_a[i].0@ != rows_a[j].0@); } else { assert(rows_a[j].0@ != rows_a[i].0@); }
        }
    }
    assert(kb.no_duplicates()) by {
        assert forall|i: int, j: int| 0 <= i < kb.len() && 0 <= j < kb.len() && i != j implies kb[i] != kb[j] by {
            if i < j { assert(rows_b[i].0@ != rows_b[j].0@); } else { assert(rows_b[j].0@ != rows_b[i].0@); }
        }
    }
    assert(ka.to_set() =~= kb.to_set()) by {
        assert forall|h: Seq<char>| ka.to_set().contains(h) implies kb.to_set().contains(h) by {
            let i = choose|i: int| 0 <= i < ka.len() && ka[i] == h;
            assert(row_positive(rows_a[i].1@, n));
            let k = choose|k: int| 0 <= k < n && #[trigger] rows_a[i].1@[k] > 0;
            assert(reward_of(sb, cfg, h, k) > 0);
            let j = choose|j: int| 0 <= j < rows_b.len() && (#[trigger] rows_b[j]).0@ == h;
            assert(kb[j] == h);
        }
        assert forall|h: Seq<char>| kb.to_set().contains(h) implies ka.to_set().contains(h) by {
            let j = choose|j: int| 0 <= j < kb.len() && kb[j] == h;
            assert(row_positive(rows_b[j].1@, n));
            let k = choose|k: int| 0 <= k < n && #[trigger] rows_b[j].1@[k] > 0;
            assert(reward_of(sa, cfg, h, k) > 0);
            let i = choose|i: int| 0 <= i < rows_a.len() && (#[trigger] rows_a[i]).0@ == h;
            assert(ka[i] == h);
        }
    }
    ka.unique_seq_to_set();
    kb.unique_seq_to_set();
}

/// A reward table of a list of snapshots, and one of its configured
/// snapshots alone, list the same holders with the same amounts.
pub proof fn reward_tables_ignore_unconfigured_snapshots(
    snaps: Seq<SnapshotData>,
    cfg: Seq<(String, Vec<u64>)>,
    rows_a: Seq<(String, Vec<i64>)>,
    rows_b: Seq<(String, Vec<i64>)>,
)
    requires
        is_reward_table(rows_a, snaps, cfg, token_count(cfg)),
        is_reward_table(
            rows_b,
            snaps.filter(|s: SnapshotData| rates_of(cfg, s.contract_address@) is Some),
            cfg,
            token_count(cfg),
        ),
    ensures
        rows_a.len() == rows_b.len(),
        forall|i: int| 0 <= i < rows_a.len() ==> has_row(rows_b, (#[trigger] rows_a[i]).0@, rows_a[i].1@),
{
    let kept = snaps.filter(|s: SnapshotData| rates_of(cfg, s.contract_address@) is Some);
    assert forall|h: Seq<char>, k: int| #[trigger] reward_of(snaps, cfg, h, k) == reward_of(kept, cfg, h, k) by {
        unconfigured_snapshots_are_ignored(snaps, cfg, h, k);
    }
    lemma_tables_agree(rows_a, rows_b, snaps, kept, cfg);
}

/// A snapshot of a contract that the configuration does not list changes
/// no one's reward.
pub proof fn unconfigured_snapshots_change_nothing(
    snaps: Seq<SnapshotData>,
    extra: SnapshotData,
    cfg: Seq<(String, Vec<u64>)>,
    holder: Seq<char>,
    k: int,
)
    requires
        rates_of(cfg, extra.contract_address@) is None,
    ensures
        reward_of(snaps.push(extra), cfg, holder, k) == reward_of(snaps, cfg, holder, k),
{
    assert(snaps.push(extra).drop_last() == snaps);
}

} // verus!
