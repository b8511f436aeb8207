//! `merkle-drops snapshot`: token owners collected into a sorted snapshot.

use vstd::prelude::*;
use crate::text::{contains_chars, decimal, has_infix, lower_hex, lower_hex_chars, lowercase, to_chars, unicode_lowercase, ascii_lower, is_ascii_text};

verus! {

broadcast use vstd::seq_lib::group_to_multiset_ensures;

/// The network whose token holders are queried.
#[derive(Clone, Copy, PartialEq, Eq, Structural, Debug)]
pub enum NetworkType {
    Starknet,
    Ethereum,
    Arbitrum,
    Optimism,
    Base,
}

/// The name of a network as the snapshot records it.
pub open spec fn network_name(n: NetworkType) -> Seq<char> {
    match n {
        NetworkType::Starknet => "Starknet"@,
        NetworkType::Ethereum => "Ethereum"@,
        NetworkType::Arbitrum => "Arbitrum"@,
        NetworkType::Optimism => "Optimism"@,
        NetworkType::Base => "Base"@,
    }
}

/// No two networks share a name, so a snapshot's recorded network tells
/// which network it was taken on.
pub proof fn network_names_are_distinct(a: NetworkType, b: NetworkType)
    ensures
        network_name(a) == network_name(b) ==> a == b,
{
    reveal_strlit("Starknet");
    reveal_strlit("Ethereum");
    reveal_strlit("Arbitrum");
    reveal_strlit("Optimism");
    reveal_strlit("Base");
    assert("Starknet"@[0] != "Ethereum"@[0]);
    assert("Starknet"@[0] != "Arbitrum"@[0]);
    assert("Starknet"@[0] != "Optimism"@[0]);
    assert("Ethereum"@[0] != "Arbitrum"@[0]);
    assert("Ethereum"@[0] != "Optimism"@[0]);
    assert("Arbitrum"@[0] != "Optimism"@[0]);
}

impl NetworkType {
    /// The network's name, as the snapshot records it.
    pub fn to_string(&self) -> (r: String)
        ensures
            r@ == network_name(*self),
    {
        match self {
            NetworkType::Starknet => String::from_str("Starknet"),
            NetworkType::Ethereum => String::from_str("Ethereum"),
            NetworkType::Arbitrum => String::from_str("Arbitrum"),
            NetworkType::Optimism => String::from_str("Optimism"),
            NetworkType::Base => String::from_str("Base"),
        }
    }

    /// Whether owners are queried through the EVM `ownerOf` call (every
    /// network but Starknet).
    pub fn is_evm(&self) -> (r: bool)
        ensures
            r == (*self != NetworkType::Starknet),
    {
        !matches!(self, NetworkType::Starknet)
    }
}

/// The options of `merkle-drops snapshot`.
#[derive(Debug)]
pub struct SnapshotArgs {
    pub name: String,
    /// The token contract whose holders are listed.
    pub contract_address: String,
    pub rpc_url: String,
    pub network: NetworkType,
    pub description: String,
    pub claim_contract: String,
    pub entrypoint: String,
    /// The block the owners are read at.
    pub block_height: u64,
    /// The first token id queried.
    pub from_id: u64,
    /// The last token id queried.
    pub to_id: u64,
    /// The file the snapshot is written to.
    pub output: String,
    /// The pause before each query, in milliseconds.
    pub delay_ms: u64,
    /// How many queries run at once.
    pub concurrency: usize,
}

/// `a` comes strictly before `b` in lexicographic character order (which is
/// the byte order of their UTF-8 encodings, the order of `String`).
pub open spec fn text_lt(a: Seq<char>, b: Seq<char>) -> bool
    decreases a.len(),
{
    if a.len() == 0 {
        b.len() > 0
    } else if b.len() == 0 {
        false
    } else if a[0] != b[0] {
        a[0] < b[0]
    } else {
        text_lt(a.drop_first(), b.drop_first())
    }
}

proof fn lemma_text_lt_irreflexive(a: Seq<char>)
    ensures
        !text_lt(a, a),
    decreases a.len(),
{
    if a.len() > 0 {
        lemma_text_lt_irreflexive(a.drop_first());
    }
}

proof fn lemma_text_lt_transitive(a: Seq<char>, b: Seq<char>, c: Seq<char>)
    requires
        text_lt(a, b),
        text_lt(b, c),
    ensures
        text_lt(a, c),
    decreases a.len(),
{
    if a.len() > 0 && b.len() > 0 && c.len() > 0 && a[0] == b[0] && b[0] == c[0] {
        lemma_text_lt_transitive(a.drop_first(), b.drop_first(), c.drop_first());
    }
}

proof fn lemma_text_lt_total(a: Seq<char>, b: Seq<char>)
    ensures
        a == b || text_lt(a, b) || text_lt(b, a),
    decreases a.len(),
{
    if a.len() > 0 && b.len() > 0 && a[0] == b[0] {
        lemma_text_lt_total(a.drop_first(), b.drop_first());
        if a.drop_first() == b.drop_first() {
            assert(a =~= seq![a[0]] + a.drop_first());
            assert(b =~= seq![b[0]] + b.drop_first());
        }
    } else if a.len() == 0 && b.len() == 0 {
        assert(a =~= b);
    }
}

/// Whether `a` comes strictly before `b`.
pub fn text_less(a: &Vec<char>, b: &Vec<char>) -> (r: bool)
    ensures
        r == text_lt(a@, b@),
{
    let mut i: usize = 0;
    assert(a@.skip(0) == a@ && b@.skip(0) == b@);
    while i < a.len() && i < b.len()
        invariant
            i <= a.len(),
            i <= b.len(),
            text_lt(a@, b@) == text_lt(a@.skip(i as int), b@.skip(i as int)),
        decreases a.len() - i,
    {
        assert(a@.skip(i as int)[0] == a@[i as int]);
        assert(b@.skip(i as int)[0] == b@[i as int]);
        if a[i] != b[i] {
            return a[i] < b[i];
        }
        assert(a@.skip(i as int).drop_first() == a@.skip(i + 1));
        assert(b@.skip(i as int).drop_first() == b@.skip(i + 1));
        i = i + 1;
    }
    i < b.len()
}

/// The sequence is in non-decreasing order.
pub open spec fn ids_sorted(s: Seq<i64>) -> bool {
    forall|a: int, b: int| 0 <= a < b < s.len() ==> s[a] <= s[b]
}

/// Sorts token ids in ascending order.
pub fn sort_ids(ids: &Vec<i64>) -> (r: Vec<i64>)
    ensures
        ids_sorted(r@),
        r@.to_multiset() == ids@.to_multiset(),
{
    let mut out: Vec<i64> = Vec::new();
    for i in 0..ids.len()
        invariant
            ids_sorted(out@),
            out@.to_multiset() == ids@.take(i as int).to_multiset(),
    {
        let x = ids[i];
        let mut p: usize = 0;
        while p < out.len() && out[p] <= x
            invariant
                p <= out.len(),
                forall|q: int| 0 <= q < p ==> out@[q] <= x,
            decreases out.len() - p,
        {
            p = p + 1;
        }
        let ghost before = out@;
        out.insert(p, x);
        proof {
            assert(ids@.take(i + 1) == ids@.take(i as int).push(x));
            assert(out@ == before.insert(p as int, x));
            assert forall|a: int, b: int| 0 <= a < b < out@.len() implies out@[a] <= out@[b] by {
                if b < p {
                } else if b == p {
                } else if a < p {
                    assert(out@[b] == before[b - 1]);
                } else if a == p {
                    assert(out@[b] == before[b - 1]);
                    assert(before[p as int] > x);
                } else {
                    assert(out@[a] == before[a - 1] && out@[b] == before[b - 1]);
                }
            }
        }
    }
    assert(ids@.take(ids.len() as int) == ids@);
    out
}

/// How a token id is written into the snapshot: `0x` and the lower-case
/// hexadecimal digits of its 64 bits.
pub open spec fn id_text(id: i64) -> Seq<char> {
    "0x"@ + lower_hex((id as u64) as nat)
}

/// Writes a token id as the snapshot records it.
pub fn format_token_id(id: i64) -> (r: String)
    ensures
        r@ == id_text(id),
{
    let digits = lower_hex_chars(id as u64);
    let mut s = String::from_str("0x");
    crate::text::push_chars(&mut s, &digits);
    s
}

/// The owners of tokens, collected while the tokens are queried: each owner
/// once, with the ids of the tokens it owns in the order they were recorded.
#[derive(Debug)]
pub struct HolderIndex {
    owners: Vec<String>,
    ids: Vec<Vec<i64>>,
}

impl HolderIndex {
    /// Each owner is listed once, with one list of ids.
    pub closed spec fn well_formed(&self) -> bool {
        &&& self.owners@.len() == self.ids@.len()
        &&& forall|a: int, b: int| 0 <= a < b < self.owners@.len() ==> (#[trigger] self.owners@[a])@ != (#[trigger] self.owners@[b])@
    }

    /// The owners in the order they were first recorded.
    pub closed spec fn owner_list(&self) -> Seq<Seq<char>> {
        self.owners@.map_values(|o: String| o@)
    }

    /// The ids recorded for each owner, by position in [`Self::owner_list`].
    pub closed spec fn id_lists(&self) -> Seq<Seq<i64>> {
        self.ids@.map_values(|v: Vec<i64>| v@)
    }

    /// An empty index.
    pub fn new() -> (r: HolderIndex)
        ensures
            r.well_formed(),
            r.owner_list() == Seq::<Seq<char>>::empty(),
            r.id_lists() == Seq::<Seq<i64>>::empty(),
    {
        let r = HolderIndex { owners: Vec::new(), ids: Vec::new() };
        assert(r.owner_list() =~= Seq::<Seq<char>>::empty());
        assert(r.id_lists() =~= Seq::<Seq<i64>>::empty());
        r
    }

    /// The number of distinct owners.
    pub fn len(&self) -> (r: usize)
        requires
            self.well_formed(),
        ensures
            r == self.owner_list().len(),
    {
        self.owners.len()
    }

    /// Records that `owner` owns the token `token_id` (stored as a signed
    /// 64-bit id, as the command does).
    pub fn record(&mut self, owner: String, token_id: u64)
        requires
            old(self).well_formed(),
        ensures
            final(self).well_formed(),
            match old(self).owner_list().index_of_first(owner@) {
                Some(p) => final(self).owner_list() == old(self).owner_list()
                    && final(self).id_lists() == old(self).id_lists().update(p, old(self).id_lists()[p].push(token_id as i64)),
                None => final(self).owner_list() == old(self).owner_list().push(owner@)
                    && final(self).id_lists() == old(self).id_lists().push(seq![token_id as i64]),
            },
            (final(self).owner_list(), final(self).id_lists())
                == record_step(old(self).owner_list(), old(self).id_lists(), owner@, token_id as i64),
    {
        let id = token_id as i64;
        let found = find_owner(&self.owners, &owner);
        let ghost ol = old(self).owner_list();
        proof {
            ol.index_of_first_ensures(owner@);
        }
        match found {
            Some(p) => {
                proof {
                    assert(ol[p as int] == owner@);
                    assert forall|q: int| 0 <= q < p implies ol[q] != owner@ by {
                        assert(ol[q] == self.owners@[q]@);
                        assert(ol[p as int] == self.owners@[p as int]@);
                    }
                }
                let mut row = self.ids[p].clone();
                row.push(id);
                self.ids.set(p, row);
                proof {
                    assert(self.owner_list() =~= ol);
                    assert(self.id_lists() =~= old(self).id_lists().update(p as int, old(self).id_lists()[p as int].push(id)));
                }
            },
            None => {
                proof {
                    assert forall|q: int| 0 <= q < ol.len() implies ol[q] != owner@ by {
                        assert(ol[q] == self.owners@[q]@);
                    }
                }
                self.owners.push(owner);
                let mut row: Vec<i64> = Vec::new();
                row.push(id);
                self.ids.push(row);
                proof {
                    assert(self.owner_list() =~= ol.push(owner@));
                    assert(self.id_lists() =~= old(self).id_lists().push(seq![id]));
                }
            },
        }
    }
}

/// One line of the snapshot: the owner, then the owner's token ids in
/// ascending order, each written as [`id_text`] gives it.
pub open spec fn is_snapshot_row(owner: Seq<char>, ids: Seq<i64>, row: (String, Vec<String>)) -> bool {
    &&& row.0@ == owner
    &&& exists|s: Seq<i64>| #![trigger ids_sorted(s)]
            ids_sorted(s) && s.to_multiset() == ids.to_multiset()
            && row.1@.len() == s.len()
            && forall|j: int| 0 <= j < s.len() ==> (#[trigger] row.1@[j])@ == id_text(s[j])
}

/// The row is the snapshot line of one of the listed owners.
pub open spec fn row_of_some_owner(ol: Seq<Seq<char>>, il: Seq<Seq<i64>>, row: (String, Vec<String>)) -> bool {
    exists|k: int| 0 <= k < ol.len() && #[trigger] is_snapshot_row(ol[k], il[k], row)
}

/// Some row is the line of the owner.
pub open spec fn has_owner_row(rows: Seq<(String, Vec<String>)>, owner: Seq<char>) -> bool {
    exists|i: int| 0 <= i < rows.len() && (#[trigger] rows[i]).0@ == owner
}

/// Writes each id of the list as the snapshot records it.
fn format_ids(ids: &Vec<i64>) -> (r: Vec<String>)
    ensures
        r@.len() == ids@.len(),
        forall|j: int| 0 <= j < ids@.len() ==> (#[trigger] r@[j])@ == id_text(ids@[j]),
{
    let mut r: Vec<String> = Vec::new();
    for j in 0..ids.len()
        invariant
            r@.len() == j,
            forall|u: int| 0 <= u < j ==> (#[trigger] r@[u])@ == id_text(ids@[u]),
    {
        r.push(format_token_id(ids[j]));
    }
    r
}

impl HolderIndex {
    /// The lines of the snapshot file: one per owner, in ascending order of
    /// the owner's text, each with the owner's token ids sorted and written
    /// in hexadecimal.
    pub fn snapshot_rows(&self) -> (r: Vec<(String, Vec<String>)>)
        requires
            self.well_formed(),
        ensures
            r@.len() == self.owner_list().len(),
            forall|a: int, b: int| 0 <= a < b < r@.len() ==> text_lt((#[trigger] r@[a]).0@, (#[trigger] r@[b]).0@),
            forall|i: int| 0 <= i < r@.len() ==> row_of_some_owner(self.owner_list(), self.id_lists(), #[trigger] r@[i]),
            forall|k: int| 0 <= k < self.owner_list().len() ==> has_owner_row(r@, #[trigger] self.owner_list()[k]),
            self.id_lists().len() == self.owner_list().len(),
            are_snapshot_rows(self.owner_list(), self.id_lists(), r@),
    {
        let n = self.owners.len();
        let mut texts: Vec<Vec<char>> = Vec::new();
        for k in 0..n
            invariant
                n == self.owners@.len(),
                texts@.len() == k,
                forall|u: int| 0 <= u < k ==> (#[trigger] texts@[u])@ == self.owners@[u]@,
        {
            texts.push(to_chars(self.owners[k].as_str()));
        }
        proof {
            assert forall|x: int, y: int| 0 <= x < y < texts@.len() implies (#[trigger] texts@[x])@ != (#[trigger] texts@[y])@ by {
                assert(self.owners@[x]@ != self.owners@[y]@);
            }
        }
        let order = order_by_text(&texts);
        let ghost ol = self.owner_list();
        let ghost il = self.id_lists();
        proof {
            assert forall|u: int| 0 <= u < n implies (#[trigger] texts@[u])@ == ol[u] by {}
        }
        let mut rows: Vec<(String, Vec<String>)> = Vec::new();
        for q in 0..n
            invariant
                n == self.owners@.len(),
                n == self.ids@.len(),
                n == order@.len(),
                ol == self.owner_list(),
                il == self.id_lists(),
                forall|q2: int| 0 <= q2 < order@.len() ==> (#[trigger] order@[q2]) < n,
                rows@.len() == q,
                forall|u: int| 0 <= u < q ==> (#[trigger] rows@[u]).0@ == ol[order@[u] as int]
                    && is_snapshot_row(ol[order@[u] as int], il[order@[u] as int], rows@[u]),
        {
            let k = order[q];
            let sorted = sort_ids(&self.ids[k]);
            let texts_out = format_ids(&sorted);
            let row = (self.owners[k].clone(), texts_out);
            proof {
                assert(ol[k as int] == self.owners@[k as int]@);
                assert(il[k as int] == self.ids@[k as int]@);
                assert(ids_sorted(sorted@));
            }
            rows.push(row);
        }
        proof {
            assert(texts@.map_values(|t: Vec<char>| t@) =~= ol);
            lemma_rows_follow_order(ol, il, texts@.map_values(|t: Vec<char>| t@), order@, rows@);
        }
        rows
    }
}

/// The rows built along an ordering of the owners are sorted by owner and
/// hold each owner once.
proof fn lemma_rows_follow_order(
    ol: Seq<Seq<char>>,
    il: Seq<Seq<i64>>,
    texts: Seq<Seq<char>>,
    order: Seq<usize>,
    rows: Seq<(String, Vec<String>)>,
)
    requires
        texts == ol,
        ol.len() <= usize::MAX,
        il.len() == ol.len(),
        order.len() == ol.len(),
        rows.len() == ol.len(),
        forall|q: int| 0 <= q < order.len() ==> (#[trigger] order[q]) < ol.len(),
        forall|k: usize| k < ol.len() ==> #[trigger] order.contains(k),
        forall|a: int, b: int| 0 <= a < b < order.len() ==>
            text_lt(texts[(#[trigger] order[a]) as int], texts[(#[trigger] order[b]) as int]),
        forall|u: int| 0 <= u < rows.len() ==> (#[trigger] rows[u]).0@ == ol[order[u] as int]
            && is_snapshot_row(ol[order[u] as int], il[order[u] as int], rows[u]),
    ensures
        forall|a: int, b: int| 0 <= a < b < rows.len() ==> text_lt((#[trigger] rows[a]).0@, (#[trigger] rows[b]).0@),
        forall|i: int| 0 <= i < rows.len() ==> row_of_some_owner(ol, il, #[trigger] rows[i]),
        forall|k: int| 0 <= k < ol.len() ==> has_owner_row(rows, #[trigger] ol[k]),
{
    assert forall|a: int, b: int| 0 <= a < b < rows.len() implies text_lt((#[trigger] rows[a]).0@, (#[trigger] rows[b]).0@) by {
        assert(text_lt(texts[order[a] as int], texts[order[b] as int]));
    }
    assert forall|i: int| 0 <= i < rows.len() implies row_of_some_owner(ol, il, #[trigger] rows[i]) by {
        let k = order[i] as int;
        assert(is_snapshot_row(ol[k], il[k], rows[i]));
    }
    assert forall|k: int| 0 <= k < ol.len() implies has_owner_row(rows, #[trigger] ol[k]) by {
        assert(order.contains(k as usize));
        let i = choose|i: int| 0 <= i < order.len() && order[i] == k as usize;
        assert(rows[i].0@ == ol[k]);
    }
}

/// The positions of the texts, ordered so that the texts they point at
/// ascend.
fn order_by_text(texts: &Vec<Vec<char>>) -> (order: Vec<usize>)
    requires
        forall|x: int, y: int| 0 <= x < y < texts@.len() ==> (#[trigger] texts@[x])@ != (#[trigger] texts@[y])@,
    ensures
        order@.len() == texts@.len(),
        forall|q: int| 0 <= q < order@.len() ==> (#[trigger] order@[q]) < texts@.len(),
        forall|k: usize| k < texts@.len() ==> #[trigger] order@.contains(k),
        forall|a: int, b: int| 0 <= a < b < order@.len() ==>
            text_lt(texts@[(#[trigger] order@[a]) as int]@, texts@[(#[trigger] order@[b]) as int]@),
{
    let n = texts.len();
    let mut order: Vec<usize> = Vec::new();
    for i in 0..n
        invariant
            n == texts@.len(),
            forall|x: int, y: int| 0 <= x < y < texts@.len() ==> (#[trigger] texts@[x])@ != (#[trigger] texts@[y])@,
            order@.len() == i,
            forall|q: int| 0 <= q < order@.len() ==> (#[trigger] order@[q]) < i,
            forall|k: usize| k < i ==> #[trigger] order@.contains(k),
            forall|a: int, b: int| 0 <= a < b < order@.len() ==>
                text_lt(texts@[(#[trigger] order@[a]) as int]@, texts@[(#[trigger] order@[b]) as int]@),
    {
        let mut p: usize = 0;
        while p < order.len() && text_less(&texts[order[p]], &texts[i])
            invariant
                p <= order@.len(),
                n == texts@.len(),
                i < n,
                forall|q: int| 0 <= q < order@.len() ==> (#[trigger] order@[q]) < i,
                forall|q: int| 0 <= q < p ==> text_lt(texts@[(#[trigger] order@[q]) as int]@, texts@[i as int]@),
            decreases order@.len() - p,
        {
            p = p + 1;
        }
        let ghost before = order@;
        proof {
            if p < before.len() {
                let o = before[p as int];
                assert(o < i);
                assert(texts@[o as int]@ != texts@[i as int]@);
                lemma_text_lt_total(texts@[o as int]@, texts@[i as int]@);
                assert(text_lt(texts@[i as int]@, texts@[o as int]@));
            }
        }
        order.insert(p, i);
        proof {
            assert(order@ == before.insert(p as int, i));
            assert forall|a: int, b: int| 0 <= a < b < order@.len() implies
                text_lt(texts@[(#[trigger] order@[a]) as int]@, texts@[(#[trigger] order@[b]) as int]@) by {
                if b < p {
                } else if b == p {
                } else if a < p {
                    assert(order@[b] == before[b - 1]);
                    assert(text_lt(texts@[before[p as int] as int]@, texts@[before[b - 1] as int]@) || b - 1 == p);
                    lemma_text_lt_transitive(texts@[order@[a] as int]@, texts@[i as int]@, texts@[before[p as int] as int]@);
                    if b - 1 != p {
                        lemma_text_lt_transitive(texts@[order@[a] as int]@, texts@[before[p as int] as int]@, texts@[before[b - 1] as int]@);
                    }
                } else if a == p {
                    assert(order@[b] == before[b - 1]);
                    if b - 1 != p {
                        lemma_text_lt_transitive(texts@[i as int]@, texts@[before[p as int] as int]@, texts@[before[b - 1] as int]@);
                    }
                } else {
                    assert(order@[a] == before[a - 1] && order@[b] == before[b - 1]);
                }
            }
            assert forall|k: usize| k < i + 1 implies #[trigger] order@.contains(k) by {
                if k < i {
                    assert(before.contains(k));
                    let q = choose|q: int| 0 <= q < before.len() && before[q] == k;
                    if q < p {
                        assert(order@[q] == k);
                    } else {
                        assert(order@[q + 1] == k);
                    }
                } else {
                    assert(order@[p as int] == i);
                }
            }
        }
    }
    order
}

/// Position of an owner among the recorded ones.
fn find_owner(owners: &Vec<String>, o: &String) -> (r: Option<usize>)
    ensures
        match r {
            Some(t) => t < owners.len() && owners@[t as int]@ == o@
                && forall|u: int| 0 <= u < t ==> (#[trigger] owners@[u])@ != o@,
            None => forall|t: int| 0 <= t < owners.len() ==> (#[trigger] owners@[t])@ != o@,
        },
{
    for t in 0..owners.len()
        invariant
            forall|u: int| 0 <= u < t ==> (#[trigger] owners@[u])@ != o@,
    {
        if owners[t] == *o {
            return Some(t);
        }
    }
    None
}

} // verus!

verus! {

/// The lower-cased text of an EVM call error says that the token does not
/// exist (the usual ERC721 revert messages).
pub open spec fn evm_not_found_text(lower: Seq<char>) -> bool {
    ||| has_infix(lower, "nonexistent token"@)
    ||| has_infix(lower, "invalid token"@)
    ||| has_infix(lower, "token does not exist"@)
    ||| has_infix(lower, "owner query for nonexistent token"@)
    ||| has_infix(lower, "erc721: owner query for nonexistent token"@)
}

/// The lower-cased text of a Starknet provider error says that the token
/// does not exist.
pub open spec fn starknet_not_found_text(lower: Seq<char>) -> bool {
    ||| has_infix(lower, "erc721: invalid token id"@)
    ||| has_infix(lower, "invalid token id"@)
    ||| has_infix(lower, "token does not exist"@)
    ||| has_infix(lower, "nonexistent token"@)
}

fn contains_text(h: &Vec<char>, n: &str) -> (b: bool)
    ensures
        b == has_infix(h@, n@),
{
    let nv = to_chars(n);
    contains_chars(h, &nv)
}

/// Whether an EVM `ownerOf` call failed because the token does not exist,
/// judged from the error's text: such failures are expected and not
/// reported.
pub fn is_evm_token_not_found_error(error_text: &str) -> (r: bool)
    ensures
        r == evm_not_found_text(unicode_lowercase(error_text@)),
        is_ascii_text(error_text@) ==> r == evm_not_found_text(ascii_lower(error_text@)),
{
    let lower = lowercase(error_text);
    evm_text_says_missing(lower.as_str())
}

/// Whether a lower-cased EVM error text says that the token does not
/// exist.
pub fn evm_text_says_missing(lower: &str) -> (r: bool)
    ensures
        r == evm_not_found_text(lower@),
{
    let h = to_chars(lower);
    contains_text(&h, "nonexistent token")
        || contains_text(&h, "invalid token")
        || contains_text(&h, "token does not exist")
        || contains_text(&h, "owner query for nonexistent token")
        || contains_text(&h, "erc721: owner query for nonexistent token")
}

/// Whether a Starknet `owner_of` call failed because the token does not
/// exist, judged from the error's debug text.
pub fn is_sn_token_not_found_error(error_text: &str) -> (r: bool)
    ensures
        r == starknet_not_found_text(unicode_lowercase(error_text@)),
        is_ascii_text(error_text@) ==> r == starknet_not_found_text(ascii_lower(error_text@)),
{
    let lower = lowercase(error_text);
    starknet_text_says_missing(lower.as_str())
}

/// Whether a lower-cased Starknet error text says that the token does not
/// exist.
pub fn starknet_text_says_missing(lower: &str) -> (r: bool)
    ensures
        r == starknet_not_found_text(lower@),
{
    let h = to_chars(lower);
    contains_text(&h, "erc721: invalid token id")
        || contains_text(&h, "invalid token id")
        || contains_text(&h, "token does not exist")
        || contains_text(&h, "nonexistent token")
}

/// What one owner query of a token gave back.
#[derive(Debug)]
pub enum OwnerQuery {
    /// The owner, as its address is written.
    Owner(String),
    /// The call succeeded without returning a value.
    NoOwner,
    /// The call failed: `detail` is the text the failure is judged by,
    /// `shown` the text a warning prints.
    Failed { detail: String, shown: String },
}

/// The warning printed for a failed query that is not an expected
/// missing-token failure.
pub open spec fn query_warning(token_id: u64, shown: Seq<char>) -> Seq<char> {
    "Warning: Error querying token "@ + decimal(token_id as nat) + ": "@ + shown
}

/// Whether a failure text marks a missing token on the network.
pub open spec fn not_found_on(network: NetworkType, detail: Seq<char>) -> bool {
    if network == NetworkType::Starknet {
        starknet_not_found_text(unicode_lowercase(detail))
    } else {
        evm_not_found_text(unicode_lowercase(detail))
    }
}

impl HolderIndex {
    /// Takes in the answer to the owner query of one token: an owner is
    /// recorded with the token, a failure leaves the index as it is and is
    /// turned into a warning unless it marks a missing token.
    pub fn take_query(&mut self, network: NetworkType, token_id: u64, answer: OwnerQuery) -> (warning: Option<String>)
        requires
            old(self).well_formed(),
        ensures
            final(self).well_formed(),
            match answer {
                OwnerQuery::Owner(o) => warning.is_none() && match old(self).owner_list().index_of_first(o@) {
                    Some(p) => final(self).owner_list() == old(self).owner_list()
                        && final(self).id_lists() == old(self).id_lists().update(p, old(self).id_lists()[p].push(token_id as i64)),
                    None => final(self).owner_list() == old(self).owner_list().push(o@)
                        && final(self).id_lists() == old(self).id_lists().push(seq![token_id as i64]),
                },
                OwnerQuery::NoOwner => warning.is_none()
                    && final(self).owner_list() == old(self).owner_list()
                    && final(self).id_lists() == old(self).id_lists(),
                OwnerQuery::Failed { detail, shown } =>
                    final(self).owner_list() == old(self).owner_list()
                    && final(self).id_lists() == old(self).id_lists()
                    && match warning {
                        Some(w) => !not_found_on(network, detail@) && w@ == query_warning(token_id, shown@),
                        None => not_found_on(network, detail@),
                    },
            },
    {
        match answer {
            OwnerQuery::Owner(o) => {
                self.record(o, token_id);
                None
            },
            OwnerQuery::NoOwner => None,
            OwnerQuery::Failed { detail, shown } => {
                let expected = if network.is_evm() {
                    is_evm_token_not_found_error(detail.as_str())
                } else {
                    is_sn_token_not_found_error(detail.as_str())
                };
                if expected {
                    None
                } else {
                    let mut w = String::from_str("Warning: Error querying token ");
                    let digits = crate::text::decimal_chars(token_id);
                    crate::text::push_chars(&mut w, &digits);
                    w.append(": ");
                    w.append(shown.as_str());
                    Some(w)
                }
            },
        }
    }
}

/// Whether the progress line is printed after `count` of `total` queries:
/// every hundredth, the first and the last.
pub fn should_report_progress(count: u64, total: u64) -> (r: bool)
    ensures
        r == (count % 100 == 0 || count == 1 || count == total),
{
    count % 100 == 0 || count == 1 || count == total
}

/// The ids of the token range, from `from_id` to `to_id` inclusive.
pub fn token_range(from_id: u64, to_id: u64) -> (r: Vec<u64>)
    requires
        from_id > to_id || to_id - from_id < usize::MAX,
    ensures
        r@.len() == if from_id <= to_id { to_id - from_id + 1 } else { 0 },
        forall|j: int| 0 <= j < r@.len() ==> #[trigger] r@[j] == from_id + j,
{
    let mut r: Vec<u64> = Vec::new();
    if from_id > to_id {
        return r;
    }
    let mut id = from_id;
    loop
        invariant
            from_id <= id <= to_id,
            to_id - from_id < usize::MAX,
            r@.len() == id - from_id,
            forall|j: int| 0 <= j < r@.len() ==> #[trigger] r@[j] == from_id + j,
        decreases to_id - id,
    {
        r.push(id);
        if id == to_id {
            return r;
        }
        id = id + 1;
    }
}

} // verus!

verus! {

/// The text of a snapshot row: the owner and its written ids.
pub open spec fn row_view(row: (String, Vec<String>)) -> (Seq<char>, Seq<Seq<char>>) {
    (row.0@, row.1@.map_values(|t: String| t@))
}

/// What [`HolderIndex::snapshot_rows`] promises of its rows for the owners
/// `ol` with the id lists `il`.
pub open spec fn are_snapshot_rows(ol: Seq<Seq<char>>, il: Seq<Seq<i64>>, rows: Seq<(String, Vec<String>)>) -> bool {
    &&& rows.len() == ol.len()
    &&& forall|a: int, b: int| 0 <= a < b < rows.len() ==> text_lt((#[trigger] rows[a]).0@, (#[trigger] rows[b]).0@)
    &&& forall|i: int| 0 <= i < rows.len() ==> row_of_some_owner(ol, il, #[trigger] rows[i])
    &&& forall|k: int| 0 <= k < ol.len() ==> has_owner_row(rows, #[trigger] ol[k])
}

proof fn lemma_sorted_ids_unique(a: Seq<i64>, b: Seq<i64>)
    requires
        ids_sorted(a),
        ids_sorted(b),
        a.to_multiset() == b.to_multiset(),
    ensures
        a == b,
    decreases a.len(),
{
    assert(a.len() == a.to_multiset().len());
    assert(b.len() == b.to_multiset().len());
    if a.len() == 0 {
        assert(a =~= b);
    } else {
        let x = a.last();
        let y = b.last();
        assert(a.drop_last().push(x) == a);
        assert(b.drop_last().push(y) == b);
        assert(a.to_multiset().count(x) > 0);
        assert(b.to_multiset().count(y) > 0);
        assert(b.contains(x));
        assert(a.contains(y));
        let i = choose|i: int| 0 <= i < b.len() && b[i] == x;
        let j = choose|j: int| 0 <= j < a.len() && a[j] == y;
        assert(x <= y);
        assert(y <= x);
        assert(a.drop_last().to_multiset() =~= a.to_multiset().remove(x));
        assert(b.drop_last().to_multiset() =~= b.to_multiset().remove(y));
        lemma_sorted_ids_unique(a.drop_last(), b.drop_last());
    }
}

proof fn lemma_strictly_sorted_unique(a: Seq<Seq<char>>, b: Seq<Seq<char>>)
    requires
        forall|i: int, j: int| 0 <= i < j < a.len() ==> text_lt(#[trigger] a[i], #[trigger] a[j]),
        forall|i: int, j: int| 0 <= i < j < b.len() ==> text_lt(#[trigger] b[i], #[trigger] b[j]),
        forall|x: Seq<char>| a.contains(x) <==> b.contains(x),
    ensures
        a == b,
    decreases a.len() + b.len(),
{
    if a.len() == 0 || b.len() == 0 {
        if a.len() > 0 {
            assert(a.contains(a[0]));
        }
        if b.len() > 0 {
            assert(b.contains(b[0]));
        }
        assert(a =~= b);
    } else {
        let x = a[0];
        let y = b[0];
        assert(a.contains(x));
        assert(b.contains(y));
        if x != y {
            assert(b.contains(x));
            assert(a.contains(y));
            let i = choose|i: int| 0 <= i < b.len() && b[i] == x;
            let j = choose|j: int| 0 <= j < a.len() && a[j] == y;
            assert(i > 0 && j > 0);
            assert(text_lt(y, x));
            assert(text_lt(x, y));
            lemma_text_lt_transitive(x, y, x);
            lemma_text_lt_irreflexive(x);
        }
        let a2 = a.drop_first();
        let b2 = b.drop_first();
        assert forall|z: Seq<char>| a2.contains(z) <==> b2.contains(z) by {
            if a2.contains(z) {
                let i = choose|i: int| 0 <= i < a2.len() && a2[i] == z;
                assert(a[i + 1] == z);
                assert(text_lt(x, z));
                lemma_text_lt_irreflexive(x);
                assert(b.contains(z));
                let j = choose|j: int| 0 <= j < b.len() && b[j] == z;
                assert(j != 0);
                assert(b2[j - 1] == z);
            }
            if b2.contains(z) {
                let j = choose|j: int| 0 <= j < b2.len() && b2[j] == z;
                assert(b[j + 1] == z);
                assert(text_lt(y, z));
                lemma_text_lt_irreflexive(y);
                assert(a.contains(z));
                let i = choose|i: int| 0 <= i < a.len() && a[i] == z;
                assert(i != 0);
                assert(a2[i - 1] == z);
            }
        }
        assert forall|i: int, j: int| 0 <= i < j < a2.len() implies text_lt(#[trigger] a2[i], #[trigger] a2[j]) by {
            assert(text_lt(a[i + 1], a[j + 1]));
        }
        assert forall|i: int, j: int| 0 <= i < j < b2.len() implies text_lt(#[trigger] b2[i], #[trigger] b2[j]) by {
            assert(text_lt(b[i + 1], b[j + 1]));
        }
        lemma_strictly_sorted_unique(a2, b2);
        assert(a =~= seq![x] + a2);
        assert(b =~= seq![y] + b2);
    }
}

/// The snapshot depends only on who holds which tokens: two indexes with
/// the same owners, each holding the same ids (in any order of arrival),
/// give the same rows.
pub proof fn snapshot_rows_depend_only_on_holdings(
    ol1: Seq<Seq<char>>,
    il1: Seq<Seq<i64>>,
    r1: Seq<(String, Vec<String>)>,
    ol2: Seq<Seq<char>>,
    il2: Seq<Seq<i64>>,
    r2: Seq<(String, Vec<String>)>,
)
    requires
        il1.len() == ol1.len(),
        il2.len() == ol2.len(),
        forall|x: Seq<char>| ol1.contains(x) <==> ol2.contains(x),
        forall|k1: int, k2: int| 0 <= k1 < ol1.len() && 0 <= k2 < ol2.len() && ol1[k1] == ol2[k2]
            ==> (#[trigger] il1[k1]).to_multiset() == (#[trigger] il2[k2]).to_multiset(),
        are_snapshot_rows(ol1, il1, r1),
        are_snapshot_rows(ol2, il2, r2),
    ensures
        r1.map_values(|r: (String, Vec<String>)| row_view(r)) == r2.map_values(|r: (String, Vec<String>)| row_view(r)),
{
    let o1 = r1.map_values(|r: (String, Vec<String>)| r.0@);
    let o2 = r2.map_values(|r: (String, Vec<String>)| r.0@);
    assert forall|i: int, j: int| 0 <= i < j < o1.len() implies text_lt(#[trigger] o1[i], #[trigger] o1[j]) by {
        assert(text_lt(r1[i].0@, r1[j].0@));
    }
    assert forall|i: int, j: int| 0 <= i < j < o2.len() implies text_lt(#[trigger] o2[i], #[trigger] o2[j]) by {
        assert(text_lt(r2[i].0@, r2[j].0@));
    }
    assert forall|x: Seq<char>| o1.contains(x) implies o2.contains(x) by {
        let i = choose|i: int| 0 <= i < o1.len() && o1[i] == x;
        assert(row_of_some_owner(ol1, il1, r1[i]));
        let k = choose|k: int| 0 <= k < ol1.len() && #[trigger] is_snapshot_row(ol1[k], il1[k], r1[i]);
        assert(ol1.contains(x));
        assert(ol2.contains(x));
        let k2 = choose|k2: int| 0 <= k2 < ol2.len() && ol2[k2] == x;
        assert(has_owner_row(r2, ol2[k2]));
        let j = choose|j: int| 0 <= j < r2.len() && (#[trigger] r2[j]).0@ == ol2[k2];
        assert(o2[j] == x);
    }
    assert forall|x: Seq<char>| o2.contains(x) implies o1.contains(x) by {
        let i = choose|i: int| 0 <= i < o2.len() && o2[i] == x;
        assert(row_of_some_owner(ol2, il2, r2[i]));
        let k = choose|k: int| 0 <= k < ol2.len() && #[trigger] is_snapshot_row(ol2[k], il2[k], r2[i]);
        assert(ol2.contains(x));
        assert(ol1.contains(x));
        let k1 = choose|k1: int| 0 <= k1 < ol1.len() && ol1[k1] == x;
        assert(has_owner_row(r1, ol1[k1]));
        let j = choose|j: int| 0 <= j < r1.len() && (#[trigger] r1[j]).0@ == ol1[k1];
        assert(o1[j] == x);
    }
    lemma_strictly_sorted_unique(o1, o2);
    assert forall|i: int| 0 <= i < r1.len() implies row_view(#[trigger] r1[i]) == row_view(r2[i]) by {
        assert(o1[i] == o2[i]);
        assert(row_of_some_owner(ol1, il1, r1[i]));
        assert(row_of_some_owner(ol2, il2, r2[i]));
        let k1 = choose|k: int| 0 <= k < ol1.len() && #[trigger] is_snapshot_row(ol1[k], il1[k], r1[i]);
        let k2 = choose|k: int| 0 <= k < ol2.len() && #[trigger] is_snapshot_row(ol2[k], il2[k], r2[i]);
        assert(ol1[k1] == r1[i].0@);
        assert(ol2[k2] == r2[i].0@);
        assert(il1[k1].to_multiset() == il2[k2].to_multiset());
        let s1 = choose|s: Seq<i64>| #![trigger ids_sorted(s)] ids_sorted(s) && s.to_multiset() == il1[k1].to_multiset()
            && r1[i].1@.len() == s.len()
            && forall|j: int| 0 <= j < s.len() ==> (#[trigger] r1[i].1@[j])@ == id_text(s[j]);
        let s2 = choose|s: Seq<i64>| #![trigger ids_sorted(s)] ids_sorted(s) && s.to_multiset() == il2[k2].to_multiset()
            && r2[i].1@.len() == s.len()
            && forall|j: int| 0 <= j < s.len() ==> (#[trigger] r2[i].1@[j])@ == id_text(s[j]);
        lemma_sorted_ids_unique(s1, s2);
        assert(r1[i].1@.map_values(|t: String| t@) =~= r2[i].1@.map_values(|t: String| t@));
    }
    assert(r1.map_values(|r: (String, Vec<String>)| row_view(r)) =~= r2.map_values(|r: (String, Vec<String>)| row_view(r)));
}

} // verus!

verus! {

/// One step of [`HolderIndex::record`] on the owner and id lists: a known
/// owner gets the id appended to its list, a new owner is added with a
/// list of that id.
pub open spec fn record_step(ol: Seq<Seq<char>>, il: Seq<Seq<i64>>, owner: Seq<char>, id: i64) -> (Seq<Seq<char>>, Seq<Seq<i64>>) {
    match ol.index_of_first(owner) {
        Some(p) => (ol, il.update(p, il[p].push(id))),
        None => (ol.push(owner), il.push(seq![id])),
    }
}

/// The owner and id lists after recording the answers in order, starting
/// from an empty index.
pub open spec fn recorded(answers: Seq<(Seq<char>, i64)>) -> (Seq<Seq<char>>, Seq<Seq<i64>>)
    decreases answers.len(),
{
    if answers.len() == 0 {
        (seq![], seq![])
    } else {
        let prev = recorded(answers.drop_last());
        record_step(prev.0, prev.1, answers.last().0, answers.last().1)
    }
}

/// Recording describes each owner by the answers that name it: the owners
/// are exactly those of the answers, each once, and an owner's ids are,
/// as a multiset, the ids answered for it.
proof fn lemma_recorded_holdings(answers: Seq<(Seq<char>, i64)>)
    ensures
        ({
            let (ol, il) = recorded(answers);
            &&& ol.len() == il.len()
            &&& forall|a: int, b: int| 0 <= a < b < ol.len() ==> (#[trigger] ol[a]) != (#[trigger] ol[b])
            &&& forall|o: Seq<char>| ol.contains(o) <==> exists|i: int| 0 <= i < answers.len() && (#[trigger] answers[i]).0 == o
            &&& forall|k: int, x: i64| 0 <= k < ol.len() ==>
                (#[trigger] il[k].to_multiset().count(x)) == answers.to_multiset().count((ol[k], x))
        }),
    decreases answers.len(),
{
    broadcast use vstd::seq_lib::group_to_multiset_ensures;
    if answers.len() == 0 {
        let (ol, il) = recorded(answers);
        assert(ol.len() == 0);
        assert forall|o: Seq<char>| !ol.contains(o) by {}
    } else {
        let prev_answers = answers.drop_last();
        lemma_recorded_holdings(prev_answers);
        let (pol, pil) = recorded(prev_answers);
        let (owner, id) = answers.last();
        let (ol, il) = recorded(answers);
        assert(prev_answers.push((owner, id)) == answers);
        assert(answers.to_multiset() == prev_answers.to_multiset().insert((owner, id)));
        pol.index_of_first_ensures(owner);
        match pol.index_of_first(owner) {
            Some(p) => {
                assert(ol == pol);
                assert(il == pil.update(p, pil[p].push(id)));
                assert forall|o: Seq<char>| ol.contains(o) <==> exists|i: int| 0 <= i < answers.len() && (#[trigger] answers[i]).0 == o by {
                    if ol.contains(o) {
                        let i = choose|i: int| 0 <= i < prev_answers.len() && (#[trigger] prev_answers[i]).0 == o;
                        assert(answers[i] == prev_answers[i]);
                    }
                    if exists|i: int| 0 <= i < answers.len() && (#[trigger] answers[i]).0 == o {
                        let i = choose|i: int| 0 <= i < answers.len() && (#[trigger] answers[i]).0 == o;
                        if i < prev_answers.len() {
                            assert(prev_answers[i] == answers[i]);
                        } else {
                            assert(o == owner);
                            assert(pol[p] == owner);
                        }
                    }
                }
                assert forall|k: int, x: i64| 0 <= k < ol.len() implies
                    (#[trigger] il[k].to_multiset().count(x)) == answers.to_multiset().count((ol[k], x)) by {
                    assert(pil[k].to_multiset().count(x) == prev_answers.to_multiset().count((pol[k], x)));
                    if k == p {
                        assert(il[k] == pil[p].push(id));
                    } else {
                        assert(il[k] == pil[k]);
                        assert(pol[k] != owner);
                    }
                }
            },
            None => {
                assert(ol == pol.push(owner));
                assert(il == pil.push(seq![id]));
                assert(!pol.contains(owner));
                assert forall|a: int, b: int| 0 <= a < b < ol.len() implies (#[trigger] ol[a]) != (#[trigger] ol[b]) by {
                    if b == pol.len() {
                        assert(pol.contains(pol[a]));
                    } else {
                        assert(pol[a] != pol[b]);
                    }
                }
                assert forall|o: Seq<char>| ol.contains(o) <==> exists|i: int| 0 <= i < answers.len() && (#[trigger] answers[i]).0 == o by {
                    if ol.contains(o) {
                        let j = choose|j: int| 0 <= j < ol.len() && ol[j] == o;
                        if j < pol.len() {
                            assert(pol.contains(o));
                            let i = choose|i: int| 0 <= i < prev_answers.len() && (#[trigger] prev_answers[i]).0 == o;
                            assert(answers[i] == prev_answers[i]);
                        } else {
                            assert(answers[answers.len() - 1].0 == o);
                        }
                    }
                    if exists|i: int| 0 <= i < answers.len() && (#[trigger] answers[i]).0 == o {
                        let i = choose|i: int| 0 <= i < answers.len() && (#[trigger] answers[i]).0 == o;
                        if i < prev_answers.len() {
                            assert(prev_answers[i] == answers[i]);
                            assert(pol.contains(o));
                            let j = choose|j: int| 0 <= j < pol.len() && pol[j] == o;
                            assert(ol[j] == o);
                        } else {
                            assert(ol[pol.len() as int] == o);
                        }
                    }
                }
                assert forall|k: int, x: i64| 0 <= k < ol.len() implies
                    (#[trigger] il[k].to_multiset().count(x)) == answers.to_multiset().count((ol[k], x)) by {
                    if k < pol.len() {
                        assert(il[k] == pil[k]);
                        assert(ol[k] == pol[k]);
                        assert(pol[k] != owner);
                        assert(pil[k].to_multiset().count(x) == prev_answers.to_multiset().count((pol[k], x)));
                    } else {
                        assert(il[k] == seq![id]);
                        assert(seq![id] == Seq::<i64>::empty().push(id));
                        assert(ol[k] == owner);
                        if prev_answers.to_multiset().count((owner, x)) > 0 {
                            assert(prev_answers.contains((owner, x)));
                            let i = choose|i: int| 0 <= i < prev_answers.len() && prev_answers[i] == (owner, x);
                            assert((#[trigger] prev_answers[i]).0 == owner);
                            assert(pol.contains(owner));
                        }
                    }
                }
            },
        }
    }
}

/// Answers recorded in any order give the same holdings: the same owners,
/// each with the same ids as a multiset. Owners arrive in whatever order
/// the concurrent queries return.
pub proof fn recording_order_does_not_matter(a: Seq<(Seq<char>, i64)>, b: Seq<(Seq<char>, i64)>)
    requires
        a.to_multiset() == b.to_multiset(),
    ensures
        ({
            let (ol1, il1) = recorded(a);
            let (ol2, il2) = recorded(b);
            &&& forall|x: Seq<char>| ol1.contains(x) <==> ol2.contains(x)
            &&& forall|k1: int, k2: int| 0 <= k1 < ol1.len() && 0 <= k2 < ol2.len() && ol1[k1] == ol2[k2]
                ==> (#[trigger] il1[k1]).to_multiset() == (#[trigger] il2[k2]).to_multiset()
        }),
{
    broadcast use vstd::seq_lib::group_to_multiset_ensures;
    lemma_recorded_holdings(a);
    lemma_recorded_holdings(b);
    let (ol1, il1) = recorded(a);
    let (ol2, il2) = recorded(b);
    assert forall|x: Seq<char>| ol1.contains(x) implies ol2.contains(x) by {
        let i = choose|i: int| 0 <= i < a.len() && (#[trigger] a[i]).0 == x;
        assert(a.contains(a[i]));
        assert(b.to_multiset().count(a[i]) > 0);
        assert(b.contains(a[i]));
        let j = choose|j: int| 0 <= j < b.len() && b[j] == a[i];
        assert((#[trigger] b[j]).0 == x);
    }
    assert forall|x: Seq<char>| ol2.contains(x) implies ol1.contains(x) by {
        let j = choose|j: int| 0 <= j < b.len() && (#[trigger] b[j]).0 == x;
        assert(b.contains(b[j]));
        assert(a.to_multiset().count(b[j]) > 0);
        assert(a.contains(b[j]));
        let i = choose|i: int| 0 <= i < a.len() && a[i] == b[j];
        assert((#[trigger] a[i]).0 == x);
    }
    assert forall|k1: int, k2: int| 0 <= k1 < ol1.len() && 0 <= k2 < ol2.len() && ol1[k1] == ol2[k2]
        implies (#[trigger] il1[k1]).to_multiset() == (#[trigger] il2[k2]).to_multiset() by {
        assert forall|x: i64| il1[k1].to_multiset().count(x) == il2[k2].to_multiset().count(x) by {
            assert(il1[k1].to_multiset().count(x) == a.to_multiset().count((ol1[k1], x)));
            assert(il2[k2].to_multiset().count(x) == b.to_multiset().count((ol2[k2], x)));
        }
        assert(il1[k1].to_multiset() =~= il2[k2].to_multiset());
    }
}

/// A snapshot does not depend on the order in which the owner queries
/// return: the same answers in any order give the same rows.
pub proof fn snapshot_ignores_answer_order(
    a: Seq<(Seq<char>, i64)>,
    b: Seq<(Seq<char>, i64)>,
    r1: Seq<(String, Vec<String>)>,
    r2: Seq<(String, Vec<String>)>,
)
    requires
        a.to_multiset() == b.to_multiset(),
        are_snapshot_rows(recorded(a).0, recorded(a).1, r1),
        are_snapshot_rows(recorded(b).0, recorded(b).1, r2),
    ensures
        r1.map_values(|r: (String, Vec<String>)| row_view(r)) == r2.map_values(|r: (String, Vec<String>)| row_view(r)),
{
    lemma_recorded_holdings(a);
    lemma_recorded_holdings(b);
    recording_order_does_not_matter(a, b);
    snapshot_rows_depend_only_on_holdings(recorded(a).0, recorded(a).1, r1, recorded(b).0, recorded(b).1, r2);
}

} // verus!
