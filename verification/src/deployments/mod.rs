//! Deployments of Katana, Torii and Saya services: tiers, service
//! addresses, configuration display and configuration warnings.

pub mod accounts;
pub mod create;
pub mod delete;
pub mod describe;
pub mod list;
pub mod logs;
pub mod services;
pub mod update;

use vstd::prelude::*;
use crate::text::{ascii_lower, ascii_lower_char, replace_all, replace_chars, split_chars, split_on, to_chars, from_chars, trim, trim_chars, views};

verus! {

/// The deployment operations.
#[derive(Debug)]
pub enum Deployments {
    Create(create::CreateArgs),
    Delete(delete::DeleteArgs),
    Update(update::UpdateArgs),
    Describe(describe::DescribeArgs),
    List(list::ListArgs),
    Logs(logs::LogsArgs),
    Accounts(accounts::AccountsArgs),
}

/// The address under which deployments are served.
pub const CARTRIDGE_BASE_URL: &'static str = "https://api.cartridge.gg/x";

/// A deployment's size, which sets its price.
#[derive(Clone, Copy, PartialEq, Eq, Structural, Debug)]
pub enum Tier {
    Basic,
    Pro,
    Epic,
    Legendary,
    Insane,
}

/// The tier's name.
pub open spec fn tier_name(t: Tier) -> Seq<char> {
    match t {
        Tier::Basic => "Basic"@,
        Tier::Pro => "Pro"@,
        Tier::Epic => "Epic"@,
        Tier::Legendary => "Legendary"@,
        Tier::Insane => "Insane"@,
    }
}

/// The approximate monthly price of a tier, in dollars.
pub open spec fn tier_price(t: Tier) -> Seq<char> {
    match t {
        Tier::Basic => "3"@,
        Tier::Pro => "5"@,
        Tier::Epic => "15"@,
        Tier::Legendary => "35"@,
        Tier::Insane => "50"@,
    }
}

/// The place of a tier from the smallest to the largest.
pub open spec fn tier_rank(t: Tier) -> nat {
    match t {
        Tier::Basic => 0,
        Tier::Pro => 1,
        Tier::Epic => 2,
        Tier::Legendary => 3,
        Tier::Insane => 4,
    }
}

/// Larger tiers cost more: the monthly price quoted for a tier is a number
/// of dollars that grows with the tier.
pub proof fn larger_tiers_cost_more(a: Tier, b: Tier)
    ensures
        crate::text::all_ascii_digits(tier_price(a)),
        tier_rank(a) < tier_rank(b) ==> crate::text::digits_value(tier_price(a)) < crate::text::digits_value(tier_price(b)),
{
    reveal_strlit("3");
    reveal_strlit("5");
    reveal_strlit("15");
    reveal_strlit("35");
    reveal_strlit("50");
    reveal_with_fuel(crate::text::digits_value, 3);
    assert("15"@.drop_last() =~= seq!['1']);
    assert("35"@.drop_last() =~= seq!['3']);
    assert("50"@.drop_last() =~= seq!['5']);
    assert("3"@.drop_last() =~= Seq::<char>::empty());
    assert("5"@.drop_last() =~= Seq::<char>::empty());
    assert(seq!['1'].drop_last() =~= Seq::<char>::empty());
    assert(seq!['3'].drop_last() =~= Seq::<char>::empty());
    assert(seq!['5'].drop_last() =~= Seq::<char>::empty());
}

/// The tier a command-line value names: the lower-case name of a tier
/// offered for new deployments (the insane tier is not offered), in any
/// ASCII letter case where case is ignored.
pub open spec fn tier_named(input: Seq<char>, ignore_case: bool) -> Option<Tier> {
    if names_value(input, "basic"@, ignore_case) {
        Some(Tier::Basic)
    } else if names_value(input, "pro"@, ignore_case) {
        Some(Tier::Pro)
    } else if names_value(input, "epic"@, ignore_case) {
        Some(Tier::Epic)
    } else if names_value(input, "legendary"@, ignore_case) {
        Some(Tier::Legendary)
    } else {
        None
    }
}

/// The lower-cased name of an offered tier, as the command line writes it.
proof fn lemma_lower_tier_names()
    ensures
        ascii_lower(tier_name(Tier::Basic)) == "basic"@,
        ascii_lower(tier_name(Tier::Pro)) == "pro"@,
        ascii_lower(tier_name(Tier::Epic)) == "epic"@,
        ascii_lower(tier_name(Tier::Legendary)) == "legendary"@,
{
    reveal_strlit("Basic");
    reveal_strlit("basic");
    reveal_strlit("Pro");
    reveal_strlit("pro");
    reveal_strlit("Epic");
    reveal_strlit("epic");
    reveal_strlit("Legendary");
    reveal_strlit("legendary");
    assert(ascii_lower_char('B') as u32 == 'B' as u32 + 32);
    assert(ascii_lower_char('P') as u32 == 'P' as u32 + 32);
    assert(ascii_lower_char('E') as u32 == 'E' as u32 + 32);
    assert(ascii_lower_char('L') as u32 == 'L' as u32 + 32);
    assert(ascii_lower("Basic"@) =~= "basic"@);
    assert(ascii_lower("Pro"@) =~= "pro"@);
    assert(ascii_lower("Epic"@) =~= "epic"@);
    assert(ascii_lower("Legendary"@) =~= "legendary"@);
}

/// A text names a value exactly, or up to ASCII case, where it is that
/// value's text.
proof fn lemma_names_itself(name: Seq<char>, ignore_case: bool)
    ensures
        names_value(name, name, ignore_case),
{
}

/// Reading a tier from the command line gives the tier of that name, and
/// only that one: each offered tier (all but the insane tier) is read back
/// from its lower-cased name, and, where case is ignored, from its name as
/// the tier writes it; a value read as a tier is that tier's lower-cased
/// name (up to case where case is ignored); and no value reads as the
/// insane tier.
pub proof fn tier_names_read_back(t: Tier, input: Seq<char>, ignore_case: bool)
    ensures
        t != Tier::Insane ==> tier_named(ascii_lower(tier_name(t)), ignore_case) == Some(t),
        t != Tier::Insane ==> tier_named(tier_name(t), true) == Some(t),
        tier_named(input, ignore_case) == Some(t) ==> names_value(input, ascii_lower(tier_name(t)), ignore_case),
        tier_named(input, ignore_case) != Some(Tier::Insane),
{
    lemma_lower_tier_names();
    reveal_strlit("Basic");
    reveal_strlit("basic");
    reveal_strlit("Pro");
    reveal_strlit("pro");
    reveal_strlit("Epic");
    reveal_strlit("epic");
    reveal_strlit("Legendary");
    reveal_strlit("legendary");
    lemma_names_itself(ascii_lower(tier_name(t)), ignore_case);
    if t != Tier::Insane {
        let lower = ascii_lower(tier_name(t));
        let name = tier_name(t);
        assert(names_value(name, lower, true)) by {
            assert forall|i: int| 0 <= i < name.len() implies
                crate::text::ascii_fold(#[trigger] name[i]) == crate::text::ascii_fold(lower[i]) by {
                let c = name[i];
                if 'A' <= c && c <= 'Z' {
                    assert(ascii_lower_char(c) as u32 == c as u32 + 32);
                }
            }
        }
    }
}

/// The input is the value's name, exactly or up to ASCII case.
pub open spec fn names_value(input: Seq<char>, name: Seq<char>, ignore_case: bool) -> bool {
    if ignore_case { crate::text::eq_ignore_ascii_case(input, name) } else { input == name }
}

fn is_value(input: &Vec<char>, name: &str, ignore_case: bool) -> (r: bool)
    ensures
        r == names_value(input@, name@, ignore_case),
{
    let n = to_chars(name);
    if ignore_case {
        crate::text::eq_ignore_ascii_case_chars(input, &n)
    } else {
        crate::text::eq_chars(input, &n)
    }
}

impl Tier {
    /// Reads a tier from its name on the command line; the error names the
    /// value that is not a tier.
    pub fn from_str(input: &str, ignore_case: bool) -> (r: Result<Tier, String>)
        ensures
            match tier_named(input@, ignore_case) {
                Some(t) => r == Ok::<Tier, String>(t),
                None => r matches Err(m) && m@ == "invalid variant: "@ + input@,
            },
    {
        let v = to_chars(input);
        if is_value(&v, "basic", ignore_case) {
            Ok(Tier::Basic)
        } else if is_value(&v, "pro", ignore_case) {
            Ok(Tier::Pro)
        } else if is_value(&v, "epic", ignore_case) {
            Ok(Tier::Epic)
        } else if is_value(&v, "legendary", ignore_case) {
            Ok(Tier::Legendary)
        } else {
            Err(String::from_str("invalid variant: ").concat(input))
        }
    }

    /// The tier's name.
    pub fn to_string(&self) -> (r: String)
        ensures
            r@ == tier_name(*self),
    {
        match self {
            Tier::Basic => String::from_str("Basic"),
            Tier::Pro => String::from_str("Pro"),
            Tier::Epic => String::from_str("Epic"),
            Tier::Legendary => String::from_str("Legendary"),
            Tier::Insane => String::from_str("Insane"),
        }
    }

    /// The approximate monthly price, in dollars.
    pub fn monthly_price(&self) -> (r: &'static str)
        ensures
            r@ == tier_price(*self),
    {
        match self {
            Tier::Basic => "3",
            Tier::Pro => "5",
            Tier::Epic => "15",
            Tier::Legendary => "35",
            Tier::Insane => "50",
        }
    }
}

/// Creating a deployment asks for confirmation of the cost unless the tier
/// is the basic one or the creation is forced.
pub open spec fn needs_cost_confirmation(tier: Tier, force: bool) -> bool {
    tier != Tier::Basic && !force
}

/// The question asked before a paid deployment is created.
pub open spec fn cost_prompt(tier: Tier) -> Seq<char> {
    "You are creating an of kind `"@ + tier_name(tier) + "`, which will cost you around $"@ + tier_price(tier)
        + " per month (billed daily). Do you want to proceed?"@
}

/// The cost question for a tier, where one is asked.
pub fn cost_confirmation_prompt(tier: Tier, force: bool) -> (r: Option<String>)
    ensures
        needs_cost_confirmation(tier, force) ==> (r matches Some(p) && p@ == cost_prompt(tier)),
        !needs_cost_confirmation(tier, force) ==> r is None,
{
    if tier != Tier::Basic && !force {
        Some(String::from_str("You are creating an of kind `").concat(tier.to_string().as_str())
            .concat("`, which will cost you around $").concat(tier.monthly_price())
            .concat(" per month (billed daily). Do you want to proceed?"))
    } else {
        None
    }
}

/// The address of a project's service.
pub open spec fn service_url(project: Seq<char>, service: Seq<char>) -> Seq<char> {
    "https://api.cartridge.gg/x"@ + "/"@ + project + "/"@ + service
}

/// Writes the address of a project's service.
pub fn service_url_text(project: &str, service: &str) -> (r: String)
    ensures
        r@ == service_url(project@, service@),
{
    String::from_str(CARTRIDGE_BASE_URL).concat("/").concat(project).concat("/").concat(service)
}

/// The lines of a text as `str::lines` yields them: split at `\n`, with no
/// empty line after a final `\n`, and the `\r` of a `\r\n` ending removed.
pub open spec fn text_lines(s: Seq<char>) -> Seq<Seq<char>> {
    let pieces = split_on(s, '\n');
    let kept = if s.len() > 0 && s.last() == '\n' { pieces.drop_last() } else if s.len() == 0 { seq![] } else { pieces };
    Seq::new(kept.len(), |i: int|
        if (i < kept.len() - 1 || (s.len() > 0 && s.last() == '\n')) && kept[i].len() > 0 && kept[i].last() == '\r' {
            kept[i].drop_last()
        } else {
            kept[i]
        })
}

/// A line of a configuration file, as the configuration display shows it.
#[derive(Debug)]
pub enum ConfigLine {
    /// A `[section]` header.
    Header(String),
    /// A `key = value` pair: the key and the value trimmed, quotes removed
    /// from the value.
    KeyValue(String, String),
    /// Any other line that is not blank.
    Other(String),
    /// The empty line that sets a section header apart from the section
    /// before it.
    Separator,
}

/// How a configuration line is shown: `None` for a blank line, which is
/// left out.
pub open spec fn config_line(line: Seq<char>) -> Option<(nat, Seq<char>, Seq<char>)> {
    if line.len() > 0 && line[0] == '[' {
        Some((0, line, seq![]))
    } else if line.contains('=') {
        let p = split_on(line, '=');
        let key = p[0];
        let value = line.skip(key.len() as int + 1);
        Some((1, trim(key), replace_all(trim(value), "\""@, ""@)))
    } else if trim(line).len() == 0 {
        None
    } else {
        Some((2, line, seq![]))
    }
}

/// The spec view of a displayed configuration line.
pub open spec fn config_line_view(c: ConfigLine) -> (nat, Seq<char>, Seq<char>) {
    match c {
        ConfigLine::Header(h) => (0, h@, seq![]),
        ConfigLine::KeyValue(k, v) => (1, k@, v@),
        ConfigLine::Other(l) => (2, l@, seq![]),
        ConfigLine::Separator => (3, seq![], seq![]),
    }
}

/// The position of the first `=` in a line that holds one.
fn first_equals(v: &Vec<char>) -> (r: usize)
    requires
        v@.contains('='),
    ensures
        r < v@.len(),
        v@[r as int] == '=',
        forall|k: int| 0 <= k < r ==> v@[k] != '=',
{
    let mut i: usize = 0;
    while i < v.len()
        invariant
            i <= v.len(),
            v@.contains('='),
            forall|k: int| 0 <= k < i ==> v@[k] != '=',
        decreases v.len() - i,
    {
        if v[i] == '=' {
            return i;
        }
        i = i + 1;
    }
    proof {
        let k = choose|k: int| 0 <= k < v@.len() && v@[k] == '=';
    }
    i
}

proof fn lemma_split_first_piece(s: Seq<char>, sep: char, p: int)
    requires
        0 <= p < s.len(),
        s[p] == sep,
        forall|k: int| 0 <= k < p ==> s[k] != sep,
    ensures
        split_on(s, sep)[0] == s.take(p),
    decreases s.len(),
{
    crate::text::lemma_split_on_nonempty(s.drop_last(), sep);
    if s.len() - 1 == p {
        lemma_split_first_piece_prefix(s.drop_last(), sep);
        assert(s.drop_last() == s.take(p));
    } else {
        lemma_split_first_piece(s.drop_last(), sep, p);
        assert(s.drop_last().take(p) == s.take(p));
        crate::text::lemma_split_on_nonempty(s.drop_last(), sep);
        lemma_split_on_len_two(s.drop_last(), sep, p);
    }
}

proof fn lemma_split_first_piece_prefix(s: Seq<char>, sep: char)
    requires
        forall|k: int| 0 <= k < s.len() ==> s[k] != sep,
    ensures
        split_on(s, sep) == seq![s],
    decreases s.len(),
{
    if s.len() > 0 {
        lemma_split_first_piece_prefix(s.drop_last(), sep);
        assert(s.drop_last().push(s.last()) =~= s);
        let prev = split_on(s.drop_last(), sep);
        assert(prev.len() == 1);
        assert(prev.update(prev.len() - 1, prev.last().push(s.last())) =~= seq![s]);
    } else {
        assert(s =~= seq![]);
    }
}

proof fn lemma_split_on_len_two(s: Seq<char>, sep: char, p: int)
    requires
        0 <= p < s.len(),
        s[p] == sep,
    ensures
        split_on(s, sep).len() >= 2,
    decreases s.len(),
{
    crate::text::lemma_split_on_nonempty(s.drop_last(), sep);
    if s.len() - 1 != p {
        lemma_split_on_len_two(s.drop_last(), sep, p);
    }
}

/// Shows one configuration line; `None` for a blank line.
pub fn show_config_line(line: &str) -> (r: Option<ConfigLine>)
    ensures
        match config_line(line@) {
            None => r is None,
            Some(c) => r matches Some(x) && config_line_view(x) == c,
        },
{
    let v = to_chars(line);
    if v.len() > 0 && v[0] == '[' {
        return Some(ConfigLine::Header(String::from_str(line)));
    }
    let mut has_eq = false;
    let mut i: usize = 0;
    while i < v.len()
        invariant
            i <= v.len(),
            has_eq == exists|k: int| 0 <= k < i && v@[k] == '=',
        decreases v.len() - i,
    {
        if v[i] == '=' {
            has_eq = true;
        }
        i = i + 1;
    }
    proof {
        if has_eq {
            let k = choose|k: int| 0 <= k < v@.len() && v@[k] == '=';
            assert(v@.contains('='));
        } else {
            assert(!v@.contains('='));
        }
    }
    if has_eq {
        let p = first_equals(&v);
        proof { lemma_split_first_piece(line@, '=', p as int); }
        let key = trim_chars(&crate::text::sub_chars(&v, 0, p));
        let rest = trim_chars(&crate::text::sub_chars(&v, p + 1, v.len()));
        proof {
            assert(v@.subrange(0, p as int) == line@.take(p as int));
            assert(v@.subrange(p + 1, v.len() as int) == line@.skip(p + 1));
            reveal_strlit("\"");
        }
        let value = replace_chars(&rest, &to_chars("\""), &to_chars(""));
        return Some(ConfigLine::KeyValue(from_chars(&key), from_chars(&value)));
    }
    let t = trim_chars(&v);
    if t.len() == 0 {
        None
    } else {
        Some(ConfigLine::Other(String::from_str(line)))
    }
}

/// A `[section]` header line.
pub open spec fn is_header_line(line: Seq<char>) -> bool {
    line.len() > 0 && line[0] == '['
}

/// Some line of `lines` is a section header.
pub open spec fn has_header(lines: Seq<Seq<char>>) -> bool {
    exists|i: int| 0 <= i < lines.len() && #[trigger] is_header_line(lines[i])
}

/// The displayed lines of a sequence of configuration lines: blank ones
/// left out, and an empty line before every section header but the first.
pub open spec fn shown_config(lines: Seq<Seq<char>>) -> Seq<(nat, Seq<char>, Seq<char>)>
    decreases lines.len(),
{
    if lines.len() == 0 {
        seq![]
    } else {
        let rest = shown_config(lines.drop_last());
        match config_line(lines.last()) {
            Some(c) => if is_header_line(lines.last()) && has_header(lines.drop_last()) {
                rest.push((3, seq![], seq![])).push(c)
            } else {
                rest.push(c)
            },
            None => rest,
        }
    }
}

/// The views of displayed configuration lines.
pub open spec fn config_views(v: Seq<ConfigLine>) -> Seq<(nat, Seq<char>, Seq<char>)> {
    v.map_values(|c: ConfigLine| config_line_view(c))
}

/// Splits a text into lines as `str::lines` does.
pub fn lines_of(s: &str) -> (r: Vec<String>)
    ensures
        r@.map_values(|x: String| x@) == text_lines(s@),
{
    let v = to_chars(s);
    let pieces = split_chars(&v, '\n');
    proof { crate::text::lemma_split_on_nonempty(s@, '\n'); }
    let ends_nl = v.len() > 0 && v[v.len() - 1] == '\n';
    let count = if v.len() == 0 { 0 } else if ends_nl { pieces.len() - 1 } else { pieces.len() };
    let ghost pv = views(pieces@);
    let ghost kept = if s@.len() > 0 && s@.last() == '\n' { pv.drop_last() } else if s@.len() == 0 { seq![] } else { pv };
    assert(kept.len() == count);
    assert(pv == split_on(s@, '\n'));
    let ghost tl = text_lines(s@);
    assert(tl.len() == count);
    assert(forall|k: int| 0 <= k < count ==> #[trigger] tl[k] ==
        if (k < kept.len() - 1 || ends_nl) && kept[k].len() > 0 && kept[k].last() == '\r' { kept[k].drop_last() } else { kept[k] });
    let mut r: Vec<String> = Vec::new();
    for i in 0..count
        invariant
            count == kept.len(),
            count <= pieces@.len(),
            pv == views(pieces@),
            ends_nl == (s@.len() > 0 && s@.last() == '\n'),
            forall|k: int| 0 <= k < count ==> #[trigger] kept[k] == pv[k],
            tl == text_lines(s@),
            tl.len() == count,
            forall|k: int| 0 <= k < count ==> #[trigger] tl[k] ==
                if (k < kept.len() - 1 || ends_nl) && kept[k].len() > 0 && kept[k].last() == '\r' { kept[k].drop_last() } else { kept[k] },
            r@.len() == i,
            forall|k: int| 0 <= k < i ==> (#[trigger] r@[k])@ == tl[k],
    {
        let p = &pieces[i];
        assert(p@ == kept[i as int]);
        let strip = (i + 1 < count || ends_nl) && p.len() > 0 && p[p.len() - 1] == '\r';
        let line = if strip {
            from_chars(&crate::text::sub_chars(p, 0, p.len() - 1))
        } else {
            from_chars(p)
        };
        proof {
            if strip {
                assert(p@.subrange(0, p@.len() - 1) == p@.drop_last());
            }
            assert(line@ == tl[i as int]);
        }
        r.push(line);
    }
    assert(r@.map_values(|x: String| x@) =~= text_lines(s@));
    r
}

/// The configuration display of a TOML text: section headers, keys with
/// their values, and other lines that are not blank, in order, with an
/// empty line before every section header but the first.
pub fn config_display(config: &str) -> (r: Vec<ConfigLine>)
    ensures
        config_views(r@) == shown_config(text_lines(config@)),
{
    let lines = lines_of(config);
    let ghost lv = lines@.map_values(|x: String| x@);
    let mut r: Vec<ConfigLine> = Vec::new();
    let mut seen_header = false;
    for i in 0..lines.len()
        invariant
            lv == lines@.map_values(|x: String| x@),
            config_views(r@) == shown_config(lv.take(i as int)),
            seen_header == has_header(lv.take(i as int)),
    {
        let ghost prefix = lv.take(i as int);
        let ghost next = lv.take(i + 1);
        assert(next.drop_last() == prefix);
        assert(next.last() == lines@[i as int]@);
        let ghost before = config_views(r@);
        let v = to_chars(lines[i].as_str());
        let header = v.len() > 0 && v[0] == '[';
        assert(header == is_header_line(lines@[i as int]@));
        proof {
            if has_header(prefix) {
                let k = choose|k: int| 0 <= k < prefix.len() && #[trigger] is_header_line(prefix[k]);
                assert(next[k] == prefix[k]);
            }
            if header {
                assert(is_header_line(next[i as int]));
            }
            if has_header(next) && !header {
                let k = choose|k: int| 0 <= k < next.len() && #[trigger] is_header_line(next[k]);
                assert(k != i);
                assert(prefix[k] == next[k]);
            }
        }
        match show_config_line(lines[i].as_str()) {
            Some(c) => {
                if header && seen_header {
                    r.push(ConfigLine::Separator);
                    r.push(c);
                    assert(config_views(r@) =~= before.push((3, seq![], seq![])).push(config_line_view(c)));
                } else {
                    r.push(c);
                    assert(config_views(r@) =~= before.push(config_line_view(c)));
                }
            },
            None => {},
        }
        seen_header = seen_header || header;
    }
    assert(lv.take(lines.len() as int) == lv);
    r
}

/// What `toml::from_str::<toml::Value>` reads from a text, by the keys the
/// configuration checks look at: `None` where the text is not a TOML
/// document; else the document's keys, each with the keys of its value
/// where that value is a table.
pub uninterp spec fn toml_key_tree(s: Seq<char>) -> Option<Seq<(Seq<char>, Option<Seq<Seq<char>>>)>>;

/// The view of a key tree as the wrapper hands it out.
pub open spec fn key_tree_view(t: Vec<(String, Option<Vec<String>>)>) -> Seq<(Seq<char>, Option<Seq<Seq<char>>>)> {
    t@.map_values(|e: (String, Option<Vec<String>>)| (e.0@, match e.1 {
        Some(v) => Some(v@.map_values(|k: String| k@)),
        None => None,
    }))
}

/// `toml::from_str::<toml::Value>`, its document table read out key by key
/// (with the keys of each member that is itself a table). The result is the
/// named one, and its keys are distinct, as those of a `toml::map::Map`
/// are; how TOML is read is not stated here.
#[verifier::external_body]
fn read_toml_keys(content: &str) -> (r: Option<Vec<(String, Option<Vec<String>>)>>)
    ensures
        match r {
            Some(t) => toml_key_tree(content@) == Some(key_tree_view(t)) && unique_keys(key_tree_view(t)),
            None => toml_key_tree(content@) is None,
        },
{
    let value = toml::from_str::<toml::Value>(content).ok()?;
    let table = match value {
        toml::Value::Table(t) => t,
        _ => toml::map::Map::new(),
    };
    Some(table.iter().map(|(k, v)| (k.clone(), v.as_table().map(|t| t.keys().cloned().collect()))).collect())
}

/// The document has a member with this key.
pub open spec fn has_key(t: Seq<(Seq<char>, Option<Seq<Seq<char>>>)>, key: Seq<char>) -> bool {
    exists|i: int| 0 <= i < t.len() && (#[trigger] t[i]).0 == key
}

/// The member is a table with the sub-key.
pub open spec fn subs_contain(o: Option<Seq<Seq<char>>>, sub: Seq<char>) -> bool {
    match o {
        Some(s) => s.contains(sub),
        None => false,
    }
}

/// The document has a table member with this key, and that table has the
/// sub-key.
pub open spec fn has_sub_key(t: Seq<(Seq<char>, Option<Seq<Seq<char>>>)>, key: Seq<char>, sub: Seq<char>) -> bool {
    exists|i: int| 0 <= i < t.len() && (#[trigger] t[i]).0 == key
        && subs_contain(t[i].1, sub)
}

/// One warning when `c` holds.
pub open spec fn warn_if(c: bool, w: Seq<char>) -> Seq<Seq<char>> {
    if c { seq![w] } else { seq![] }
}

/// The warnings about configuration options that Slot ignores or
/// overrides, in the order they are checked.
pub open spec fn config_warnings(t: Seq<(Seq<char>, Option<Seq<Seq<char>>>)>) -> Seq<Seq<char>> {
    warn_if(has_key(t, "db_dir"@), "⚠️  Warning: 'db_dir' option found in config file but is ignored. Slot is managing and persisting the database."@)
    + warn_if(has_sub_key(t, "indexing"@, "blocks_chunk_size"@), "⚠️  Warning: 'blocks_chunk_size' option found in config file but is ignored and overridden in slot."@)
    + warn_if(has_sub_key(t, "indexing"@, "events_chunk_size"@), "⚠️  Warning: 'events_chunk_size' option found in config file but is ignored and overridden in slot."@)
    + warn_if(has_key(t, "metrics"@), "⚠️  Warning: 'metrics' section found in config file but is ignored and overridden in slot. Metrics are always collected and available at /metrics of your slot deployment URL."@)
    + warn_if(has_key(t, "sql"@), "⚠️  Warning: '[sql]' section found in config file but is ignored and overridden in slot. Database configuration is managed by slot."@)
    + warn_if(has_sub_key(t, "sql"@, "cache_size"@), "⚠️  Warning: 'cache_size' option found in config file but is ignored and overridden in slot."@)
    + warn_if(has_sub_key(t, "sql"@, "page_size"@), "⚠️  Warning: 'page_size' option found in config file but is ignored and overridden in slot."@)
    + warn_if(has_key(t, "erc"@), "⚠️  Warning: '[erc]' section found in config file but is ignored and overridden in slot. ERC configuration is managed by slot."@)
    + warn_if(has_sub_key(t, "erc"@, "max_metadata_tasks"@), "⚠️  Warning: 'max_metadata_tasks' option found in config file but is ignored and overridden in slot."@)
}

fn find_key(t: &Vec<(String, Option<Vec<String>>)>, key: &str) -> (r: Option<usize>)
    ensures
        match r {
            Some(i) => i < t@.len() && t@[i as int].0@ == key@ && has_key(key_tree_view(*t), key@),
            None => !has_key(key_tree_view(*t), key@),
        },
{
    let k = to_chars(key);
    for i in 0..t.len()
        invariant
            k@ == key@,
            forall|j: int| 0 <= j < i ==> (#[trigger] t@[j]).0@ != key@,
    {
        if crate::text::eq_chars(&to_chars(t[i].0.as_str()), &k) {
            assert(key_tree_view(*t)[i as int].0 == key@);
            return Some(i);
        }
    }
    proof {
        let v = key_tree_view(*t);
        assert forall|j: int| 0 <= j < v.len() implies (#[trigger] v[j]).0 != key@ by {
            assert(v[j].0 == t@[j].0@);
        }
    }
    None
}

fn has_sub(subs: &Vec<String>, sub: &str) -> (r: bool)
    ensures
        r == subs@.map_values(|k: String| k@).contains(sub@),
{
    let s = to_chars(sub);
    for i in 0..subs.len()
        invariant
            s@ == sub@,
            forall|j: int| 0 <= j < i ==> (#[trigger] subs@[j])@ != sub@,
    {
        if crate::text::eq_chars(&to_chars(subs[i].as_str()), &s) {
            assert(subs@.map_values(|k: String| k@)[i as int] == sub@);
            return true;
        }
    }
    proof {
        let names = subs@.map_values(|k: String| k@);
        if names.contains(sub@) {
            let j = choose|j: int| 0 <= j < names.len() && #[trigger] names[j] == sub@;
            assert(subs@[j]@ == sub@);
        }
    }
    false
}

/// Keys in a TOML document are unique, so the first member with a key is
/// the only one.
pub open spec fn unique_keys(t: Seq<(Seq<char>, Option<Seq<Seq<char>>>)>) -> bool {
    forall|a: int, b: int| 0 <= a < b < t.len() ==> (#[trigger] t[a]).0 != (#[trigger] t[b]).0
}

fn sub_key_present(t: &Vec<(String, Option<Vec<String>>)>, key: &str, sub: &str) -> (r: bool)
    requires
        unique_keys(key_tree_view(*t)),
    ensures
        r == has_sub_key(key_tree_view(*t), key@, sub@),
{
    let ghost v = key_tree_view(*t);
    match find_key(t, key) {
        None => false,
        Some(i) => {
            assert(v[i as int].0 == key@);
            match &t[i].1 {
                Some(subs) => {
                    let b = has_sub(subs, sub);
                    proof {
                        if !b && has_sub_key(v, key@, sub@) {
                            let j = choose|j: int| 0 <= j < v.len() && (#[trigger] v[j]).0 == key@
                                && subs_contain(v[j].1, sub@);
                            assert(j == i);
                        }
                    }
                    b
                },
                None => {
                    proof {
                        if has_sub_key(v, key@, sub@) {
                            let j = choose|j: int| 0 <= j < v.len() && (#[trigger] v[j]).0 == key@
                                && subs_contain(v[j].1, sub@);
                            assert(j == i);
                        }
                    }
                    false
                },
            }
        },
    }
}

fn push_if(r: &mut Vec<String>, c: bool, w: &str)
    ensures
        final(r)@.map_values(|s: String| s@) == old(r)@.map_values(|s: String| s@) + warn_if(c, w@),
{
    let ghost before = r@.map_values(|s: String| s@);
    if c {
        r.push(String::from_str(w));
        assert(r@.map_values(|s: String| s@) =~= before + warn_if(c, w@));
    } else {
        assert(before + warn_if(c, w@) =~= before);
    }
}

/// The warnings for a read configuration document.
pub fn warnings_for(t: &Vec<(String, Option<Vec<String>>)>) -> (r: Vec<String>)
    requires
        unique_keys(key_tree_view(*t)),
    ensures
        r@.map_values(|s: String| s@) == config_warnings(key_tree_view(*t)),
{
    let mut r: Vec<String> = Vec::new();
    assert(r@.map_values(|s: String| s@) =~= Seq::<Seq<char>>::empty());
    let db = find_key(t, "db_dir").is_some();
    push_if(&mut r, db, "⚠️  Warning: 'db_dir' option found in config file but is ignored. Slot is managing and persisting the database.");
    let b = sub_key_present(t, "indexing", "blocks_chunk_size");
    push_if(&mut r, b, "⚠️  Warning: 'blocks_chunk_size' option found in config file but is ignored and overridden in slot.");
    let e = sub_key_present(t, "indexing", "events_chunk_size");
    push_if(&mut r, e, "⚠️  Warning: 'events_chunk_size' option found in config file but is ignored and overridden in slot.");
    let m = find_key(t, "metrics").is_some();
    push_if(&mut r, m, "⚠️  Warning: 'metrics' section found in config file but is ignored and overridden in slot. Metrics are always collected and available at /metrics of your slot deployment URL.");
    let q = find_key(t, "sql").is_some();
    push_if(&mut r, q, "⚠️  Warning: '[sql]' section found in config file but is ignored and overridden in slot. Database configuration is managed by slot.");
    let c = sub_key_present(t, "sql", "cache_size");
    push_if(&mut r, c, "⚠️  Warning: 'cache_size' option found in config file but is ignored and overridden in slot.");
    let p = sub_key_present(t, "sql", "page_size");
    push_if(&mut r, p, "⚠️  Warning: 'page_size' option found in config file but is ignored and overridden in slot.");
    let x = find_key(t, "erc").is_some();
    push_if(&mut r, x, "⚠️  Warning: '[erc]' section found in config file but is ignored and overridden in slot. ERC configuration is managed by slot.");
    let y = sub_key_present(t, "erc", "max_metadata_tasks");
    push_if(&mut r, y, "⚠️  Warning: 'max_metadata_tasks' option found in config file but is ignored and overridden in slot.");
    r
}

/// The warnings about a configuration file's content, as `deployments
/// update` prints them: none where the content is not TOML.
pub fn config_file_warnings(content: &str) -> (r: Vec<String>)
    ensures
        match toml_key_tree(content@) {
            Some(t) => r@.map_values(|s: String| s@) == config_warnings(t),
            None => r@.len() == 0,
        },
{
    match read_toml_keys(content) {
        Some(t) => warnings_for(&t),
        None => Vec::new(),
    }
}

} // verus!
