//! `paymaster transactions`: the query options and the transaction table.

use vstd::prelude::*;
use crate::paymaster::utils::clock_reading;
use crate::text::{decimal, decimal_chars, pad_right, pad_right_chars, push_chars, repeat_char, str_eq, to_chars, unicode_uppercase, uppercase, ascii_upper, is_ascii_text};

verus! {

/// The options of `paymaster transactions`.
#[derive(Debug)]
pub struct TransactionArgs {
    /// `SUCCESSFUL`, `REVERTED` or `ALL`, in any letter case.
    pub filter: Option<String>,
    /// `FEES_ASC`, `FEES_DESC`, `EXECUTED_AT_ASC` or `EXECUTED_AT_DESC`.
    pub order_by: Option<String>,
    /// The look-back period, such as `24hr`.
    pub last: String,
    /// The most transactions to list.
    pub limit: Option<i64>,
}

/// A transaction as the table shows it.
#[derive(Debug)]
pub struct TransactionDisplay {
    pub transaction_hash: String,
    pub executed_at: String,
    pub status: String,
    pub usd_fee: String,
}

/// Which transactions are listed.
#[derive(Clone, Copy, PartialEq, Eq, Structural, Debug)]
pub enum TransactionFilter {
    Successful,
    Reverted,
    All,
}

/// The order transactions are listed in.
#[derive(Clone, Copy, PartialEq, Eq, Structural, Debug)]
pub enum TransactionOrder {
    FeesAsc,
    FeesDesc,
    ExecutedAtAsc,
    ExecutedAtDesc,
}

/// The filter named by an upper-cased text.
pub open spec fn filter_named(upper: Seq<char>) -> Option<TransactionFilter> {
    if upper == "SUCCESSFUL"@ {
        Some(TransactionFilter::Successful)
    } else if upper == "REVERTED"@ {
        Some(TransactionFilter::Reverted)
    } else if upper == "ALL"@ {
        Some(TransactionFilter::All)
    } else {
        None
    }
}

/// The order named by an upper-cased text.
pub open spec fn order_named(upper: Seq<char>) -> Option<TransactionOrder> {
    if upper == "FEES_ASC"@ {
        Some(TransactionOrder::FeesAsc)
    } else if upper == "FEES_DESC"@ {
        Some(TransactionOrder::FeesDesc)
    } else if upper == "EXECUTED_AT_ASC"@ {
        Some(TransactionOrder::ExecutedAtAsc)
    } else if upper == "EXECUTED_AT_DESC"@ {
        Some(TransactionOrder::ExecutedAtDesc)
    } else {
        None
    }
}

/// Whether the order lists the smallest value first.
pub open spec fn order_ascending(o: TransactionOrder) -> bool {
    o == TransactionOrder::FeesAsc || o == TransactionOrder::ExecutedAtAsc
}

/// Whether the order sorts by fee (else by execution time).
pub open spec fn order_by_fee(o: TransactionOrder) -> bool {
    o == TransactionOrder::FeesAsc || o == TransactionOrder::FeesDesc
}

/// The API's name of an order: the field sorted by, `FEES` or
/// `EXECUTED_AT`, then `_`, then the direction, `ASC` or `DESC`.
pub open spec fn order_text(o: TransactionOrder) -> Seq<char> {
    (if order_by_fee(o) { "FEES"@ } else { "EXECUTED_AT"@ }) + "_"@ + (if order_ascending(o) { "ASC"@ } else { "DESC"@ })
}

/// An upper-cased order text reads as an order exactly where it names that
/// order's field and direction: `EXECUTED_AT_ASC` is oldest first and
/// `EXECUTED_AT_DESC` newest first, and no two texts give the same order.
pub proof fn order_names_read_back(upper: Seq<char>, o: TransactionOrder)
    ensures
        order_named(upper) == Some(o) <==> upper == order_text(o),
{
    reveal_strlit("FEES_ASC");
    reveal_strlit("FEES_DESC");
    reveal_strlit("EXECUTED_AT_ASC");
    reveal_strlit("EXECUTED_AT_DESC");
    reveal_strlit("FEES");
    reveal_strlit("EXECUTED_AT");
    reveal_strlit("_");
    reveal_strlit("ASC");
    reveal_strlit("DESC");
    assert("FEES"@ + "_"@ + "ASC"@ =~= "FEES_ASC"@);
    assert("FEES"@ + "_"@ + "DESC"@ =~= "FEES_DESC"@);
    assert("EXECUTED_AT"@ + "_"@ + "ASC"@ =~= "EXECUTED_AT_ASC"@);
    assert("EXECUTED_AT"@ + "_"@ + "DESC"@ =~= "EXECUTED_AT_DESC"@);
}

/// The API's name of a filter.
pub open spec fn filter_text(f: TransactionFilter) -> Seq<char> {
    match f {
        TransactionFilter::Successful => "SUCCESSFUL"@,
        TransactionFilter::Reverted => "REVERTED"@,
        TransactionFilter::All => "ALL"@,
    }
}

/// An upper-cased filter text reads as a filter exactly where it is that
/// filter's API name.
pub proof fn filter_names_read_back(upper: Seq<char>, f: TransactionFilter)
    ensures
        filter_named(upper) == Some(f) <==> upper == filter_text(f),
{
    reveal_strlit("SUCCESSFUL");
    reveal_strlit("REVERTED");
    reveal_strlit("ALL");
    assert("SUCCESSFUL"@.len() == 10);
    assert("REVERTED"@.len() == 8);
    assert("ALL"@.len() == 3);
}

/// The filter an upper-cased text names.
pub fn filter_of(upper: &str) -> (r: Option<TransactionFilter>)
    ensures
        r == filter_named(upper@),
{
    if str_eq(upper, "SUCCESSFUL") {
        Some(TransactionFilter::Successful)
    } else if str_eq(upper, "REVERTED") {
        Some(TransactionFilter::Reverted)
    } else if str_eq(upper, "ALL") {
        Some(TransactionFilter::All)
    } else {
        None
    }
}

/// The order an upper-cased text names.
pub fn order_of(upper: &str) -> (r: Option<TransactionOrder>)
    ensures
        r == order_named(upper@),
{
    if str_eq(upper, "FEES_ASC") {
        Some(TransactionOrder::FeesAsc)
    } else if str_eq(upper, "FEES_DESC") {
        Some(TransactionOrder::FeesDesc)
    } else if str_eq(upper, "EXECUTED_AT_ASC") {
        Some(TransactionOrder::ExecutedAtAsc)
    } else if str_eq(upper, "EXECUTED_AT_DESC") {
        Some(TransactionOrder::ExecutedAtDesc)
    } else {
        None
    }
}

/// Reads the optional filter, in any letter case.
pub fn parse_filter(filter: &Option<String>) -> (r: Result<Option<TransactionFilter>, String>)
    ensures
        match filter {
            None => r == Ok::<Option<TransactionFilter>, String>(None),
            Some(f) => match filter_named(unicode_uppercase(f@)) {
                Some(x) => r == Ok::<Option<TransactionFilter>, String>(Some(x)),
                None => r matches Err(m) && m@ == "Invalid filter: "@ + f@ + ". Use SUCCESSFUL, REVERTED, or ALL"@,
            },
        },
        filter matches Some(f) ==> (is_ascii_text(f@) ==> unicode_uppercase(f@) == ascii_upper(f@)),
{
    match filter {
        None => Ok(None),
        Some(f) => {
            let upper = uppercase(f.as_str());
            match filter_of(upper.as_str()) {
                Some(x) => Ok(Some(x)),
                None => Err(String::from_str("Invalid filter: ").concat(f.as_str()).concat(". Use SUCCESSFUL, REVERTED, or ALL")),
            }
        },
    }
}

/// Reads the optional order, in any letter case; newest first where none
/// is given.
pub fn parse_order(order_by: &Option<String>) -> (r: Result<TransactionOrder, String>)
    ensures
        match order_by {
            None => r == Ok::<TransactionOrder, String>(TransactionOrder::ExecutedAtDesc),
            Some(o) => match order_named(unicode_uppercase(o@)) {
                Some(x) => r == Ok::<TransactionOrder, String>(x),
                None => r matches Err(m) && m@ == "Invalid order_by: "@ + o@
                    + ". Use FEES_ASC, FEES_DESC, EXECUTED_AT_ASC, or EXECUTED_AT_DESC"@,
            },
        },
        order_by matches Some(o) ==> (is_ascii_text(o@) ==> unicode_uppercase(o@) == ascii_upper(o@)),
{
    match order_by {
        None => Ok(TransactionOrder::ExecutedAtDesc),
        Some(o) => {
            let upper = uppercase(o.as_str());
            match order_of(upper.as_str()) {
                Some(x) => Ok(x),
                None => Err(String::from_str("Invalid order_by: ").concat(o.as_str()).concat(
                    ". Use FEES_ASC, FEES_DESC, EXECUTED_AT_ASC, or EXECUTED_AT_DESC",
                )),
            }
        },
    }
}

/// How long ago something happened, from the whole seconds elapsed: in the
/// largest unit of seconds, minutes, hours, days and weeks that keeps the
/// count below the next unit, rounded down.
pub open spec fn relative_label(secs: i64) -> Seq<char> {
    if secs < 0 {
        "in the future"@
    } else if secs < 60 {
        decimal(secs as nat) + "s ago"@
    } else if secs / 60 < 60 {
        decimal((secs / 60) as nat) + "m ago"@
    } else if secs / 3600 < 24 {
        decimal((secs / 3600) as nat) + "h ago"@
    } else if secs / 86400 < 7 {
        decimal((secs / 86400) as nat) + "d ago"@
    } else {
        decimal((secs / 604800) as nat) + "w ago"@
    }
}

/// A relative time counts whole units: `c` minutes and fewer than sixty
/// seconds is `c` minutes ago (for fewer than sixty minutes), `c` hours and
/// less than an hour is `c` hours ago (below a day), `c` days and less than
/// a day is `c` days ago (below a week), `c` weeks and less than a week is
/// `c` weeks ago, and fewer than sixty seconds are shown as seconds.
pub proof fn relative_labels_count_whole_units(c: i64, r: i64)
    ensures
        0 <= c < 60 ==> relative_label(c) == decimal(c as nat) + "s ago"@,
        c < 0 ==> relative_label(c) == "in the future"@,
        1 <= c < 60 && 0 <= r < 60 ==> relative_label((60 * c + r) as i64) == decimal(c as nat) + "m ago"@,
        1 <= c < 24 && 0 <= r < 3600 ==> relative_label((3600 * c + r) as i64) == decimal(c as nat) + "h ago"@,
        1 <= c < 7 && 0 <= r < 86400 ==> relative_label((86400 * c + r) as i64) == decimal(c as nat) + "d ago"@,
        1 <= c && 0 <= r < 604800 && 604800 * c + r <= i64::MAX ==> relative_label((604800 * c + r) as i64)
            == decimal(c as nat) + "w ago"@,
{
    if 1 <= c < 60 && 0 <= r < 60 {
        assert((60 * c + r) / 60 == c) by (nonlinear_arith)
            requires 0 <= r < 60, 1 <= c;
    }
    if 1 <= c < 24 && 0 <= r < 3600 {
        let s = 3600 * c + r;
        assert(s / 3600 == c) by (nonlinear_arith)
            requires 0 <= r < 3600, 1 <= c, s == 3600 * c + r;
        assert(s / 60 >= 60) by (nonlinear_arith)
            requires 1 <= c, s == 3600 * c + r, 0 <= r;
    }
    if 1 <= c < 7 && 0 <= r < 86400 {
        let s = 86400 * c + r;
        assert(s / 86400 == c) by (nonlinear_arith)
            requires 0 <= r < 86400, 1 <= c, s == 86400 * c + r;
        assert(s / 60 >= 60 && s / 3600 >= 24) by (nonlinear_arith)
            requires 1 <= c, s == 86400 * c + r, 0 <= r;
    }
    if 1 <= c && 0 <= r < 604800 && 604800 * c + r <= i64::MAX {
        let s = 604800 * c + r;
        assert(s / 604800 == c) by (nonlinear_arith)
            requires 0 <= r < 604800, 1 <= c, s == 604800 * c + r;
        assert(s / 60 >= 60 && s / 3600 >= 24 && s / 86400 >= 7) by (nonlinear_arith)
            requires 1 <= c, s == 604800 * c + r, 0 <= r;
    }
}

fn count_and_suffix(n: u64, suffix: &str) -> (r: String)
    ensures
        r@ == decimal(n as nat) + suffix@,
{
    let mut s = String::new();
    let d = decimal_chars(n);
    push_chars(&mut s, &d);
    s.append(suffix);
    s
}

/// Writes the time elapsed since a transaction, as the table shows it.
pub fn relative_time_label(total_seconds: i64) -> (r: String)
    ensures
        r@ == relative_label(total_seconds),
{
    if total_seconds < 0 {
        return String::from_str("in the future");
    }
    let s = total_seconds as u64;
    if s < 60 {
        return count_and_suffix(s, "s ago");
    }
    let minutes = s / 60;
    if minutes < 60 {
        return count_and_suffix(minutes, "m ago");
    }
    let hours = minutes / 60;
    assert(hours == s / 3600) by (nonlinear_arith)
        requires minutes == s / 60, hours == minutes / 60;
    if hours < 24 {
        return count_and_suffix(hours, "h ago");
    }
    let days = hours / 24;
    assert(days == s / 86400) by (nonlinear_arith)
        requires hours == s / 3600, days == hours / 24;
    if days < 7 {
        return count_and_suffix(days, "d ago");
    }
    let weeks = days / 7;
    assert(weeks == s / 604800) by (nonlinear_arith)
        requires days == s / 86400, weeks == days / 7;
    count_and_suffix(weeks, "w ago")
}

/// Whether chrono reads the text as a UTC date and time
/// (`str::parse::<DateTime<Utc>>` succeeds).
pub uninterp spec fn parses_as_utc(s: Seq<char>) -> bool;

/// The latest clock reading, in seconds since the Unix epoch, for which the
/// elapsed time is worked out; chrono has a date for every second up to it.
pub const CLOCK_LIMIT_SECS: i64 = 8_000_000_000_000;

/// What chrono gives for the whole seconds from the instant the text
/// names to the instant `now_secs` seconds and `now_nanos` nanoseconds after
/// the Unix epoch, rounded toward zero; `None` where either has no date.
pub uninterp spec fn utc_seconds_between(text: Seq<char>, now_secs: i64, now_nanos: u32) -> Option<i64>;

/// `executed_at.parse::<DateTime<Utc>>()` and
/// `DateTime::from_timestamp(now_secs, now_nanos)`, then
/// `signed_duration_since` and `num_seconds`. The value is the named one;
/// it is missing where the text does not parse, and present where it parses
/// and the reading is a second from the epoch to [`CLOCK_LIMIT_SECS`] with
/// fewer than a billion nanoseconds.
#[verifier::external_body]
fn seconds_between(executed_at: &str, now_secs: i64, now_nanos: u32) -> (r: Option<i64>)
    ensures
        r == utc_seconds_between(executed_at@, now_secs, now_nanos),
        r is Some ==> parses_as_utc(executed_at@),
        parses_as_utc(executed_at@) && 0 <= now_secs <= CLOCK_LIMIT_SECS && now_nanos < 1_000_000_000 ==> r is Some,
{
    let t = match executed_at.parse::<chrono::DateTime<chrono::Utc>>() {
        Ok(t) => t,
        Err(_) => return None,
    };
    let now = chrono::DateTime::<chrono::Utc>::from_timestamp(now_secs, now_nanos)?;
    Some(now.signed_duration_since(t).num_seconds())
}

/// The seconds from the instant `executed_at` names to the clock reading
/// (`after` the epoch or not, `nanos` from it): none where the text does not
/// parse or the reading lies before the epoch or past [`CLOCK_LIMIT_SECS`].
pub open spec fn elapsed_at(executed_at: Seq<char>, after: bool, nanos: u128) -> Option<i64> {
    if after && nanos / 1_000_000_000 <= CLOCK_LIMIT_SECS {
        utc_seconds_between(executed_at, (nanos / 1_000_000_000) as i64, (nanos % 1_000_000_000) as u32)
    } else {
        None
    }
}

/// The seconds elapsed since `executed_at` for a clock reading.
pub fn elapsed_since(executed_at: &str, after: bool, nanos: u128) -> (r: Option<i64>)
    ensures
        r == elapsed_at(executed_at@, after, nanos),
        r is Some ==> parses_as_utc(executed_at@),
        after && nanos / 1_000_000_000 <= CLOCK_LIMIT_SECS && parses_as_utc(executed_at@) ==> r is Some,
{
    if after && nanos / 1_000_000_000 <= 8_000_000_000_000 {
        let secs = (nanos / 1_000_000_000) as i64;
        let sub = (nanos % 1_000_000_000) as u32;
        seconds_between(executed_at, secs, sub)
    } else {
        None
    }
}

/// The relative time shown for a transaction, given the seconds elapsed
/// since it (`None` where its time did not parse, and the text itself is
/// shown).
pub fn relative_time_text(executed_at: &str, elapsed: Option<i64>) -> (r: String)
    ensures
        match elapsed {
            None => r@ == executed_at@,
            Some(s) => r@ == relative_label(s),
        },
{
    match elapsed {
        None => String::from_str(executed_at),
        Some(s) => relative_time_label(s),
    }
}

/// How long ago a transaction ran, from its execution time as the server
/// writes it: a text that does not parse is shown as it is.
pub fn format_relative_time(executed_at: &str) -> (r: String)
    ensures
        !parses_as_utc(executed_at@) ==> r@ == executed_at@,
        exists|after: bool, nanos: u128| #[trigger] shown_at(executed_at@, after, nanos, r@),
{
    let (after, nanos) = clock_reading();
    let elapsed = elapsed_since(executed_at, after, nanos);
    let r = relative_time_text(executed_at, elapsed);
    assert(shown_at(executed_at@, after, nanos, r@));
    r
}

/// What is shown for a transaction at a clock reading: its relative time
/// where [`elapsed_at`] gives one, else the text itself.
pub open spec fn shown_at(executed_at: Seq<char>, after: bool, nanos: u128, shown: Seq<char>) -> bool {
    match elapsed_at(executed_at, after, nanos) {
        Some(s) => shown == relative_label(s),
        None => shown == executed_at,
    }
}

/// One line of the transaction table: four columns left-aligned in widths
/// 66, 12, 12 and 12, separated by one space.
pub open spec fn table_line(a: Seq<char>, b: Seq<char>, c: Seq<char>, d: Seq<char>) -> Seq<char> {
    pad_right(a, 66, ' ') + " "@ + pad_right(b, 12, ' ') + " "@ + pad_right(c, 12, ' ') + " "@ + pad_right(d, 12, ' ')
}

fn push_padded(s: &mut String, text: &str, width: usize)
    ensures
        final(s)@ == old(s)@ + pad_right(text@, width as nat, ' '),
{
    let p = pad_right_chars(&to_chars(text), width, ' ');
    push_chars(s, &p);
}

/// Writes one line of the transaction table.
pub fn format_table_line(a: &str, b: &str, c: &str, d: &str) -> (r: String)
    ensures
        r@ == table_line(a@, b@, c@, d@),
{
    let mut s = String::new();
    push_padded(&mut s, a, 66);
    s.append(" ");
    push_padded(&mut s, b, 12);
    s.append(" ");
    push_padded(&mut s, c, 12);
    s.append(" ");
    push_padded(&mut s, d, 12);
    assert(s@ =~= table_line(a@, b@, c@, d@));
    s
}

/// The rule under the table header: 110 box-drawing strokes.
pub open spec fn table_rule() -> Seq<char> {
    Seq::new(110, |_i: int| '─')
}

/// The lines of the transaction table: nothing for no transactions, else
/// the header, the rule and one line per transaction.
pub fn transactions_table_lines(transactions: &Vec<TransactionDisplay>) -> (r: Vec<String>)
    ensures
        transactions@.len() == 0 ==> r@.len() == 0,
        transactions@.len() > 0 ==> {
            &&& r@.len() == transactions@.len() + 2
            &&& r@[0]@ == table_line("Transaction Hash"@, "Executed"@, "Status"@, "USD Fee"@)
            &&& r@[1]@ == table_rule()
            &&& forall|i: int| 0 <= i < transactions@.len() ==> (#[trigger] r@[i + 2])@ == table_line(
                transactions@[i].transaction_hash@, transactions@[i].executed_at@,
                transactions@[i].status@, transactions@[i].usd_fee@)
        },
{
    let mut r: Vec<String> = Vec::new();
    if transactions.len() == 0 {
        return r;
    }
    r.push(format_table_line("Transaction Hash", "Executed", "Status", "USD Fee"));
    let mut rule = String::new();
    let strokes = repeat_char('─', 110);
    push_chars(&mut rule, &strokes);
    r.push(rule);
    for i in 0..transactions.len()
        invariant
            r@.len() == i + 2,
            r@[0]@ == table_line("Transaction Hash"@, "Executed"@, "Status"@, "USD Fee"@),
            r@[1]@ == table_rule(),
            forall|k: int| 0 <= k < i ==> (#[trigger] r@[k + 2])@ == table_line(
                transactions@[k].transaction_hash@, transactions@[k].executed_at@,
                transactions@[k].status@, transactions@[k].usd_fee@),
    {
        let t = &transactions[i];
        let line = format_table_line(t.transaction_hash.as_str(), t.executed_at.as_str(), t.status.as_str(), t.usd_fee.as_str());
        r.push(line);
        assert(r@[i + 2] == line);
    }
    r
}

} // verus!
