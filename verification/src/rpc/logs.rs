//! `rpc logs`: the page size of a log query and the log table.

use vstd::prelude::*;
use crate::paymaster::{cells, or_dash, or_dash_text};
use crate::paymaster::utils::{clock_reading, DURATION_NANOS_BOUND, duration_of, failure_message, parse_duration, DurationFailure, UnitTable};

verus! {

/// The options of `rpc logs`.
#[derive(Debug)]
pub struct LogsArgs {
    /// The team whose logs are listed.
    pub team: String,
    /// How many logs to fetch, between 1 and 50.
    pub limit: i64,
    /// The cursor after which the page starts.
    pub after: Option<String>,
    /// The look-back period, such as `5m`.
    pub since: Option<String>,
}

/// The largest page of logs.
pub const MAX_LOG_LIMIT: i64 = 50;

/// The page size actually asked for: the requested one brought into
/// 1 to 50.
pub open spec fn clamped_limit(limit: i64) -> i64 {
    if limit > 50 { 50 } else if limit < 1 { 1 } else { limit }
}

/// The page size asked for is the requested one where it lies between 1 and
/// the maximum, and otherwise the nearest end: it always lies in that
/// range, never moves past the request, grows with the request, and
/// clamping twice changes nothing more.
pub proof fn page_sizes_are_clamped(limit: i64, other: i64)
    ensures
        1 <= clamped_limit(limit) <= MAX_LOG_LIMIT,
        1 <= limit <= MAX_LOG_LIMIT ==> clamped_limit(limit) == limit,
        limit > MAX_LOG_LIMIT ==> clamped_limit(limit) == MAX_LOG_LIMIT,
        limit < 1 ==> clamped_limit(limit) == 1,
        limit <= other ==> clamped_limit(limit) <= clamped_limit(other),
        clamped_limit(clamped_limit(limit)) == clamped_limit(limit),
{
}

/// A requested page size brought into range, with the warning printed when
/// it had to be changed.
pub fn clamp_limit(limit: i64) -> (r: (i64, Option<&'static str>))
    ensures
        r.0 == clamped_limit(limit),
        limit > 50 ==> r.1 == Some("Warning: Limit exceeds maximum of 50. Using 50 instead."),
        limit < 1 ==> r.1 == Some("Warning: Limit must be at least 1. Using 1 instead."),
        1 <= limit <= 50 ==> r.1 is None,
{
    if limit > MAX_LOG_LIMIT {
        (MAX_LOG_LIMIT, Some("Warning: Limit exceeds maximum of 50. Using 50 instead."))
    } else if limit < 1 {
        (1, Some("Warning: Limit must be at least 1. Using 1 instead."))
    } else {
        (limit, None)
    }
}

/// One RPC log as the table shows it; numbers already written out.
#[derive(Debug)]
pub struct RpcLogLine {
    pub timestamp: String,
    pub network: String,
    pub method: Option<String>,
    pub response_status: String,
    pub duration_ms: String,
    pub response_size_bytes: String,
    pub cost_credits: String,
    pub api_key_id: Option<String>,
    pub cors_domain_id: Option<String>,
    pub client_ip: String,
}

/// The cells of a log's row; absent values read `-`.
pub open spec fn log_row(l: RpcLogLine) -> Seq<Seq<char>> {
    seq![l.timestamp@, l.network@, or_dash(l.method), l.response_status@, l.duration_ms@,
        l.response_size_bytes@, l.cost_credits@, or_dash(l.api_key_id), or_dash(l.cors_domain_id), l.client_ip@]
}

/// The cells of a log's row.
pub fn log_row_cells(l: &RpcLogLine) -> (r: Vec<String>)
    ensures
        cells(r) == log_row(*l),
{
    let mut r: Vec<String> = Vec::new();
    r.push(l.timestamp.clone());
    r.push(l.network.clone());
    r.push(or_dash_text(&l.method));
    r.push(l.response_status.clone());
    r.push(l.duration_ms.clone());
    r.push(l.response_size_bytes.clone());
    r.push(l.cost_credits.clone());
    r.push(or_dash_text(&l.api_key_id));
    r.push(or_dash_text(&l.cors_domain_id));
    r.push(l.client_ip.clone());
    assert(cells(r) =~= log_row(*l));
    r
}

/// The instant of a clock reading in nanoseconds from the Unix epoch: the
/// distance from the epoch, negated where the reading lies before it.
pub open spec fn clock_instant_nanos(after: bool, distance: u128) -> int {
    if after { distance as int } else { -(distance as int) }
}

/// A clock reading's instant is as far from the epoch as the reading says,
/// on the side it says: not after the epoch where the reading is before it,
/// not before it where the reading is after, and the epoch itself either way.
pub proof fn clock_instants_keep_distance_and_side(after: bool, distance: u128)
    ensures
        clock_instant_nanos(after, distance) == distance || clock_instant_nanos(after, distance) == -distance,
        after ==> clock_instant_nanos(after, distance) >= 0,
        !after ==> clock_instant_nanos(after, distance) <= 0,
        distance < DURATION_NANOS_BOUND ==> i128::MIN < clock_instant_nanos(after, distance) < i128::MAX,
        distance == 0 ==> clock_instant_nanos(after, distance) == 0,
{
}

/// The clock as signed nanoseconds from the Unix epoch, negative before it,
/// with the reading it was taken from.
fn unix_nanos_now() -> (r: (i128, Ghost<(bool, u128)>))
    ensures
        r.1@.1 < DURATION_NANOS_BOUND,
        r.0 == clock_instant_nanos(r.1@.0, r.1@.1),
{
    let (after, n) = clock_reading();
    let now: i128 = if after {
        n as i128
    } else {
        0 - (n as i128)
    };
    (now, Ghost((after, n)))
}

/// The widest instant, in milliseconds from the Unix epoch either way, that
/// a log bound is written for; chrono represents every instant within it
/// (its dates run past the year 262000 either way).
pub const LOG_BOUND_LIMIT_MS: i64 = 8_000_000_000_000_000;

/// What `DateTime::<Utc>::from_timestamp_millis(ms)` written with
/// `to_rfc3339_opts(SecondsFormat::Millis, true)` gives: the RFC 3339 text,
/// with milliseconds and a `Z`, of the instant `ms` milliseconds after the
/// Unix epoch.
pub uninterp spec fn utc_rfc3339_millis(ms: i64) -> Seq<char>;

/// `chrono::DateTime::<Utc>::from_timestamp_millis(ms)`, written by
/// `to_rfc3339_opts(SecondsFormat::Millis, true)`. The text is the named
/// one; how chrono writes it is not stated here. Instants outside
/// [`LOG_BOUND_LIMIT_MS`], where chrono may have no date, are left out.
#[verifier::external_body]
fn rfc3339_millis_of(ms: i64) -> (r: String)
    requires
        -LOG_BOUND_LIMIT_MS <= ms <= LOG_BOUND_LIMIT_MS,
    ensures
        r@ == utc_rfc3339_millis(ms),
{
    chrono::DateTime::<chrono::Utc>::from_timestamp_millis(ms).unwrap().to_rfc3339_opts(chrono::SecondsFormat::Millis, true)
}

/// The error when the start of the period cannot be computed.
pub open spec fn overflow_message() -> Seq<char> {
    "Time calculation overflow"@
}

/// The lower bound of a log query `secs` seconds before the clock reading
/// `now_ns` (nanoseconds from the Unix epoch): the instant, taken down to
/// the millisecond, in RFC 3339; an error where it is out of range.
pub open spec fn log_start(now_ns: i128, secs: u64) -> Result<Seq<char>, Seq<char>> {
    let ms = (now_ns - secs * 1_000_000_000) / 1_000_000;
    if -LOG_BOUND_LIMIT_MS <= ms <= LOG_BOUND_LIMIT_MS {
        Ok(utc_rfc3339_millis(ms as i64))
    } else {
        Err(overflow_message())
    }
}

/// The result is what [`log_start`] gives for the clock reading.
pub open spec fn gives_log_start(now_ns: i128, secs: u64, r: Result<String, String>) -> bool {
    match r {
        Ok(t) => log_start(now_ns, secs) == Ok::<Seq<char>, Seq<char>>(t@),
        Err(m) => log_start(now_ns, secs) == Err::<Seq<char>, Seq<char>>(m@),
    }
}

/// The lower bound of a log query `secs` seconds before the clock reading
/// `now_ns`.
pub fn log_start_text(now_ns: i128, secs: u64) -> (r: Result<String, String>)
    ensures
        gives_log_start(now_ns, secs, r),
{
    let back: i128 = secs as i128 * 1_000_000_000;
    if now_ns < -100_000_000_000_000_000_000_000_000_000i128 {
        assert((now_ns - secs * 1_000_000_000) / 1_000_000 < -LOG_BOUND_LIMIT_MS) by (nonlinear_arith)
            requires now_ns < -100_000_000_000_000_000_000_000_000_000i128, secs >= 0;
        return Err(String::from_str("Time calculation overflow"));
    }
    let start: i128 = now_ns - back;
    let ms: i128 = if start >= 0 {
        let q = (start as u128) / 1_000_000;
        assert(q == start / 1_000_000);
        q as i128
    } else {
        let a: u128 = (0 - start) as u128;
        let q: u128 = (a + 999_999) / 1_000_000;
        assert(start / 1_000_000 == -(q as int)) by (nonlinear_arith)
            requires a == -start, q == (a + 999_999) / 1_000_000, start < 0;
        0 - (q as i128)
    };
    if ms < -8_000_000_000_000_000 || ms > 8_000_000_000_000_000 {
        Err(String::from_str("Time calculation overflow"))
    } else {
        Ok(rfc3339_millis_of(ms as i64))
    }
}

impl LogsArgs {
    /// The lower time bound of the query: none without a period; else the
    /// period is parsed (its error is the command's error) and the bound is
    /// [`log_start`] of the period, for the clock read once.
    pub fn timestamp_bound(&self) -> (r: Result<Option<String>, String>)
        ensures
            is_log_bound(self.since, r),
    {
        match &self.since {
            None => Ok(None),
            Some(s) => match parse_duration(s.as_str()) {
                Err(e) => Err(e.message()),
                Ok(secs) => {
                    let (now, reading) = unix_nanos_now();
                    let r = match log_start_text(now, secs) {
                        Ok(t) => Ok(Some(t)),
                        Err(m) => Err(m),
                    };
                    assert(gives_log_bound(clock_instant_nanos(reading@.0, reading@.1) as i128, secs, r));
                    assert(duration_of(s@, UnitTable::Full) == Ok::<u64, DurationFailure>(secs));
                    assert(self.since == Some(*s));
                    assert(duration_of(self.since->0@, UnitTable::Full)->Ok_0 == secs);
                    assert(is_log_bound(self.since, r));
                    r
                },
            },
        }
    }
}

/// What the query's lower time bound is: none without a period; the
/// period's parse error; or [`log_start`] of the period at the instant of
/// some clock reading (a side of the epoch and a distance from it).
pub open spec fn is_log_bound(since: Option<String>, r: Result<Option<String>, String>) -> bool {
    match since {
        None => r == Ok::<Option<String>, String>(None),
        Some(s) => match duration_of(s@, UnitTable::Full) {
            Err(f) => r matches Err(m) && m@ == failure_message(f),
            Ok(secs) => exists|after: bool, distance: u128|
                distance < DURATION_NANOS_BOUND && #[trigger] gives_log_bound(
                    clock_instant_nanos(after, distance) as i128,
                    secs,
                    r,
                ),
        },
    }
}

/// The query's bound is [`log_start`] for the clock reading.
pub open spec fn gives_log_bound(now_ns: i128, secs: u64, r: Result<Option<String>, String>) -> bool {
    match r {
        Ok(Some(t)) => log_start(now_ns, secs) == Ok::<Seq<char>, Seq<char>>(t@),
        Ok(None) => false,
        Err(m) => log_start(now_ns, secs) == Err::<Seq<char>, Seq<char>>(m@),
    }
}

/// The hint printed under a page of logs: where the server has another
/// page and gives its cursor, how to ask for it.
pub fn pagination_hint(has_next_page: bool, end_cursor: &Option<String>) -> (r: Option<String>)
    ensures
        (has_next_page && end_cursor is Some) ==> (r matches Some(h)
            && h@ == "\nMore logs available. Use --after "@ + end_cursor->0@ + " to see next page"@),
        !(has_next_page && end_cursor is Some) ==> r is None,
{
    match end_cursor {
        Some(c) => if has_next_page {
            Some(String::from_str("\nMore logs available. Use --after ").concat(c.as_str()).concat(" to see next page"))
        } else {
            None
        },
        None => None,
    }
}

} // verus!
