//! Look-back periods such as `24hr` or `1week`, as the paymaster, RPC log and
//! statistics commands accept them, and the instant such a period starts at.

use vstd::prelude::*;
use crate::text::{
    ascii_lower, ascii_lower_char, ascii_upper, ascii_upper_char, is_ascii_letter, is_ascii_text, lowercase, eq_chars, from_chars, is_alphabetic, parse_u64_chars, parse_u64_spec, sub_chars, to_chars,
    unicode_alphabetic, unicode_lowercase, decimal, decimal_reads_back, all_ascii_digits, is_ascii_digit,
};

verus! {

/// One week in seconds: the longest period that is accepted.
pub const WEEK_SECONDS: u64 = 604800;

/// The set of unit names that a command accepts.
#[derive(Clone, Copy, PartialEq, Eq, Structural, Debug)]
pub enum UnitTable {
    /// `s`, `m`, `h`, `d` and `w` with their long forms (the shared parser).
    Full,
    /// `min`, `hr`, `day` and `week` with their long forms (`paymaster stats`).
    Stats,
}

/// Why a period was refused.
#[derive(Debug)]
pub enum DurationError {
    /// No unit letter at all; carries the lower-cased input.
    InvalidFormat(String),
    /// The part before the unit is not a number; carries that part.
    InvalidNumber(String),
    /// The unit is not one of the table's names; carries the unit.
    InvalidUnit(String, UnitTable),
    /// More than one week was asked for with the week unit.
    WeekLimit,
    /// The period is longer than one week.
    ExceedsWeek,
    /// The period is zero.
    Zero,
}

/// The value of a [`DurationError`].
pub enum DurationFailure {
    InvalidFormat(Seq<char>),
    InvalidNumber(Seq<char>),
    InvalidUnit(Seq<char>, UnitTable),
    WeekLimit,
    ExceedsWeek,
    Zero,
}

impl View for DurationError {
    type V = DurationFailure;

    open spec fn view(&self) -> DurationFailure {
        match self {
            DurationError::InvalidFormat(s) => DurationFailure::InvalidFormat(s@),
            DurationError::InvalidNumber(s) => DurationFailure::InvalidNumber(s@),
            DurationError::InvalidUnit(s, t) => DurationFailure::InvalidUnit(s@, *t),
            DurationError::WeekLimit => DurationFailure::WeekLimit,
            DurationError::ExceedsWeek => DurationFailure::ExceedsWeek,
            DurationError::Zero => DurationFailure::Zero,
        }
    }
}

/// A parse result with its error taken by value.
pub open spec fn outcome_view(r: Result<u64, DurationError>) -> Result<u64, DurationFailure> {
    match r {
        Ok(n) => Ok(n),
        Err(e) => Err(e@),
    }
}

/// Seconds in one unit of the named unit, if the table knows the name.
pub open spec fn unit_seconds(unit: Seq<char>, table: UnitTable) -> Option<u64> {
    match table {
        UnitTable::Full => {
            if unit == "s"@ || unit == "sec"@ || unit == "secs"@ || unit == "second"@ || unit == "seconds"@ {
                Some(1)
            } else if unit == "m"@ || unit == "min"@ || unit == "mins"@ || unit == "minute"@ || unit == "minutes"@ {
                Some(60)
            } else if unit == "h"@ || unit == "hr"@ || unit == "hrs"@ || unit == "hour"@ || unit == "hours"@ {
                Some(3600)
            } else if unit == "d"@ || unit == "day"@ || unit == "days"@ {
                Some(86400)
            } else if unit == "w"@ || unit == "week"@ || unit == "weeks"@ {
                Some(WEEK_SECONDS)
            } else {
                None
            }
        },
        UnitTable::Stats => {
            if unit == "min"@ || unit == "mins"@ || unit == "minute"@ || unit == "minutes"@ {
                Some(60)
            } else if unit == "hr"@ || unit == "hrs"@ || unit == "hour"@ || unit == "hours"@ {
                Some(3600)
            } else if unit == "day"@ || unit == "days"@ {
                Some(86400)
            } else if unit == "week"@ || unit == "weeks"@ {
                Some(WEEK_SECONDS)
            } else {
                None
            }
        },
    }
}

/// Index of the first alphabetic character at or after `i`.
pub open spec fn first_alphabetic_from(s: Seq<char>, i: int) -> Option<int>
    decreases s.len() - i,
{
    if i < 0 || i >= s.len() {
        None
    } else if unicode_alphabetic(s[i]) {
        Some(i)
    } else {
        first_alphabetic_from(s, i + 1)
    }
}

/// Index of the first ASCII letter at or after `i`.
pub open spec fn first_ascii_letter_from(s: Seq<char>, i: int) -> Option<int>
    decreases s.len() - i,
{
    if i < 0 || i >= s.len() {
        None
    } else if is_ascii_letter(s[i]) {
        Some(i)
    } else {
        first_ascii_letter_from(s, i + 1)
    }
}

/// The period that a lower-cased input denotes when its unit starts at
/// `start`: the number is everything before, the unit everything from there
/// on. Without a start the input is malformed.
pub open spec fn split_period(lower: Seq<char>, start: Option<int>, table: UnitTable) -> Result<u64, DurationFailure> {
    match start {
        None => Err(DurationFailure::InvalidFormat(lower)),
        Some(p) => {
            let number = lower.take(p);
            let unit = lower.skip(p);
            match parse_u64_spec(number) {
                None => Err(DurationFailure::InvalidNumber(number)),
                Some(n) => match unit_seconds(unit, table) {
                    None => Err(DurationFailure::InvalidUnit(unit, table)),
                    Some(f) => {
                        if f == WEEK_SECONDS && n > 1 {
                            Err(DurationFailure::WeekLimit)
                        } else if n * f > WEEK_SECONDS {
                            Err(DurationFailure::ExceedsWeek)
                        } else if n * f == 0 {
                            Err(DurationFailure::Zero)
                        } else {
                            Ok((n * f) as u64)
                        }
                    },
                },
            }
        },
    }
}

/// The period that a lower-cased input denotes, in seconds, or why it is
/// refused. The number is everything before the first alphabetic character,
/// the unit everything from it on.
pub open spec fn lower_duration(lower: Seq<char>, table: UnitTable) -> Result<u64, DurationFailure> {
    split_period(lower, first_alphabetic_from(lower, 0), table)
}

/// The period that an input denotes: it is lower-cased first.
pub open spec fn duration_of(s: Seq<char>, table: UnitTable) -> Result<u64, DurationFailure> {
    lower_duration(unicode_lowercase(s), table)
}

/// Seconds per unit, looked up in the table.
pub fn unit_factor(unit: &Vec<char>, table: UnitTable) -> (r: Option<u64>)
    ensures
        r == unit_seconds(unit@, table),
{
    match table {
        UnitTable::Full => {
            if eq_chars(unit, &to_chars("s")) || eq_chars(unit, &to_chars("sec"))
                || eq_chars(unit, &to_chars("secs")) || eq_chars(unit, &to_chars("second"))
                || eq_chars(unit, &to_chars("seconds")) {
                Some(1)
            } else if eq_chars(unit, &to_chars("m")) || eq_chars(unit, &to_chars("min"))
                || eq_chars(unit, &to_chars("mins")) || eq_chars(unit, &to_chars("minute"))
                || eq_chars(unit, &to_chars("minutes")) {
                Some(60)
            } else if eq_chars(unit, &to_chars("h")) || eq_chars(unit, &to_chars("hr"))
                || eq_chars(unit, &to_chars("hrs")) || eq_chars(unit, &to_chars("hour"))
                || eq_chars(unit, &to_chars("hours")) {
                Some(3600)
            } else if eq_chars(unit, &to_chars("d")) || eq_chars(unit, &to_chars("day"))
                || eq_chars(unit, &to_chars("days")) {
                Some(86400)
            } else if eq_chars(unit, &to_chars("w")) || eq_chars(unit, &to_chars("week"))
                || eq_chars(unit, &to_chars("weeks")) {
                Some(WEEK_SECONDS)
            } else {
                None
            }
        },
        UnitTable::Stats => {
            if eq_chars(unit, &to_chars("min")) || eq_chars(unit, &to_chars("mins"))
                || eq_chars(unit, &to_chars("minute")) || eq_chars(unit, &to_chars("minutes")) {
                Some(60)
            } else if eq_chars(unit, &to_chars("hr")) || eq_chars(unit, &to_chars("hrs"))
                || eq_chars(unit, &to_chars("hour")) || eq_chars(unit, &to_chars("hours")) {
                Some(3600)
            } else if eq_chars(unit, &to_chars("day")) || eq_chars(unit, &to_chars("days")) {
                Some(86400)
            } else if eq_chars(unit, &to_chars("week")) || eq_chars(unit, &to_chars("weeks")) {
                Some(WEEK_SECONDS)
            } else {
                None
            }
        },
    }
}

/// Index of the first alphabetic character.
fn find_alphabetic(v: &Vec<char>) -> (r: Option<usize>)
    ensures
        match r {
            Some(p) => p < v.len() && first_alphabetic_from(v@, 0) == Some(p as int),
            None => first_alphabetic_from(v@, 0) is None,
        },
        is_ascii_text(v@) ==> first_alphabetic_from(v@, 0) == first_ascii_letter_from(v@, 0),
{
    let mut i: usize = 0;
    while i < v.len()
        invariant
            i <= v.len(),
            first_alphabetic_from(v@, 0) == first_alphabetic_from(v@, i as int),
            is_ascii_text(v@) ==> first_ascii_letter_from(v@, 0) == first_ascii_letter_from(v@, i as int),
        decreases v.len() - i,
    {
        let c = v[i];
        if is_alphabetic(c) {
            proof {
                if is_ascii_text(v@) {
                    assert((v@[i as int] as u32) < 128);
                }
            }
            return Some(i);
        }
        proof {
            if is_ascii_text(v@) {
                assert((v@[i as int] as u32) < 128);
            }
        }
        i = i + 1;
    }
    None
}

/// Parses a lower-cased period. A number times its unit that passes 64
/// bits is longer than a week and refused as such.
pub fn parse_lower_duration(lower: &Vec<char>, table: UnitTable) -> (r: Result<u64, DurationError>)
    ensures
        outcome_view(r) == lower_duration(lower@, table),
        is_ascii_text(lower@) ==> outcome_view(r) == split_period(lower@, first_ascii_letter_from(lower@, 0), table),
{
    match find_alphabetic(lower) {
        None => Err(DurationError::InvalidFormat(from_chars(lower))),
        Some(p) => {
            let number = sub_chars(lower, 0, p);
            let unit = sub_chars(lower, p, lower.len());
            assert(number@ == lower@.take(p as int));
            assert(unit@ == lower@.skip(p as int));
            match parse_u64_chars(&number) {
                None => Err(DurationError::InvalidNumber(from_chars(&number))),
                Some(n) => match unit_factor(&unit, table) {
                    None => Err(DurationError::InvalidUnit(from_chars(&unit), table)),
                    Some(f) => {
                        if f == WEEK_SECONDS {
                            assert(n <= 1 ==> n * f == n * WEEK_SECONDS) by (nonlinear_arith)
                                requires f == WEEK_SECONDS;
                            if n > 1 {
                                Err(DurationError::WeekLimit)
                            } else if n == 0 {
                                Err(DurationError::Zero)
                            } else {
                                Ok(WEEK_SECONDS)
                            }
                        } else {
                            match n.checked_mul(f) {
                                None => Err(DurationError::ExceedsWeek),
                                Some(total) => {
                                    if total > WEEK_SECONDS {
                                        Err(DurationError::ExceedsWeek)
                                    } else if total == 0 {
                                        Err(DurationError::Zero)
                                    } else {
                                        Ok(total)
                                    }
                                },
                            }
                        }
                    },
                },
            }
        },
    }
}

/// The message that the command prints for a refused period.
pub open spec fn failure_message(f: DurationFailure) -> Seq<char> {
    match f {
        DurationFailure::InvalidFormat(s) => "Invalid duration format: "@ + s,
        DurationFailure::InvalidNumber(s) => "Invalid number in duration: "@ + s,
        DurationFailure::InvalidUnit(u, UnitTable::Full) =>
            "Invalid time unit: "@ + u + ". Supported units: s, m, h, d, w"@,
        DurationFailure::InvalidUnit(u, UnitTable::Stats) =>
            "Invalid time unit: "@ + u + ". Supported units: min, hr, day, week"@,
        DurationFailure::WeekLimit => "Maximum duration is 1 week"@,
        DurationFailure::ExceedsWeek => "Duration exceeds maximum of 1 week"@,
        DurationFailure::Zero => "Duration must be greater than 0"@,
    }
}

impl DurationError {
    /// The message that the command prints for this error.
    pub fn message(&self) -> (r: String)
        ensures
            r@ == failure_message(self@),
    {
        match self {
            DurationError::InvalidFormat(s) => String::from_str("Invalid duration format: ").concat(s.as_str()),
            DurationError::InvalidNumber(s) => String::from_str("Invalid number in duration: ").concat(s.as_str()),
            DurationError::InvalidUnit(u, UnitTable::Full) => String::from_str("Invalid time unit: ")
                .concat(u.as_str()).concat(". Supported units: s, m, h, d, w"),
            DurationError::InvalidUnit(u, UnitTable::Stats) => String::from_str("Invalid time unit: ")
                .concat(u.as_str()).concat(". Supported units: min, hr, day, week"),
            DurationError::WeekLimit => String::from_str("Maximum duration is 1 week"),
            DurationError::ExceedsWeek => String::from_str("Duration exceeds maximum of 1 week"),
            DurationError::Zero => String::from_str("Duration must be greater than 0"),
        }
    }
}

/// Every accepted period lies between one second and one week.
pub proof fn accepted_periods_are_within_a_week(lower: Seq<char>, table: UnitTable)
    ensures
        lower_duration(lower, table) matches Ok(secs) ==> 0 < secs <= WEEK_SECONDS,
{
}

/// Parses a look-back period as `paymaster transactions`, `paymaster dune` and
/// `rpc logs` accept it, into seconds: a number followed by one of `s`, `m`,
/// `h`, `d`, `w` (or `sec`, `min`, `hr`, `day`, `week` and their plurals), in
/// any letter case, of at most one week and more than zero.
pub fn parse_duration(duration_str: &str) -> (r: Result<u64, DurationError>)
    ensures
        outcome_view(r) == duration_of(duration_str@, UnitTable::Full),
        is_ascii_text(duration_str@) ==> outcome_view(r) == ascii_duration(duration_str@, UnitTable::Full),
        r matches Ok(secs) ==> 0 < secs <= WEEK_SECONDS,
{
    let lower = to_chars(lowercase(duration_str).as_str());
    proof {
        accepted_periods_are_within_a_week(lower@, UnitTable::Full);
        ascii_case_folds_together(duration_str@);
    }
    parse_lower_duration(&lower, UnitTable::Full)
}

/// The period that an ASCII input denotes: its lower-cased form is its
/// ASCII lower-casing.
pub open spec fn ascii_duration(s: Seq<char>, table: UnitTable) -> Result<u64, DurationFailure> {
    let lower = ascii_lower(s);
    split_period(lower, first_ascii_letter_from(lower, 0), table)
}

/// Upper-casing or lower-casing an input first changes nothing of its
/// lower-cased form.
pub proof fn ascii_case_folds_together(s: Seq<char>)
    ensures
        ascii_lower(ascii_upper(s)) == ascii_lower(s),
        ascii_lower(ascii_lower(s)) == ascii_lower(s),
        is_ascii_text(s) ==> is_ascii_text(ascii_upper(s)) && is_ascii_text(ascii_lower(s)),
{
    assert forall|i: int| 0 <= i < s.len() implies #[trigger] ascii_lower(ascii_upper(s))[i] == ascii_lower(s)[i] by {
        let c = s[i];
        if 'a' <= c && c <= 'z' {
            assert(ascii_upper_char(c) as u32 == (c as u32) - 32);
        }
    }
    assert(ascii_lower(ascii_upper(s)) =~= ascii_lower(s));
    assert forall|i: int| 0 <= i < s.len() implies #[trigger] ascii_lower(ascii_lower(s))[i] == ascii_lower(s)[i] by {
        let c = s[i];
        if 'A' <= c && c <= 'Z' {
            assert(ascii_lower_char(c) as u32 == (c as u32) + 32);
        }
    }
    assert(ascii_lower(ascii_lower(s)) =~= ascii_lower(s));
    if is_ascii_text(s) {
        assert forall|i: int| 0 <= i < s.len() implies (#[trigger] ascii_upper(s)[i] as u32) < 128 by {
            assert((s[i] as u32) < 128);
        }
        assert forall|i: int| 0 <= i < s.len() implies (#[trigger] ascii_lower(s)[i] as u32) < 128 by {
            assert((s[i] as u32) < 128);
        }
    }
}

/// Letter case does not matter: an ASCII period, its upper-cased form and
/// its lower-cased form are read alike, to the same seconds or the same
/// refusal.
pub proof fn periods_ignore_ascii_case(s: Seq<char>, table: UnitTable)
    ensures
        ascii_duration(ascii_upper(s), table) == ascii_duration(s, table),
        ascii_duration(ascii_lower(s), table) == ascii_duration(s, table),
{
    ascii_case_folds_together(s);
}

/// In a number without letters followed by a unit that starts with a
/// letter, the unit starts right after the number.
proof fn lemma_unit_follows_number(number: Seq<char>, unit: Seq<char>, i: int)
    requires
        forall|j: int| 0 <= j < number.len() ==> !is_ascii_letter(#[trigger] number[j]),
        unit.len() > 0,
        is_ascii_letter(unit[0]),
        0 <= i <= number.len(),
    ensures
        first_ascii_letter_from(number + unit, i) == Some(number.len() as int),
    decreases number.len() - i,
{
    if i < number.len() {
        assert(!is_ascii_letter((number + unit)[i]));
        lemma_unit_follows_number(number, unit, i + 1);
    } else {
        assert((number + unit)[i] == unit[0]);
    }
}

/// The spelling of a unit does not matter: a number followed by any two
/// names of the same unit, in any letter case (`h`, `HR`, `hours`), reads
/// alike.
pub proof fn unit_spellings_read_alike(number: Seq<char>, a: Seq<char>, b: Seq<char>, table: UnitTable)
    requires
        forall|i: int| 0 <= i < number.len() ==> !is_ascii_letter(#[trigger] number[i]),
        a.len() > 0,
        is_ascii_letter(a[0]),
        b.len() > 0,
        is_ascii_letter(b[0]),
        unit_seconds(ascii_lower(a), table) is Some,
        unit_seconds(ascii_lower(a), table) == unit_seconds(ascii_lower(b), table),
    ensures
        ascii_duration(number + a, table) == ascii_duration(number + b, table),
{
    let ln = ascii_lower(number);
    let la = ascii_lower(a);
    let lb = ascii_lower(b);
    assert(ascii_lower(number + a) =~= ln + la);
    assert(ascii_lower(number + b) =~= ln + lb);
    assert forall|i: int| 0 <= i < ln.len() implies !is_ascii_letter(#[trigger] ln[i]) by {
        assert(!is_ascii_letter(number[i]));
    }
    assert(is_ascii_letter(la[0])) by {
        if 'A' <= a[0] && a[0] <= 'Z' {
            assert(ascii_lower_char(a[0]) as u32 == (a[0] as u32) + 32);
        }
    }
    assert(is_ascii_letter(lb[0])) by {
        if 'A' <= b[0] && b[0] <= 'Z' {
            assert(ascii_lower_char(b[0]) as u32 == (b[0] as u32) + 32);
        }
    }
    lemma_unit_follows_number(ln, la, 0);
    lemma_unit_follows_number(ln, lb, 0);
    assert((ln + la).take(ln.len() as int) =~= ln);
    assert((ln + lb).take(ln.len() as int) =~= ln);
    assert((ln + la).skip(ln.len() as int) =~= la);
    assert((ln + lb).skip(ln.len() as int) =~= lb);
}

/// In a number without alphabetic characters followed by a unit that
/// starts with one, the unit starts right after the number.
proof fn lemma_alphabetic_unit_follows_number(number: Seq<char>, unit: Seq<char>, i: int)
    requires
        forall|j: int| 0 <= j < number.len() ==> !unicode_alphabetic(#[trigger] number[j]),
        unit.len() > 0,
        unicode_alphabetic(unit[0]),
        0 <= i <= number.len(),
    ensures
        first_alphabetic_from(number + unit, i) == Some(number.len() as int),
    decreases number.len() - i,
{
    if i < number.len() {
        assert(!unicode_alphabetic((number + unit)[i]));
        lemma_alphabetic_unit_follows_number(number, unit, i + 1);
    } else {
        assert((number + unit)[i] == unit[0]);
    }
}

/// The spelling of a unit does not matter in lower-cased text of any
/// script: a number part without alphabetic characters followed by any two
/// names of the same unit reads alike. (Where the number part holds a
/// letter, the unit is read from that letter on, and the law does not hold:
/// `1min` followed by `s` reads as one minute, followed by `sec` it is
/// refused.)
pub proof fn lowered_unit_spellings_read_alike(number: Seq<char>, a: Seq<char>, b: Seq<char>, table: UnitTable)
    requires
        a.len() > 0,
        b.len() > 0,
        unit_seconds(a, table) is Some,
        unit_seconds(a, table) == unit_seconds(b, table),
    ensures
        (forall|i: int| 0 <= i < number.len() ==> !unicode_alphabetic(#[trigger] number[i]))
            && unicode_alphabetic(a[0]) && unicode_alphabetic(b[0])
            ==> lower_duration(number + a, table) == lower_duration(number + b, table),
{
    if (forall|i: int| 0 <= i < number.len() ==> !unicode_alphabetic(#[trigger] number[i]))
        && unicode_alphabetic(a[0]) && unicode_alphabetic(b[0]) {
        lemma_alphabetic_unit_follows_number(number, a, 0);
        lemma_alphabetic_unit_follows_number(number, b, 0);
        assert((number + a).take(number.len() as int) =~= number);
        assert((number + b).take(number.len() as int) =~= number);
        assert((number + a).skip(number.len() as int) =~= a);
        assert((number + b).skip(number.len() as int) =~= b);
    }
}

/// A number written in decimal followed by a lower-case unit name is read
/// as that number of that unit.
proof fn lemma_number_then_unit(n: u64, u: Seq<char>, table: UnitTable)
    requires
        u.len() > 0,
        forall|i: int| 0 <= i < u.len() ==> 'a' <= #[trigger] u[i] && u[i] <= 'z',
    ensures
        ascii_duration(decimal(n as nat) + u, table) == match unit_seconds(u, table) {
            None => Err(DurationFailure::InvalidUnit(u, table)),
            Some(f) => if f == WEEK_SECONDS && n > 1 {
                Err(DurationFailure::WeekLimit)
            } else if n * f > WEEK_SECONDS {
                Err(DurationFailure::ExceedsWeek)
            } else if n * f == 0 {
                Err(DurationFailure::Zero)
            } else {
                Ok((n * f) as u64)
            },
        },
{
    let d = decimal(n as nat);
    decimal_reads_back(n as nat);
    assert(parse_u64_spec(d) == Some(n)) by {
        assert(is_ascii_digit(d[0]));
    }
    let t = d + u;
    assert(ascii_lower(t) =~= t) by {
        assert forall|i: int| 0 <= i < t.len() implies #[trigger] ascii_lower(t)[i] == t[i] by {
            if i < d.len() {
                assert(is_ascii_digit(d[i]));
            } else {
                assert('a' <= u[i - d.len()]);
            }
        }
    }
    assert forall|j: int| 0 <= j < d.len() implies !is_ascii_letter(#[trigger] d[j]) by {
        assert(is_ascii_digit(d[j]));
    }
    assert(is_ascii_letter(u[0])) by {
        assert('a' <= u[0] && u[0] <= 'z');
    }
    lemma_unit_follows_number(d, u, 0);
    assert(t.take(d.len() as int) =~= d);
    assert(t.skip(d.len() as int) =~= u);
}

proof fn lemma_seconds_names(n: u64, table: UnitTable)
    requires
        table == UnitTable::Full,
    ensures
        unit_seconds("s"@, table) == Some(1u64),
        ascii_duration(decimal(n as nat) + "s"@, table) == ascii_duration(decimal(n as nat) + "s"@, table),
        unit_seconds("sec"@, table) == Some(1u64),
        ascii_duration(decimal(n as nat) + "sec"@, table) == ascii_duration(decimal(n as nat) + "s"@, table),
        unit_seconds("secs"@, table) == Some(1u64),
        ascii_duration(decimal(n as nat) + "secs"@, table) == ascii_duration(decimal(n as nat) + "s"@, table),
        unit_seconds("second"@, table) == Some(1u64),
        ascii_duration(decimal(n as nat) + "second"@, table) == ascii_duration(decimal(n as nat) + "s"@, table),
        unit_seconds("seconds"@, table) == Some(1u64),
        ascii_duration(decimal(n as nat) + "seconds"@, table) == ascii_duration(decimal(n as nat) + "s"@, table),
        0 < n <= WEEK_SECONDS ==> ascii_duration(decimal(n as nat) + "s"@, table) == Ok::<u64, DurationFailure>(n),
        0 < n <= WEEK_SECONDS ==> ascii_duration(decimal(n as nat) + "sec"@, table) == Ok::<u64, DurationFailure>(n),
        0 < n <= WEEK_SECONDS ==> ascii_duration(decimal(n as nat) + "secs"@, table) == Ok::<u64, DurationFailure>(n),
        0 < n <= WEEK_SECONDS ==> ascii_duration(decimal(n as nat) + "second"@, table) == Ok::<u64, DurationFailure>(n),
        0 < n <= WEEK_SECONDS ==> ascii_duration(decimal(n as nat) + "seconds"@, table) == Ok::<u64, DurationFailure>(n),
        n == 0 ==> ascii_duration(decimal(n as nat) + "s"@, table) == Err::<u64, DurationFailure>(DurationFailure::Zero),
        n * 1 > WEEK_SECONDS ==> ascii_duration(decimal(n as nat) + "s"@, table) == Err::<u64, DurationFailure>(DurationFailure::ExceedsWeek),
        n == 0 ==> ascii_duration(decimal(n as nat) + "sec"@, table) == Err::<u64, DurationFailure>(DurationFailure::Zero),
        n * 1 > WEEK_SECONDS ==> ascii_duration(decimal(n as nat) + "sec"@, table) == Err::<u64, DurationFailure>(DurationFailure::ExceedsWeek),
        n == 0 ==> ascii_duration(decimal(n as nat) + "secs"@, table) == Err::<u64, DurationFailure>(DurationFailure::Zero),
        n * 1 > WEEK_SECONDS ==> ascii_duration(decimal(n as nat) + "secs"@, table) == Err::<u64, DurationFailure>(DurationFailure::ExceedsWeek),
        n == 0 ==> ascii_duration(decimal(n as nat) + "second"@, table) == Err::<u64, DurationFailure>(DurationFailure::Zero),
        n * 1 > WEEK_SECONDS ==> ascii_duration(decimal(n as nat) + "second"@, table) == Err::<u64, DurationFailure>(DurationFailure::ExceedsWeek),
        n == 0 ==> ascii_duration(decimal(n as nat) + "seconds"@, table) == Err::<u64, DurationFailure>(DurationFailure::Zero),
        n * 1 > WEEK_SECONDS ==> ascii_duration(decimal(n as nat) + "seconds"@, table) == Err::<u64, DurationFailure>(DurationFailure::ExceedsWeek),
{
    reveal_strlit("s");
    reveal_strlit("sec");
    reveal_strlit("secs");
    reveal_strlit("second");
    reveal_strlit("seconds");
    lemma_number_then_unit(n, "s"@, table);
    lemma_number_then_unit(n, "sec"@, table);
    lemma_number_then_unit(n, "secs"@, table);
    lemma_number_then_unit(n, "second"@, table);
    lemma_number_then_unit(n, "seconds"@, table);
}

proof fn lemma_minutes_names(n: u64, table: UnitTable)
    requires
        table == UnitTable::Full,
    ensures
        unit_seconds("m"@, table) == Some(60u64),
        ascii_duration(decimal(n as nat) + "m"@, table) == ascii_duration(decimal(n as nat) + "m"@, table),
        unit_seconds("min"@, table) == Some(60u64),
        ascii_duration(decimal(n as nat) + "min"@, table) == ascii_duration(decimal(n as nat) + "m"@, table),
        unit_seconds("mins"@, table) == Some(60u64),
        ascii_duration(decimal(n as nat) + "mins"@, table) == ascii_duration(decimal(n as nat) + "m"@, table),
        unit_seconds("minute"@, table) == Some(60u64),
        ascii_duration(decimal(n as nat) + "minute"@, table) == ascii_duration(decimal(n as nat) + "m"@, table),
        unit_seconds("minutes"@, table) == Some(60u64),
        ascii_duration(decimal(n as nat) + "minutes"@, table) == ascii_duration(decimal(n as nat) + "m"@, table),
        0 < n && n * 60 <= WEEK_SECONDS ==> ascii_duration(decimal(n as nat) + "m"@, table) == Ok::<u64, DurationFailure>((n * 60) as u64),
        0 < n && n * 60 <= WEEK_SECONDS ==> ascii_duration(decimal(n as nat) + "min"@, table) == Ok::<u64, DurationFailure>((n * 60) as u64),
        0 < n && n * 60 <= WEEK_SECONDS ==> ascii_duration(decimal(n as nat) + "mins"@, table) == Ok::<u64, DurationFailure>((n * 60) as u64),
        0 < n && n * 60 <= WEEK_SECONDS ==> ascii_duration(decimal(n as nat) + "minute"@, table) == Ok::<u64, DurationFailure>((n * 60) as u64),
        0 < n && n * 60 <= WEEK_SECONDS ==> ascii_duration(decimal(n as nat) + "minutes"@, table) == Ok::<u64, DurationFailure>((n * 60) as u64),
        n == 0 ==> ascii_duration(decimal(n as nat) + "m"@, table) == Err::<u64, DurationFailure>(DurationFailure::Zero),
        n * 60 > WEEK_SECONDS ==> ascii_duration(decimal(n as nat) + "m"@, table) == Err::<u64, DurationFailure>(DurationFailure::ExceedsWeek),
        n == 0 ==> ascii_duration(decimal(n as nat) + "min"@, table) == Err::<u64, DurationFailure>(DurationFailure::Zero),
        n * 60 > WEEK_SECONDS ==> ascii_duration(decimal(n as nat) + "min"@, table) == Err::<u64, DurationFailure>(DurationFailure::ExceedsWeek),
        n == 0 ==> ascii_duration(decimal(n as nat) + "mins"@, table) == Err::<u64, DurationFailure>(DurationFailure::Zero),
        n * 60 > WEEK_SECONDS ==> ascii_duration(decimal(n as nat) + "mins"@, table) == Err::<u64, DurationFailure>(DurationFailure::ExceedsWeek),
        n == 0 ==> ascii_duration(decimal(n as nat) + "minute"@, table) == Err::<u64, DurationFailure>(DurationFailure::Zero),
        n * 60 > WEEK_SECONDS ==> ascii_duration(decimal(n as nat) + "minute"@, table) == Err::<u64, DurationFailure>(DurationFailure::ExceedsWeek),
        n == 0 ==> ascii_duration(decimal(n as nat) + "minutes"@, table) == Err::<u64, DurationFailure>(DurationFailure::Zero),
        n * 60 > WEEK_SECONDS ==> ascii_duration(decimal(n as nat) + "minutes"@, table) == Err::<u64, DurationFailure>(DurationFailure::ExceedsWeek),
{
    reveal_strlit("s");
    reveal_strlit("sec");
    reveal_strlit("secs");
    reveal_strlit("second");
    reveal_strlit("seconds");
    reveal_strlit("m");
    reveal_strlit("min");
    reveal_strlit("mins");
    reveal_strlit("minute");
    reveal_strlit("minutes");
    assert("m"@[0] != "s"@[0]);
    assert("min"@[0] != "sec"@[0]);
    assert("mins"@[0] != "secs"@[0]);
    assert("minute"@[0] != "second"@[0]);
    assert("minutes"@[0] != "seconds"@[0]);
    lemma_number_then_unit(n, "m"@, table);
    lemma_number_then_unit(n, "min"@, table);
    lemma_number_then_unit(n, "mins"@, table);
    lemma_number_then_unit(n, "minute"@, table);
    lemma_number_then_unit(n, "minutes"@, table);
}

proof fn lemma_hours_names(n: u64, table: UnitTable)
    requires
        table == UnitTable::Full,
    ensures
        unit_seconds("h"@, table) == Some(3600u64),
        ascii_duration(decimal(n as nat) + "h"@, table) == ascii_duration(decimal(n as nat) + "h"@, table),
        unit_seconds("hr"@, table) == Some(3600u64),
        ascii_duration(decimal(n as nat) + "hr"@, table) == ascii_duration(decimal(n as nat) + "h"@, table),
        unit_seconds("hrs"@, table) == Some(3600u64),
        ascii_duration(decimal(n as nat) + "hrs"@, table) == ascii_duration(decimal(n as nat) + "h"@, table),
        unit_seconds("hour"@, table) == Some(3600u64),
        ascii_duration(decimal(n as nat) + "hour"@, table) == ascii_duration(decimal(n as nat) + "h"@, table),
        unit_seconds("hours"@, table) == Some(3600u64),
        ascii_duration(decimal(n as nat) + "hours"@, table) == ascii_duration(decimal(n as nat) + "h"@, table),
        0 < n && n * 3600 <= WEEK_SECONDS ==> ascii_duration(decimal(n as nat) + "h"@, table) == Ok::<u64, DurationFailure>((n * 3600) as u64),
        0 < n && n * 3600 <= WEEK_SECONDS ==> ascii_duration(decimal(n as nat) + "hr"@, table) == Ok::<u64, DurationFailure>((n * 3600) as u64),
        0 < n && n * 3600 <= WEEK_SECONDS ==> ascii_duration(decimal(n as nat) + "hrs"@, table) == Ok::<u64, DurationFailure>((n * 3600) as u64),
        0 < n && n * 3600 <= WEEK_SECONDS ==> ascii_duration(decimal(n as nat) + "hour"@, table) == Ok::<u64, DurationFailure>((n * 3600) as u64),
        0 < n && n * 3600 <= WEEK_SECONDS ==> ascii_duration(decimal(n as nat) + "hours"@, table) == Ok::<u64, DurationFailure>((n * 3600) as u64),
        n == 0 ==> ascii_duration(decimal(n as nat) + "h"@, table) == Err::<u64, DurationFailure>(DurationFailure::Zero),
        n * 3600 > WEEK_SECONDS ==> ascii_duration(decimal(n as nat) + "h"@, table) == Err::<u64, DurationFailure>(DurationFailure::ExceedsWeek),
        n == 0 ==> ascii_duration(decimal(n as nat) + "hr"@, table) == Err::<u64, DurationFailure>(DurationFailure::Zero),
        n * 3600 > WEEK_SECONDS ==> ascii_duration(decimal(n as nat) + "hr"@, table) == Err::<u64, DurationFailure>(DurationFailure::ExceedsWeek),
        n == 0 ==> ascii_duration(decimal(n as nat) + "hrs"@, table) == Err::<u64, DurationFailure>(DurationFailure::Zero),
        n * 3600 > WEEK_SECONDS ==> ascii_duration(decimal(n as nat) + "hrs"@, table) == Err::<u64, DurationFailure>(DurationFailure::ExceedsWeek),
        n == 0 ==> ascii_duration(decimal(n as nat) + "hour"@, table) == Err::<u64, DurationFailure>(DurationFailure::Zero),
        n * 3600 > WEEK_SECONDS ==> ascii_duration(decimal(n as nat) + "hour"@, table) == Err::<u64, DurationFailure>(DurationFailure::ExceedsWeek),
        n == 0 ==> ascii_duration(decimal(n as nat) + "hours"@, table) == Err::<u64, DurationFailure>(DurationFailure::Zero),
        n * 3600 > WEEK_SECONDS ==> ascii_duration(decimal(n as nat) + "hours"@, table) == Err::<u64, DurationFailure>(DurationFailure::ExceedsWeek),
{
    reveal_strlit("s");
    reveal_strlit("sec");
    reveal_strlit("secs");
    reveal_strlit("second");
    reveal_strlit("seconds");
    reveal_strlit("m");
    reveal_strlit("min");
    reveal_strlit("mins");
    reveal_strlit("minute");
    reveal_strlit("minutes");
    reveal_strlit("h");
    reveal_strlit("hr");
    reveal_strlit("hrs");
    reveal_strlit("hour");
    reveal_strlit("hours");
    assert("h"@[0] != "s"@[0]);
    assert("h"@[0] != "m"@[0]);
    assert("hrs"@[0] != "sec"@[0]);
    assert("hrs"@[0] != "min"@[0]);
    assert("hour"@[0] != "secs"@[0]);
    assert("hour"@[0] != "mins"@[0]);
    lemma_number_then_unit(n, "h"@, table);
    lemma_number_then_unit(n, "hr"@, table);
    lemma_number_then_unit(n, "hrs"@, table);
    lemma_number_then_unit(n, "hour"@, table);
    lemma_number_then_unit(n, "hours"@, table);
}

proof fn lemma_days_names(n: u64, table: UnitTable)
    requires
        table == UnitTable::Full,
    ensures
        unit_seconds("d"@, table) == Some(86400u64),
        ascii_duration(decimal(n as nat) + "d"@, table) == ascii_duration(decimal(n as nat) + "d"@, table),
        unit_seconds("day"@, table) == Some(86400u64),
        ascii_duration(decimal(n as nat) + "day"@, table) == ascii_duration(decimal(n as nat) + "d"@, table),
        unit_seconds("days"@, table) == Some(86400u64),
        ascii_duration(decimal(n as nat) + "days"@, table) == ascii_duration(decimal(n as nat) + "d"@, table),
        0 < n && n * 86400 <= WEEK_SECONDS ==> ascii_duration(decimal(n as nat) + "d"@, table) == Ok::<u64, DurationFailure>((n * 86400) as u64),
        0 < n && n * 86400 <= WEEK_SECONDS ==> ascii_duration(decimal(n as nat) + "day"@, table) == Ok::<u64, DurationFailure>((n * 86400) as u64),
        0 < n && n * 86400 <= WEEK_SECONDS ==> ascii_duration(decimal(n as nat) + "days"@, table) == Ok::<u64, DurationFailure>((n * 86400) as u64),
        n == 0 ==> ascii_duration(decimal(n as nat) + "d"@, table) == Err::<u64, DurationFailure>(DurationFailure::Zero),
        n * 86400 > WEEK_SECONDS ==> ascii_duration(decimal(n as nat) + "d"@, table) == Err::<u64, DurationFailure>(DurationFailure::ExceedsWeek),
        n == 0 ==> ascii_duration(decimal(n as nat) + "day"@, table) == Err::<u64, DurationFailure>(DurationFailure::Zero),
        n * 86400 > WEEK_SECONDS ==> ascii_duration(decimal(n as nat) + "day"@, table) == Err::<u64, DurationFailure>(DurationFailure::ExceedsWeek),
        n == 0 ==> ascii_duration(decimal(n as nat) + "days"@, table) == Err::<u64, DurationFailure>(DurationFailure::Zero),
        n * 86400 > WEEK_SECONDS ==> ascii_duration(decimal(n as nat) + "days"@, table) == Err::<u64, DurationFailure>(DurationFailure::ExceedsWeek),
{
    reveal_strlit("s");
    reveal_strlit("sec");
    reveal_strlit("secs");
    reveal_strlit("second");
    reveal_strlit("seconds");
    reveal_strlit("m");
    reveal_strlit("min");
    reveal_strlit("mins");
    reveal_strlit("minute");
    reveal_strlit("minutes");
    reveal_strlit("h");
    reveal_strlit("hr");
    reveal_strlit("hrs");
    reveal_strlit("hour");
    reveal_strlit("hours");
    reveal_strlit("d");
    reveal_strlit("day");
    reveal_strlit("days");
    assert("d"@[0] != "s"@[0]);
    assert("d"@[0] != "m"@[0]);
    assert("d"@[0] != "h"@[0]);
    assert("day"@[0] != "sec"@[0]);
    assert("day"@[0] != "min"@[0]);
    assert("day"@[0] != "hrs"@[0]);
    assert("days"@[0] != "secs"@[0]);
    assert("days"@[0] != "mins"@[0]);
    assert("days"@[0] != "hour"@[0]);
    lemma_number_then_unit(n, "d"@, table);
    lemma_number_then_unit(n, "day"@, table);
    lemma_number_then_unit(n, "days"@, table);
}

proof fn lemma_weeks_names(n: u64, table: UnitTable)
    requires
        table == UnitTable::Full,
    ensures
        unit_seconds("w"@, table) == Some(604800u64),
        ascii_duration(decimal(n as nat) + "w"@, table) == ascii_duration(decimal(n as nat) + "w"@, table),
        unit_seconds("week"@, table) == Some(604800u64),
        ascii_duration(decimal(n as nat) + "week"@, table) == ascii_duration(decimal(n as nat) + "w"@, table),
        unit_seconds("weeks"@, table) == Some(604800u64),
        ascii_duration(decimal(n as nat) + "weeks"@, table) == ascii_duration(decimal(n as nat) + "w"@, table),
        n == 1 ==> ascii_duration(decimal(n as nat) + "w"@, table) == Ok::<u64, DurationFailure>(WEEK_SECONDS),
        n == 1 ==> ascii_duration(decimal(n as nat) + "week"@, table) == Ok::<u64, DurationFailure>(WEEK_SECONDS),
        n == 1 ==> ascii_duration(decimal(n as nat) + "weeks"@, table) == Ok::<u64, DurationFailure>(WEEK_SECONDS),
        n == 0 ==> ascii_duration(decimal(n as nat) + "w"@, table) == Err::<u64, DurationFailure>(DurationFailure::Zero),
        n > 1 ==> ascii_duration(decimal(n as nat) + "w"@, table) == Err::<u64, DurationFailure>(DurationFailure::WeekLimit),
        n == 0 ==> ascii_duration(decimal(n as nat) + "week"@, table) == Err::<u64, DurationFailure>(DurationFailure::Zero),
        n > 1 ==> ascii_duration(decimal(n as nat) + "week"@, table) == Err::<u64, DurationFailure>(DurationFailure::WeekLimit),
        n == 0 ==> ascii_duration(decimal(n as nat) + "weeks"@, table) == Err::<u64, DurationFailure>(DurationFailure::Zero),
        n > 1 ==> ascii_duration(decimal(n as nat) + "weeks"@, table) == Err::<u64, DurationFailure>(DurationFailure::WeekLimit),
{
    reveal_strlit("s");
    reveal_strlit("sec");
    reveal_strlit("secs");
    reveal_strlit("second");
    reveal_strlit("seconds");
    reveal_strlit("m");
    reveal_strlit("min");
    reveal_strlit("mins");
    reveal_strlit("minute");
    reveal_strlit("minutes");
    reveal_strlit("h");
    reveal_strlit("hr");
    reveal_strlit("hrs");
    reveal_strlit("hour");
    reveal_strlit("hours");
    reveal_strlit("d");
    reveal_strlit("day");
    reveal_strlit("days");
    reveal_strlit("w");
    reveal_strlit("week");
    reveal_strlit("weeks");
    assert("w"@[0] != "s"@[0]);
    assert("w"@[0] != "m"@[0]);
    assert("w"@[0] != "h"@[0]);
    assert("w"@[0] != "d"@[0]);
    assert("week"@[0] != "secs"@[0]);
    assert("week"@[0] != "mins"@[0]);
    assert("week"@[0] != "hour"@[0]);
    assert("week"@[0] != "days"@[0]);
    assert("weeks"@[0] != "hours"@[0]);
    lemma_number_then_unit(n, "w"@, table);
    lemma_number_then_unit(n, "week"@, table);
    lemma_number_then_unit(n, "weeks"@, table);
}

/// Every unit name of the shared parser reads as its own length: a number
/// `n` followed by `s`, `sec`, `secs`, `second` or `seconds` is `n` seconds;
/// by `m`, `min`, `mins`, `minute` or `minutes`, `n` minutes; by `h`, `hr`,
/// `hrs`, `hour` or `hours`, `n` hours; by `d`, `day` or `days`, `n` days;
/// and `1` followed by `w`, `week` or `weeks` is one week, wherever the
/// period is more than zero and at most a week. Zero of any unit is refused
/// as zero, more than one week as a week count is refused by the week
/// limit, and any other period past a week as too long.
pub proof fn unit_names_read_as_their_lengths(n: u64)
    ensures
        0 < n <= WEEK_SECONDS ==> {
            &&& ascii_duration(decimal(n as nat) + "s"@, UnitTable::Full) == Ok::<u64, DurationFailure>(n)
            &&& ascii_duration(decimal(n as nat) + "sec"@, UnitTable::Full) == Ok::<u64, DurationFailure>(n)
            &&& ascii_duration(decimal(n as nat) + "secs"@, UnitTable::Full) == Ok::<u64, DurationFailure>(n)
            &&& ascii_duration(decimal(n as nat) + "second"@, UnitTable::Full) == Ok::<u64, DurationFailure>(n)
            &&& ascii_duration(decimal(n as nat) + "seconds"@, UnitTable::Full) == Ok::<u64, DurationFailure>(n)
        },
        0 < n && n * 60 <= WEEK_SECONDS ==> {
            &&& ascii_duration(decimal(n as nat) + "m"@, UnitTable::Full) == Ok::<u64, DurationFailure>((n * 60) as u64)
            &&& ascii_duration(decimal(n as nat) + "min"@, UnitTable::Full) == Ok::<u64, DurationFailure>((n * 60) as u64)
            &&& ascii_duration(decimal(n as nat) + "mins"@, UnitTable::Full) == Ok::<u64, DurationFailure>((n * 60) as u64)
            &&& ascii_duration(decimal(n as nat) + "minute"@, UnitTable::Full) == Ok::<u64, DurationFailure>((n * 60) as u64)
            &&& ascii_duration(decimal(n as nat) + "minutes"@, UnitTable::Full) == Ok::<u64, DurationFailure>((n * 60) as u64)
        },
        0 < n && n * 3600 <= WEEK_SECONDS ==> {
            &&& ascii_duration(decimal(n as nat) + "h"@, UnitTable::Full) == Ok::<u64, DurationFailure>((n * 3600) as u64)
            &&& ascii_duration(decimal(n as nat) + "hr"@, UnitTable::Full) == Ok::<u64, DurationFailure>((n * 3600) as u64)
            &&& ascii_duration(decimal(n as nat) + "hrs"@, UnitTable::Full) == Ok::<u64, DurationFailure>((n * 3600) as u64)
            &&& ascii_duration(decimal(n as nat) + "hour"@, UnitTable::Full) == Ok::<u64, DurationFailure>((n * 3600) as u64)
            &&& ascii_duration(decimal(n as nat) + "hours"@, UnitTable::Full) == Ok::<u64, DurationFailure>((n * 3600) as u64)
        },
        0 < n && n * 86400 <= WEEK_SECONDS ==> {
            &&& ascii_duration(decimal(n as nat) + "d"@, UnitTable::Full) == Ok::<u64, DurationFailure>((n * 86400) as u64)
            &&& ascii_duration(decimal(n as nat) + "day"@, UnitTable::Full) == Ok::<u64, DurationFailure>((n * 86400) as u64)
            &&& ascii_duration(decimal(n as nat) + "days"@, UnitTable::Full) == Ok::<u64, DurationFailure>((n * 86400) as u64)
        },
        n == 1 ==> {
            &&& ascii_duration(decimal(n as nat) + "w"@, UnitTable::Full) == Ok::<u64, DurationFailure>(WEEK_SECONDS)
            &&& ascii_duration(decimal(n as nat) + "week"@, UnitTable::Full) == Ok::<u64, DurationFailure>(WEEK_SECONDS)
            &&& ascii_duration(decimal(n as nat) + "weeks"@, UnitTable::Full) == Ok::<u64, DurationFailure>(WEEK_SECONDS)
        },
        n == 0 ==> ascii_duration(decimal(n as nat) + "s"@, UnitTable::Full) == Err::<u64, DurationFailure>(DurationFailure::Zero),
        n * 1 > WEEK_SECONDS ==> ascii_duration(decimal(n as nat) + "s"@, UnitTable::Full) == Err::<u64, DurationFailure>(DurationFailure::ExceedsWeek),
        n == 0 ==> ascii_duration(decimal(n as nat) + "sec"@, UnitTable::Full) == Err::<u64, DurationFailure>(DurationFailure::Zero),
        n * 1 > WEEK_SECONDS ==> ascii_duration(decimal(n as nat) + "sec"@, UnitTable::Full) == Err::<u64, DurationFailure>(DurationFailure::ExceedsWeek),
        n == 0 ==> ascii_duration(decimal(n as nat) + "secs"@, UnitTable::Full) == Err::<u64, DurationFailure>(DurationFailure::Zero),
        n * 1 > WEEK_SECONDS ==> ascii_duration(decimal(n as nat) + "secs"@, UnitTable::Full) == Err::<u64, DurationFailure>(DurationFailure::ExceedsWeek),
        n == 0 ==> ascii_duration(decimal(n as nat) + "second"@, UnitTable::Full) == Err::<u64, DurationFailure>(DurationFailure::Zero),
        n * 1 > WEEK_SECONDS ==> ascii_duration(decimal(n as nat) + "second"@, UnitTable::Full) == Err::<u64, DurationFailure>(DurationFailure::ExceedsWeek),
        n == 0 ==> ascii_duration(decimal(n as nat) + "seconds"@, UnitTable::Full) == Err::<u64, DurationFailure>(DurationFailure::Zero),
        n * 1 > WEEK_SECONDS ==> ascii_duration(decimal(n as nat) + "seconds"@, UnitTable::Full) == Err::<u64, DurationFailure>(DurationFailure::ExceedsWeek),
        n == 0 ==> ascii_duration(decimal(n as nat) + "m"@, UnitTable::Full) == Err::<u64, DurationFailure>(DurationFailure::Zero),
        n * 60 > WEEK_SECONDS ==> ascii_duration(decimal(n as nat) + "m"@, UnitTable::Full) == Err::<u64, DurationFailure>(DurationFailure::ExceedsWeek),
        n == 0 ==> ascii_duration(decimal(n as nat) + "min"@, UnitTable::Full) == Err::<u64, DurationFailure>(DurationFailure::Zero),
        n * 60 > WEEK_SECONDS ==> ascii_duration(decimal(n as nat) + "min"@, UnitTable::Full) == Err::<u64, DurationFailure>(DurationFailure::ExceedsWeek),
        n == 0 ==> ascii_duration(decimal(n as nat) + "mins"@, UnitTable::Full) == Err::<u64, DurationFailure>(DurationFailure::Zero),
        n * 60 > WEEK_SECONDS ==> ascii_duration(decimal(n as nat) + "mins"@, UnitTable::Full) == Err::<u64, DurationFailure>(DurationFailure::ExceedsWeek),
        n == 0 ==> ascii_duration(decimal(n as nat) + "minute"@, UnitTable::Full) == Err::<u64, DurationFailure>(DurationFailure::Zero),
        n * 60 > WEEK_SECONDS ==> ascii_duration(decimal(n as nat) + "minute"@, UnitTable::Full) == Err::<u64, DurationFailure>(DurationFailure::ExceedsWeek),
        n == 0 ==> ascii_duration(decimal(n as nat) + "minutes"@, UnitTable::Full) == Err::<u64, DurationFailure>(DurationFailure::Zero),
        n * 60 > WEEK_SECONDS ==> ascii_duration(decimal(n as nat) + "minutes"@, UnitTable::Full) == Err::<u64, DurationFailure>(DurationFailure::ExceedsWeek),
        n == 0 ==> ascii_duration(decimal(n as nat) + "h"@, UnitTable::Full) == Err::<u64, DurationFailure>(DurationFailure::Zero),
        n * 3600 > WEEK_SECONDS ==> ascii_duration(decimal(n as nat) + "h"@, UnitTable::Full) == Err::<u64, DurationFailure>(DurationFailure::ExceedsWeek),
        n == 0 ==> ascii_duration(decimal(n as nat) + "hr"@, UnitTable::Full) == Err::<u64, DurationFailure>(DurationFailure::Zero),
        n * 3600 > WEEK_SECONDS ==> ascii_duration(decimal(n as nat) + "hr"@, UnitTable::Full) == Err::<u64, DurationFailure>(DurationFailure::ExceedsWeek),
        n == 0 ==> ascii_duration(decimal(n as nat) + "hrs"@, UnitTable::Full) == Err::<u64, DurationFailure>(DurationFailure::Zero),
        n * 3600 > WEEK_SECONDS ==> ascii_duration(decimal(n as nat) + "hrs"@, UnitTable::Full) == Err::<u64, DurationFailure>(DurationFailure::ExceedsWeek),
        n == 0 ==> ascii_duration(decimal(n as nat) + "hour"@, UnitTable::Full) == Err::<u64, DurationFailure>(DurationFailure::Zero),
        n * 3600 > WEEK_SECONDS ==> ascii_duration(decimal(n as nat) + "hour"@, UnitTable::Full) == Err::<u64, DurationFailure>(DurationFailure::ExceedsWeek),
        n == 0 ==> ascii_duration(decimal(n as nat) + "hours"@, UnitTable::Full) == Err::<u64, DurationFailure>(DurationFailure::Zero),
        n * 3600 > WEEK_SECONDS ==> ascii_duration(decimal(n as nat) + "hours"@, UnitTable::Full) == Err::<u64, DurationFailure>(DurationFailure::ExceedsWeek),
        n == 0 ==> ascii_duration(decimal(n as nat) + "d"@, UnitTable::Full) == Err::<u64, DurationFailure>(DurationFailure::Zero),
        n * 86400 > WEEK_SECONDS ==> ascii_duration(decimal(n as nat) + "d"@, UnitTable::Full) == Err::<u64, DurationFailure>(DurationFailure::ExceedsWeek),
        n == 0 ==> ascii_duration(decimal(n as nat) + "day"@, UnitTable::Full) == Err::<u64, DurationFailure>(DurationFailure::Zero),
        n * 86400 > WEEK_SECONDS ==> ascii_duration(decimal(n as nat) + "day"@, UnitTable::Full) == Err::<u64, DurationFailure>(DurationFailure::ExceedsWeek),
        n == 0 ==> ascii_duration(decimal(n as nat) + "days"@, UnitTable::Full) == Err::<u64, DurationFailure>(DurationFailure::Zero),
        n * 86400 > WEEK_SECONDS ==> ascii_duration(decimal(n as nat) + "days"@, UnitTable::Full) == Err::<u64, DurationFailure>(DurationFailure::ExceedsWeek),
        n == 0 ==> ascii_duration(decimal(n as nat) + "w"@, UnitTable::Full) == Err::<u64, DurationFailure>(DurationFailure::Zero),
        n > 1 ==> ascii_duration(decimal(n as nat) + "w"@, UnitTable::Full) == Err::<u64, DurationFailure>(DurationFailure::WeekLimit),
        n == 0 ==> ascii_duration(decimal(n as nat) + "week"@, UnitTable::Full) == Err::<u64, DurationFailure>(DurationFailure::Zero),
        n > 1 ==> ascii_duration(decimal(n as nat) + "week"@, UnitTable::Full) == Err::<u64, DurationFailure>(DurationFailure::WeekLimit),
        n == 0 ==> ascii_duration(decimal(n as nat) + "weeks"@, UnitTable::Full) == Err::<u64, DurationFailure>(DurationFailure::Zero),
        n > 1 ==> ascii_duration(decimal(n as nat) + "weeks"@, UnitTable::Full) == Err::<u64, DurationFailure>(DurationFailure::WeekLimit),
{
    lemma_seconds_names(n, UnitTable::Full);
    lemma_minutes_names(n, UnitTable::Full);
    lemma_hours_names(n, UnitTable::Full);
    lemma_days_names(n, UnitTable::Full);
    lemma_weeks_names(n, UnitTable::Full);
}

proof fn lemma_stats_minutes_names(n: u64, table: UnitTable)
    requires
        table == UnitTable::Stats,
    ensures
        unit_seconds("min"@, table) == Some(60u64),
        0 < n && n * 60 <= WEEK_SECONDS ==> ascii_duration(decimal(n as nat) + "min"@, table) == Ok::<u64, DurationFailure>((n * 60) as u64),
        unit_seconds("mins"@, table) == Some(60u64),
        0 < n && n * 60 <= WEEK_SECONDS ==> ascii_duration(decimal(n as nat) + "mins"@, table) == Ok::<u64, DurationFailure>((n * 60) as u64),
        unit_seconds("minute"@, table) == Some(60u64),
        0 < n && n * 60 <= WEEK_SECONDS ==> ascii_duration(decimal(n as nat) + "minute"@, table) == Ok::<u64, DurationFailure>((n * 60) as u64),
        unit_seconds("minutes"@, table) == Some(60u64),
        0 < n && n * 60 <= WEEK_SECONDS ==> ascii_duration(decimal(n as nat) + "minutes"@, table) == Ok::<u64, DurationFailure>((n * 60) as u64),
        n == 0 ==> ascii_duration(decimal(n as nat) + "min"@, table) == Err::<u64, DurationFailure>(DurationFailure::Zero),
        n * 60 > WEEK_SECONDS ==> ascii_duration(decimal(n as nat) + "min"@, table) == Err::<u64, DurationFailure>(DurationFailure::ExceedsWeek),
        n == 0 ==> ascii_duration(decimal(n as nat) + "mins"@, table) == Err::<u64, DurationFailure>(DurationFailure::Zero),
        n * 60 > WEEK_SECONDS ==> ascii_duration(decimal(n as nat) + "mins"@, table) == Err::<u64, DurationFailure>(DurationFailure::ExceedsWeek),
        n == 0 ==> ascii_duration(decimal(n as nat) + "minute"@, table) == Err::<u64, DurationFailure>(DurationFailure::Zero),
        n * 60 > WEEK_SECONDS ==> ascii_duration(decimal(n as nat) + "minute"@, table) == Err::<u64, DurationFailure>(DurationFailure::ExceedsWeek),
        n == 0 ==> ascii_duration(decimal(n as nat) + "minutes"@, table) == Err::<u64, DurationFailure>(DurationFailure::Zero),
        n * 60 > WEEK_SECONDS ==> ascii_duration(decimal(n as nat) + "minutes"@, table) == Err::<u64, DurationFailure>(DurationFailure::ExceedsWeek),
{
    reveal_strlit("min");
    reveal_strlit("mins");
    reveal_strlit("minute");
    reveal_strlit("minutes");
    lemma_number_then_unit(n, "min"@, table);
    lemma_number_then_unit(n, "mins"@, table);
    lemma_number_then_unit(n, "minute"@, table);
    lemma_number_then_unit(n, "minutes"@, table);
}

proof fn lemma_stats_hours_names(n: u64, table: UnitTable)
    requires
        table == UnitTable::Stats,
    ensures
        unit_seconds("hr"@, table) == Some(3600u64),
        0 < n && n * 3600 <= WEEK_SECONDS ==> ascii_duration(decimal(n as nat) + "hr"@, table) == Ok::<u64, DurationFailure>((n * 3600) as u64),
        unit_seconds("hrs"@, table) == Some(3600u64),
        0 < n && n * 3600 <= WEEK_SECONDS ==> ascii_duration(decimal(n as nat) + "hrs"@, table) == Ok::<u64, DurationFailure>((n * 3600) as u64),
        unit_seconds("hour"@, table) == Some(3600u64),
        0 < n && n * 3600 <= WEEK_SECONDS ==> ascii_duration(decimal(n as nat) + "hour"@, table) == Ok::<u64, DurationFailure>((n * 3600) as u64),
        unit_seconds("hours"@, table) == Some(3600u64),
        0 < n && n * 3600 <= WEEK_SECONDS ==> ascii_duration(decimal(n as nat) + "hours"@, table) == Ok::<u64, DurationFailure>((n * 3600) as u64),
        n == 0 ==> ascii_duration(decimal(n as nat) + "hr"@, table) == Err::<u64, DurationFailure>(DurationFailure::Zero),
        n * 3600 > WEEK_SECONDS ==> ascii_duration(decimal(n as nat) + "hr"@, table) == Err::<u64, DurationFailure>(DurationFailure::ExceedsWeek),
        n == 0 ==> ascii_duration(decimal(n as nat) + "hrs"@, table) == Err::<u64, DurationFailure>(DurationFailure::Zero),
        n * 3600 > WEEK_SECONDS ==> ascii_duration(decimal(n as nat) + "hrs"@, table) == Err::<u64, DurationFailure>(DurationFailure::ExceedsWeek),
        n == 0 ==> ascii_duration(decimal(n as nat) + "hour"@, table) == Err::<u64, DurationFailure>(DurationFailure::Zero),
        n * 3600 > WEEK_SECONDS ==> ascii_duration(decimal(n as nat) + "hour"@, table) == Err::<u64, DurationFailure>(DurationFailure::ExceedsWeek),
        n == 0 ==> ascii_duration(decimal(n as nat) + "hours"@, table) == Err::<u64, DurationFailure>(DurationFailure::Zero),
        n * 3600 > WEEK_SECONDS ==> ascii_duration(decimal(n as nat) + "hours"@, table) == Err::<u64, DurationFailure>(DurationFailure::ExceedsWeek),
{
    reveal_strlit("min");
    reveal_strlit("mins");
    reveal_strlit("minute");
    reveal_strlit("minutes");
    reveal_strlit("hr");
    reveal_strlit("hrs");
    reveal_strlit("hour");
    reveal_strlit("hours");
    assert("hrs"@[0] != "min"@[0]);
    assert("hour"@[0] != "mins"@[0]);
    lemma_number_then_unit(n, "hr"@, table);
    lemma_number_then_unit(n, "hrs"@, table);
    lemma_number_then_unit(n, "hour"@, table);
    lemma_number_then_unit(n, "hours"@, table);
}

proof fn lemma_stats_days_names(n: u64, table: UnitTable)
    requires
        table == UnitTable::Stats,
    ensures
        unit_seconds("day"@, table) == Some(86400u64),
        0 < n && n * 86400 <= WEEK_SECONDS ==> ascii_duration(decimal(n as nat) + "day"@, table) == Ok::<u64, DurationFailure>((n * 86400) as u64),
        unit_seconds("days"@, table) == Some(86400u64),
        0 < n && n * 86400 <= WEEK_SECONDS ==> ascii_duration(decimal(n as nat) + "days"@, table) == Ok::<u64, DurationFailure>((n * 86400) as u64),
        n == 0 ==> ascii_duration(decimal(n as nat) + "day"@, table) == Err::<u64, DurationFailure>(DurationFailure::Zero),
        n * 86400 > WEEK_SECONDS ==> ascii_duration(decimal(n as nat) + "day"@, table) == Err::<u64, DurationFailure>(DurationFailure::ExceedsWeek),
        n == 0 ==> ascii_duration(decimal(n as nat) + "days"@, table) == Err::<u64, DurationFailure>(DurationFailure::Zero),
        n * 86400 > WEEK_SECONDS ==> ascii_duration(decimal(n as nat) + "days"@, table) == Err::<u64, DurationFailure>(DurationFailure::ExceedsWeek),
{
    reveal_strlit("min");
    reveal_strlit("mins");
    reveal_strlit("minute");
    reveal_strlit("minutes");
    reveal_strlit("hr");
    reveal_strlit("hrs");
    reveal_strlit("hour");
    reveal_strlit("hours");
    reveal_strlit("day");
    reveal_strlit("days");
    assert("day"@[0] != "min"@[0]);
    assert("day"@[0] != "hrs"@[0]);
    assert("days"@[0] != "mins"@[0]);
    assert("days"@[0] != "hour"@[0]);
    lemma_number_then_unit(n, "day"@, table);
    lemma_number_then_unit(n, "days"@, table);
}

proof fn lemma_stats_weeks_names(n: u64, table: UnitTable)
    requires
        table == UnitTable::Stats,
    ensures
        unit_seconds("week"@, table) == Some(604800u64),
        n == 1 ==> ascii_duration(decimal(n as nat) + "week"@, table) == Ok::<u64, DurationFailure>(WEEK_SECONDS),
        unit_seconds("weeks"@, table) == Some(604800u64),
        n == 1 ==> ascii_duration(decimal(n as nat) + "weeks"@, table) == Ok::<u64, DurationFailure>(WEEK_SECONDS),
        n == 0 ==> ascii_duration(decimal(n as nat) + "week"@, table) == Err::<u64, DurationFailure>(DurationFailure::Zero),
        n > 1 ==> ascii_duration(decimal(n as nat) + "week"@, table) == Err::<u64, DurationFailure>(DurationFailure::WeekLimit),
        n == 0 ==> ascii_duration(decimal(n as nat) + "weeks"@, table) == Err::<u64, DurationFailure>(DurationFailure::Zero),
        n > 1 ==> ascii_duration(decimal(n as nat) + "weeks"@, table) == Err::<u64, DurationFailure>(DurationFailure::WeekLimit),
{
    reveal_strlit("min");
    reveal_strlit("mins");
    reveal_strlit("minute");
    reveal_strlit("minutes");
    reveal_strlit("hr");
    reveal_strlit("hrs");
    reveal_strlit("hour");
    reveal_strlit("hours");
    reveal_strlit("day");
    reveal_strlit("days");
    reveal_strlit("week");
    reveal_strlit("weeks");
    assert("week"@[0] != "mins"@[0]);
    assert("week"@[0] != "hour"@[0]);
    assert("week"@[0] != "days"@[0]);
    assert("weeks"@[0] != "hours"@[0]);
    lemma_number_then_unit(n, "week"@, table);
    lemma_number_then_unit(n, "weeks"@, table);
}

/// Every unit name of the statistics parser reads as its own length: a
/// number `n` followed by `min`, `mins`, `minute` or `minutes` is `n`
/// minutes; by `hr`, `hrs`, `hour` or `hours`, `n` hours; by `day` or
/// `days`, `n` days; and `1` followed by `week` or `weeks` is one week,
/// wherever the period is more than zero and at most a week. Zero is
/// refused as zero, a week count above one by the week limit, and any other
/// period past a week as too long.
pub proof fn stats_unit_names_read_as_their_lengths(n: u64)
    ensures
        0 < n && n * 60 <= WEEK_SECONDS ==> {
            &&& ascii_duration(decimal(n as nat) + "min"@, UnitTable::Stats) == Ok::<u64, DurationFailure>((n * 60) as u64)
            &&& ascii_duration(decimal(n as nat) + "mins"@, UnitTable::Stats) == Ok::<u64, DurationFailure>((n * 60) as u64)
            &&& ascii_duration(decimal(n as nat) + "minute"@, UnitTable::Stats) == Ok::<u64, DurationFailure>((n * 60) as u64)
            &&& ascii_duration(decimal(n as nat) + "minutes"@, UnitTable::Stats) == Ok::<u64, DurationFailure>((n * 60) as u64)
        },
        0 < n && n * 3600 <= WEEK_SECONDS ==> {
            &&& ascii_duration(decimal(n as nat) + "hr"@, UnitTable::Stats) == Ok::<u64, DurationFailure>((n * 3600) as u64)
            &&& ascii_duration(decimal(n as nat) + "hrs"@, UnitTable::Stats) == Ok::<u64, DurationFailure>((n * 3600) as u64)
            &&& ascii_duration(decimal(n as nat) + "hour"@, UnitTable::Stats) == Ok::<u64, DurationFailure>((n * 3600) as u64)
            &&& ascii_duration(decimal(n as nat) + "hours"@, UnitTable::Stats) == Ok::<u64, DurationFailure>((n * 3600) as u64)
        },
        0 < n && n * 86400 <= WEEK_SECONDS ==> {
            &&& ascii_duration(decimal(n as nat) + "day"@, UnitTable::Stats) == Ok::<u64, DurationFailure>((n * 86400) as u64)
            &&& ascii_duration(decimal(n as nat) + "days"@, UnitTable::Stats) == Ok::<u64, DurationFailure>((n * 86400) as u64)
        },
        n == 1 ==> {
            &&& ascii_duration(decimal(n as nat) + "week"@, UnitTable::Stats) == Ok::<u64, DurationFailure>(WEEK_SECONDS)
            &&& ascii_duration(decimal(n as nat) + "weeks"@, UnitTable::Stats) == Ok::<u64, DurationFailure>(WEEK_SECONDS)
        },
        n == 0 ==> ascii_duration(decimal(n as nat) + "min"@, UnitTable::Stats) == Err::<u64, DurationFailure>(DurationFailure::Zero),
        n * 60 > WEEK_SECONDS ==> ascii_duration(decimal(n as nat) + "min"@, UnitTable::Stats) == Err::<u64, DurationFailure>(DurationFailure::ExceedsWeek),
        n == 0 ==> ascii_duration(decimal(n as nat) + "mins"@, UnitTable::Stats) == Err::<u64, DurationFailure>(DurationFailure::Zero),
        n * 60 > WEEK_SECONDS ==> ascii_duration(decimal(n as nat) + "mins"@, UnitTable::Stats) == Err::<u64, DurationFailure>(DurationFailure::ExceedsWeek),
        n == 0 ==> ascii_duration(decimal(n as nat) + "minute"@, UnitTable::Stats) == Err::<u64, DurationFailure>(DurationFailure::Zero),
        n * 60 > WEEK_SECONDS ==> ascii_duration(decimal(n as nat) + "minute"@, UnitTable::Stats) == Err::<u64, DurationFailure>(DurationFailure::ExceedsWeek),
        n == 0 ==> ascii_duration(decimal(n as nat) + "minutes"@, UnitTable::Stats) == Err::<u64, DurationFailure>(DurationFailure::Zero),
        n * 60 > WEEK_SECONDS ==> ascii_duration(decimal(n as nat) + "minutes"@, UnitTable::Stats) == Err::<u64, DurationFailure>(DurationFailure::ExceedsWeek),
        n == 0 ==> ascii_duration(decimal(n as nat) + "hr"@, UnitTable::Stats) == Err::<u64, DurationFailure>(DurationFailure::Zero),
        n * 3600 > WEEK_SECONDS ==> ascii_duration(decimal(n as nat) + "hr"@, UnitTable::Stats) == Err::<u64, DurationFailure>(DurationFailure::ExceedsWeek),
        n == 0 ==> ascii_duration(decimal(n as nat) + "hrs"@, UnitTable::Stats) == Err::<u64, DurationFailure>(DurationFailure::Zero),
        n * 3600 > WEEK_SECONDS ==> ascii_duration(decimal(n as nat) + "hrs"@, UnitTable::Stats) == Err::<u64, DurationFailure>(DurationFailure::ExceedsWeek),
        n == 0 ==> ascii_duration(decimal(n as nat) + "hour"@, UnitTable::Stats) == Err::<u64, DurationFailure>(DurationFailure::Zero),
        n * 3600 > WEEK_SECONDS ==> ascii_duration(decimal(n as nat) + "hour"@, UnitTable::Stats) == Err::<u64, DurationFailure>(DurationFailure::ExceedsWeek),
        n == 0 ==> ascii_duration(decimal(n as nat) + "hours"@, UnitTable::Stats) == Err::<u64, DurationFailure>(DurationFailure::Zero),
        n * 3600 > WEEK_SECONDS ==> ascii_duration(decimal(n as nat) + "hours"@, UnitTable::Stats) == Err::<u64, DurationFailure>(DurationFailure::ExceedsWeek),
        n == 0 ==> ascii_duration(decimal(n as nat) + "day"@, UnitTable::Stats) == Err::<u64, DurationFailure>(DurationFailure::Zero),
        n * 86400 > WEEK_SECONDS ==> ascii_duration(decimal(n as nat) + "day"@, UnitTable::Stats) == Err::<u64, DurationFailure>(DurationFailure::ExceedsWeek),
        n == 0 ==> ascii_duration(decimal(n as nat) + "days"@, UnitTable::Stats) == Err::<u64, DurationFailure>(DurationFailure::Zero),
        n * 86400 > WEEK_SECONDS ==> ascii_duration(decimal(n as nat) + "days"@, UnitTable::Stats) == Err::<u64, DurationFailure>(DurationFailure::ExceedsWeek),
        n == 0 ==> ascii_duration(decimal(n as nat) + "week"@, UnitTable::Stats) == Err::<u64, DurationFailure>(DurationFailure::Zero),
        n > 1 ==> ascii_duration(decimal(n as nat) + "week"@, UnitTable::Stats) == Err::<u64, DurationFailure>(DurationFailure::WeekLimit),
        n == 0 ==> ascii_duration(decimal(n as nat) + "weeks"@, UnitTable::Stats) == Err::<u64, DurationFailure>(DurationFailure::Zero),
        n > 1 ==> ascii_duration(decimal(n as nat) + "weeks"@, UnitTable::Stats) == Err::<u64, DurationFailure>(DurationFailure::WeekLimit),
{
    lemma_stats_minutes_names(n, UnitTable::Stats);
    lemma_stats_hours_names(n, UnitTable::Stats);
    lemma_stats_days_names(n, UnitTable::Stats);
    lemma_stats_weeks_names(n, UnitTable::Stats);
}

/// Each unit name of the statistics table is a name of the shared table,
/// with the same number of seconds.
pub proof fn stats_units_are_shared_units(unit: Seq<char>)
    ensures
        unit_seconds(unit, UnitTable::Stats) is Some ==>
            unit_seconds(unit, UnitTable::Full) == unit_seconds(unit, UnitTable::Stats),
{
    reveal_strlit("s");
    reveal_strlit("sec");
    reveal_strlit("secs");
    reveal_strlit("second");
    reveal_strlit("seconds");
    reveal_strlit("m");
    reveal_strlit("min");
    reveal_strlit("mins");
    reveal_strlit("minute");
    reveal_strlit("minutes");
    reveal_strlit("h");
    reveal_strlit("hr");
    reveal_strlit("hrs");
    reveal_strlit("hour");
    reveal_strlit("hours");
    reveal_strlit("d");
    reveal_strlit("day");
    reveal_strlit("days");
    reveal_strlit("w");
    reveal_strlit("week");
    reveal_strlit("weeks");
    if unit_seconds(unit, UnitTable::Stats) is Some {
        assert(unit.len() >= 2);
        assert(unit[0] == 'm' || unit[0] == 'h' || unit[0] == 'd' || unit[0] == 'w');
        assert(unit[0] != 's');
        assert(unit[0] == 'm' ==> unit.len() >= 3);
        assert(unit[0] == 'h' ==> unit.len() >= 2);
        assert(unit[0] == 'd' ==> unit.len() >= 3);
        assert(unit[0] == 'w' ==> unit.len() >= 4);
    }
}

/// Whatever the statistics parser accepts, the shared parser accepts too and
/// gives the same period: its unit names are a subset with the same lengths.
pub proof fn stats_periods_agree_with_shared_parser(s: Seq<char>)
    requires
        duration_of(s, UnitTable::Stats) is Ok,
    ensures
        duration_of(s, UnitTable::Full) == duration_of(s, UnitTable::Stats),
{
    let lower = unicode_lowercase(s);
    let p = first_alphabetic_from(lower, 0)->0;
    stats_units_are_shared_units(lower.skip(p));
}

/// What `DateTime::<Utc>::from_timestamp(secs, 0)` followed by `to_rfc3339`
/// gives: the RFC 3339 text of the instant `secs` seconds after the Unix
/// epoch, or nothing where chrono cannot represent that instant.
pub uninterp spec fn utc_rfc3339(secs: i64) -> Option<Seq<char>>;

/// `chrono::DateTime::<Utc>::from_timestamp(secs, 0)`, written with
/// `to_rfc3339`. The result is the named text of the instant; how chrono
/// writes it is not stated here.
#[verifier::external_body]
fn rfc3339_of_unix_seconds(secs: i64) -> (r: Option<String>)
    ensures
        match r {
            Some(s) => utc_rfc3339(secs) == Some(s@),
            None => utc_rfc3339(secs) is None,
        },
{
    match chrono::DateTime::<chrono::Utc>::from_timestamp(secs, 0) {
        Some(t) => Some(t.to_rfc3339()),
        None => None,
    }
}

/// One nanosecond past the longest distance a `Duration` holds: 2^64
/// seconds.
pub const DURATION_NANOS_BOUND: u128 = 18_446_744_073_709_551_616_000_000_000;

/// `SystemTime::now().duration_since(UNIX_EPOCH)`: whether the clock reads
/// at or after the epoch, and how far from it, in nanoseconds
/// (`Duration::as_nanos`). A `Duration` holds 64-bit seconds and fewer than a
/// billion nanoseconds, so the distance is below 2^64 seconds; nothing more is
/// stated of it: it is the time.
#[verifier::external_body]
pub(crate) fn clock_reading() -> (r: (bool, u128))
    ensures
        r.1 < DURATION_NANOS_BOUND,
{
    match std::time::SystemTime::now().duration_since(std::time::UNIX_EPOCH) {
        Ok(d) => (true, d.as_nanos()),
        Err(e) => (false, e.duration().as_nanos()),
    }
}

/// The clock in whole seconds since the Unix epoch; `None` where it reads
/// before the epoch.
fn unix_seconds_now() -> (r: Option<u64>)
{
    let (after, n) = clock_reading();
    if after {
        let secs = n / 1_000_000_000;
        assert(secs < 18_446_744_073_709_551_616u128) by (nonlinear_arith)
            requires n < DURATION_NANOS_BOUND, secs == n / 1_000_000_000;
        Some(secs as u64)
    } else {
        None
    }
}

/// The error when the start of a period falls before the Unix epoch.
pub open spec fn invalid_time_message() -> Seq<char> {
    "Invalid time calculation"@
}

/// The error when the start of a period cannot be written as a date.
pub open spec fn invalid_timestamp_message() -> Seq<char> {
    "Invalid timestamp"@
}

/// What the start of a look-back period is, given the clock's reading in
/// whole seconds since the epoch (`None` before the epoch).
pub open spec fn period_start(now: Option<u64>, duration_secs: u64) -> Result<Seq<char>, Seq<char>> {
    match now {
        None => Err(invalid_time_message()),
        Some(n) => if n < duration_secs {
            Err(invalid_time_message())
        } else {
            match utc_rfc3339((n - duration_secs) as i64) {
                Some(t) => Ok(t),
                None => Err(invalid_timestamp_message()),
            }
        },
    }
}

/// The result is what [`period_start`] gives for the clock reading.
pub open spec fn gives_period_start(now: Option<u64>, duration_secs: u64, r: Result<String, String>) -> bool {
    match r {
        Ok(t) => period_start(now, duration_secs) == Ok::<Seq<char>, Seq<char>>(t@),
        Err(m) => period_start(now, duration_secs) == Err::<Seq<char>, Seq<char>>(m@),
    }
}

/// The RFC 3339 text of the instant `duration_secs` seconds before the
/// clock reading `now`, as the commands send it as their `since` bound.
pub fn since_rfc3339(now: Option<u64>, duration_secs: u64) -> (r: Result<String, String>)
    ensures
        gives_period_start(now, duration_secs, r),
{
    match now {
        None => Err(String::from_str("Invalid time calculation")),
        Some(n) => {
            if n < duration_secs {
                Err(String::from_str("Invalid time calculation"))
            } else {
                let start = (n - duration_secs) as i64;
                match rfc3339_of_unix_seconds(start) {
                    Some(t) => Ok(t),
                    None => Err(String::from_str("Invalid timestamp")),
                }
            }
        },
    }
}

/// The start of a look-back period of `duration_secs` seconds ending now:
/// the clock is read once, and the result is [`since_rfc3339`] of that
/// reading.
pub fn look_back_start(duration_secs: u64) -> (r: Result<String, String>)
    ensures
        exists|now: Option<u64>| #[trigger] gives_period_start(now, duration_secs, r),
{
    let now = unix_seconds_now();
    since_rfc3339(now, duration_secs)
}

} // verus!
