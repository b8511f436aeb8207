//! `paymaster stats`: the look-back period of the statistics query.

use vstd::prelude::*;
use super::utils::{ascii_duration, duration_of, outcome_view, parse_lower_duration, DurationError, UnitTable, WEEK_SECONDS};
use crate::text::{is_ascii_text, lowercase, to_chars};

verus! {

/// The options of `paymaster stats`.
#[derive(Debug)]
pub struct StatsArgs {
    /// The look-back period, such as `24hr`.
    pub last: String,
}

impl StatsArgs {
    /// Parses a look-back period as the statistics command accepts it, into
    /// seconds: a number followed by `min`, `hr`, `day` or `week` (or their
    /// long forms and plurals), in any letter case, of at most one week and
    /// more than zero. A number times its unit that passes 64 bits is
    /// refused as longer than a week.
    pub fn parse_duration(&self, duration_str: &str) -> (r: Result<u64, DurationError>)
        ensures
            outcome_view(r) == duration_of(duration_str@, UnitTable::Stats),
            is_ascii_text(duration_str@) ==> outcome_view(r) == ascii_duration(duration_str@, UnitTable::Stats),
            r matches Ok(secs) ==> 0 < secs <= WEEK_SECONDS,
    {
        let lower = to_chars(lowercase(duration_str).as_str());
        proof {
            super::utils::accepted_periods_are_within_a_week(lower@, UnitTable::Stats);
            super::utils::ascii_case_folds_together(duration_str@);
        }
        parse_lower_duration(&lower, UnitTable::Stats)
    }
}

} // verus!
