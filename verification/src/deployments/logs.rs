//! `deployments logs`: fetching a deployment's logs, once or following
//! them.

use vstd::prelude::*;
use super::services::Service;

verus! {

/// The options of `deployments logs`.
#[derive(Debug)]
pub struct LogsArgs {
    /// The project of the deployment.
    pub project: String,
    /// The service whose logs are read.
    pub service: Service,
    /// Only logs after this RFC 3339 time.
    pub since: Option<String>,
    /// How many of the latest lines to show.
    pub limit: i64,
    /// Keep reading new logs.
    pub follow: bool,
    /// Only the logs of this container.
    pub container: Option<String>,
    /// Only the logs of this region.
    pub region: Option<String>,
    /// Only the logs of this replica.
    pub replica: Option<String>,
}

/// The number of lines asked for by each poll while following.
pub const FOLLOW_PAGE: i64 = 25;

/// The number of lines asked for by the first query of a follow: one, to
/// learn where the logs end.
pub const FOLLOW_FIRST_PAGE: i64 = 1;

/// The first query of a follow: from the requested start time, if any,
/// for [`FOLLOW_FIRST_PAGE`] line.
pub fn first_follow_query(since: &Option<String>) -> (r: (Option<String>, i64))
    ensures
        r.1 == FOLLOW_FIRST_PAGE,
        match since {
            None => r.0 is None,
            Some(s) => r.0 matches Some(t) && t@ == s@,
        },
{
    let start = match since {
        None => None,
        Some(s) => Some(s.clone()),
    };
    (start, FOLLOW_FIRST_PAGE)
}

/// The state of following a deployment's logs: the time the next poll
/// starts from, and every content already printed.
#[derive(Debug)]
pub struct LogFollower {
    since: String,
    printed: Vec<String>,
}

impl LogFollower {
    /// The contents already printed, each once.
    pub closed spec fn printed_texts(&self) -> Seq<Seq<char>> {
        self.printed@.map_values(|s: String| s@)
    }

    /// The time the next poll starts from.
    pub closed spec fn since_text(&self) -> Seq<char> {
        self.since@
    }

    /// No content is recorded twice.
    pub closed spec fn well_formed(&self) -> bool {
        forall|a: int, b: int| 0 <= a < b < self.printed@.len() ==> (#[trigger] self.printed@[a])@ != (#[trigger] self.printed@[b])@
    }

    /// Starts following from the end time of the first query; nothing is
    /// printed yet.
    pub fn new(until: String) -> (r: LogFollower)
        ensures
            r.well_formed(),
            r.since_text() == until@,
            r.printed_texts() == Seq::<Seq<char>>::empty(),
    {
        let r = LogFollower { since: until, printed: Vec::new() };
        assert(r.printed_texts() =~= Seq::<Seq<char>>::empty());
        r
    }

    /// The time the next poll starts from.
    pub fn since(&self) -> (r: &String)
        ensures
            r@ == self.since_text(),
    {
        &self.since
    }

    /// The next poll of a follow: from where the last answer ended, for
    /// [`FOLLOW_PAGE`] lines.
    pub fn next_query(&self) -> (r: (String, i64))
        ensures
            r.0@ == self.since_text(),
            r.1 == FOLLOW_PAGE,
    {
        (self.since.clone(), FOLLOW_PAGE)
    }

    /// Takes in one poll's answer: its content is returned for printing
    /// unless that same content was printed before, and the next poll
    /// starts at the answer's end time.
    pub fn take_poll(&mut self, content: String, until: String) -> (r: Option<String>)
        requires
            old(self).well_formed(),
        ensures
            final(self).well_formed(),
            final(self).since_text() == until@,
            old(self).printed_texts().contains(content@) ==> r is None
                && final(self).printed_texts() == old(self).printed_texts(),
            !old(self).printed_texts().contains(content@) ==> (r matches Some(c) && c@ == content@)
                && final(self).printed_texts() == old(self).printed_texts().push(content@),
    {
        let mut seen = false;
        let mut j: usize = 0;
        while j < self.printed.len()
            invariant
                j <= self.printed@.len(),
                seen ==> self.printed_texts().contains(content@),
                !seen ==> forall|k: int| 0 <= k < j ==> self.printed@[k]@ != content@,
            decreases self.printed@.len() - j,
        {
            if self.printed[j] == content {
                assert(self.printed_texts()[j as int] == content@);
                seen = true;
            }
            j = j + 1;
        }
        self.since = until;
        if seen {
            None
        } else {
            let ghost before = self.printed_texts();
            proof {
                assert forall|k: int| 0 <= k < before.len() implies before[k] != content@ by {
                    assert(before[k] == self.printed@[k]@);
                }
            }
            let shown = content.clone();
            self.printed.push(content);
            proof {
                assert(self.printed_texts() =~= before.push(content@));
                assert forall|a: int, b: int| 0 <= a < b < self.printed@.len() implies
                    (#[trigger] self.printed@[a])@ != (#[trigger] self.printed@[b])@ by {
                    if b == before.len() {
                        assert(self.printed@[a]@ == before[a]);
                    }
                }
            }
            Some(shown)
        }
    }
}

/// Following prints every distinct content at most once: after any polls,
/// the printed contents hold no repeats.
pub proof fn followed_logs_print_each_content_once(f: LogFollower)
    requires
        f.well_formed(),
    ensures
        forall|a: int, b: int| 0 <= a < b < f.printed_texts().len() ==>
            f.printed_texts()[a] != f.printed_texts()[b],
{
    assert forall|a: int, b: int| 0 <= a < b < f.printed_texts().len() implies
        f.printed_texts()[a] != f.printed_texts()[b] by {
        assert(f.printed_texts()[a] == f.printed@[a]@);
        assert(f.printed_texts()[b] == f.printed@[b]@);
    }
}

} // verus!
