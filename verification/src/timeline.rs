//! The observability timeline: one append-only entry per externally
//! visible action, totally ordered by completion time, and the markdown
//! report rendered from it.

use vstd::prelude::*;
use vstd::string::StringExecFns;

verus! {

/// One recorded step: what ran, when it started and ended, which agent
/// and provider acted, the tokens spent and the verdict.
#[derive(Debug)]
pub struct TimelineEntry {
    pub task: String,
    pub start_ms: u64,
    pub end_ms: u64,
    pub duration_ms: u64,
    pub agent: String,
    pub llm_provider: String,
    pub tokens_used: u64,
    pub verdict: String,
}

/// The append-only timeline of a session.
#[derive(Debug)]
pub struct Timeline {
    pub entries: Vec<TimelineEntry>,
}

/// Entries are ordered by completion time.
pub open spec fn timeline_monotonic(entries: Seq<TimelineEntry>) -> bool {
    forall|i: int, j: int|
        0 <= i < j < entries.len() ==> entries[i].end_ms <= entries[j].end_ms
}

impl Timeline {
    /// A fresh, empty timeline.
    pub fn new() -> (r: Timeline)
        ensures
            r.entries@.len() == 0,
            timeline_monotonic(r.entries@),
    {
        Timeline { entries: Vec::new() }
    }

    /// Record one entry. Entries arrive in completion order, so the new
    /// entry may not end before the last recorded one; the timeline stays
    /// monotonic.
    pub fn record_timeline(&mut self, entry: TimelineEntry)
        requires
            timeline_monotonic(old(self).entries@),
            old(self).entries@.len() > 0 ==> old(self).entries@.last().end_ms <= entry.end_ms,
        ensures
            final(self).entries@ == old(self).entries@.push(entry),
            timeline_monotonic(final(self).entries@),
    {
        proof {
            let n = self.entries@.len() as int;
            assert forall|i: int, j: int|
                0 <= i < j < n + 1 implies self.entries@.push(entry)[i].end_ms
                <= self.entries@.push(entry)[j].end_ms by {
                if j < n {
                    assert(self.entries@[i].end_ms <= self.entries@[j].end_ms);
                } else if i < n {
                    assert(self.entries@[i].end_ms <= self.entries@[n - 1].end_ms);
                }
            }
        }
        self.entries.push(entry);
    }

    /// How many entries have been recorded.
    pub fn len(&self) -> (r: usize)
        ensures
            r == self.entries@.len(),
    {
        self.entries.len()
    }
}

/// Any two entries of a monotonic timeline end in recording order: the
/// earlier recorded one ends no later.
pub proof fn lemma_timeline_order(t: Timeline, i: int, j: int)
    requires
        timeline_monotonic(t.entries@),
        0 <= i < j < t.entries@.len(),
    ensures
        t.entries@[i].end_ms <= t.entries@[j].end_ms,
{
}

/// One markdown table row of the report.
pub open spec fn spec_report_row(e: TimelineEntry) -> Seq<char> {
    "| "@ + e.agent@ + " | "@ + e.llm_provider@ + " | "@ + e.verdict@ + " |"@
}

/// Render one report row.
pub fn report_row(e: &TimelineEntry) -> (r: String)
    ensures
        r@ == spec_report_row(*e),
{
    let mut s: String = "| ".to_owned();
    s.append(e.agent.as_str());
    s.append(" | ");
    s.append(e.llm_provider.as_str());
    s.append(" | ");
    s.append(e.verdict.as_str());
    s.append(" |");
    assert(s@ =~= spec_report_row(*e));
    s
}

/// Render the report's table rows, one line per entry, in order.
pub fn report_rows(t: &Timeline) -> (r: Vec<String>)
    ensures
        r@.len() == t.entries@.len(),
        forall|i: int| 0 <= i < r@.len() ==> r@[i]@ == spec_report_row(t.entries@[i]),
{
    let n = t.entries.len();
    let mut rows: Vec<String> = Vec::new();
    let mut i: usize = 0;
    while i < n
        invariant
            n == t.entries@.len(),
            i <= n,
            rows@.len() == i,
            forall|k: int| 0 <= k < i ==> rows@[k]@ == spec_report_row(t.entries@[k]),
        decreases n - i,
    {
        rows.push(report_row(&t.entries[i]));
        i += 1;
    }
    rows
}

} // verus!
