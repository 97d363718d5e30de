//! The board statistics of a scope (one queue, or all of them).
use vstd::prelude::*;
use vstd::string::*;

use crate::text::{decimal, decimal_text};

verus! {

/// Raw aggregates of the jobs of a scope.
#[derive(Clone, Copy, Debug)]
pub struct OverviewCounts {
    pub total: i64,
    pub pending: i64,
    pub running: i64,
    pub failed: i64,
    pub done: i64,
    pub killed: i64,
    pub backlog: i64,
    pub past_hour: i64,
    pub finished: i64,
    pub dur_secs: i64,
}

impl OverviewCounts {
    /// All counts zero: the aggregates of an empty scope.
    pub fn zero() -> (r: Self)
        ensures
            r == (OverviewCounts {
                total: 0,
                pending: 0,
                running: 0,
                failed: 0,
                done: 0,
                killed: 0,
                backlog: 0,
                past_hour: 0,
                finished: 0,
                dur_secs: 0,
            }),
    {
        OverviewCounts {
            total: 0,
            pending: 0,
            running: 0,
            failed: 0,
            done: 0,
            killed: 0,
            backlog: 0,
            past_hour: 0,
            finished: 0,
            dur_secs: 0,
        }
    }
}

/// How a statistic's value is to be read.
#[derive(Clone, Copy, Debug, PartialEq, Eq, Structural)]
pub enum StatKind {
    Number,
    Decimal,
    Percentage,
    Timestamp,
}

/// One statistic of the board.
#[derive(Debug)]
pub struct StatEntry {
    pub title: String,
    pub kind: StatKind,
    pub value: String,
    pub priority: u64,
}

/// A statistic as plain values.
pub struct StatView {
    pub title: Seq<char>,
    pub kind: StatKind,
    pub value: Seq<char>,
    pub priority: u64,
}

impl View for StatEntry {
    type V = StatView;

    open spec fn view(&self) -> StatView {
        StatView { title: self.title@, kind: self.kind, value: self.value@, priority: self.priority }
    }
}

/// The statistic with these parts.
pub open spec fn stat_view(title: Seq<char>, kind: StatKind, value: Seq<char>, priority: u64) -> StatView {
    StatView { title, kind, value, priority }
}

/// The statistics of a scope with these counts and this oldest pending job.
/// The success rate and the average duration are given as texts: they are
/// used where the scope has jobs (for the rate) or finished jobs (for the
/// duration), and read `0` otherwise.
pub open spec fn statistics(
    counts: OverviewCounts,
    oldest_unix: Option<i64>,
    success_rate: Seq<char>,
    avg_duration: Seq<char>,
) -> Seq<StatView> {
    seq![
        stat_view("PENDING_JOBS"@, StatKind::Number, decimal(counts.pending as int), 1),
        stat_view("RUNNING_JOBS"@, StatKind::Number, decimal(counts.running as int), 1),
        stat_view("FAILED_JOBS"@, StatKind::Number, decimal(counts.failed as int), 2),
        stat_view("JOBS_PAST_HOUR"@, StatKind::Number, decimal(counts.past_hour as int), 3),
        stat_view("TOTAL_JOBS"@, StatKind::Number, decimal(counts.total as int), 4),
        stat_view("DONE_JOBS"@, StatKind::Number, decimal(counts.done as int), 4),
        stat_view("KILLED_JOBS"@, StatKind::Number, decimal(counts.killed as int), 4),
        stat_view("SUCCESS_RATE"@, StatKind::Percentage, if counts.total > 0 { success_rate } else { "0"@ }, 4),
        stat_view("AVG_JOB_DURATION_MINS"@, StatKind::Decimal, if counts.finished > 0 { avg_duration } else { "0"@ }, 5),
        stat_view("QUEUE_BACKLOG"@, StatKind::Number, decimal(counts.backlog as int), 5),
        stat_view(
            "OLDEST_PENDING_JOB"@,
            StatKind::Timestamp,
            decimal(
                match oldest_unix {
                    Some(t) => t as int,
                    None => 0,
                },
            ),
            8,
        ),
    ]
}

/// The views of a list of statistics.
pub open spec fn stat_views(v: Seq<StatEntry>) -> Seq<StatView> {
    v.map_values(|e: StatEntry| e@)
}

/// One statistic.
fn stat(title: &str, kind: StatKind, value: String, priority: u64) -> (r: StatEntry)
    ensures
        r@ == stat_view(title@, kind, value@, priority),
{
    StatEntry { title: title.to_owned(), kind, value, priority }
}

/// Turn raw per-scope aggregates into the board statistics.
pub fn build_statistics(
    counts: &OverviewCounts,
    oldest_unix: Option<i64>,
    success_rate: &str,
    avg_duration: &str,
) -> (r: Vec<StatEntry>)
    ensures
        stat_views(r@) == statistics(*counts, oldest_unix, success_rate@, avg_duration@),
{
    let rate = if counts.total > 0 {
        success_rate.to_owned()
    } else {
        proof { reveal_strlit("0"); }
        "0".to_owned()
    };
    let duration = if counts.finished > 0 {
        avg_duration.to_owned()
    } else {
        "0".to_owned()
    };
    let oldest = match oldest_unix {
        Some(t) => t,
        None => 0,
    };
    let mut v: Vec<StatEntry> = Vec::new();
    v.push(stat("PENDING_JOBS", StatKind::Number, decimal_text(counts.pending), 1));
    v.push(stat("RUNNING_JOBS", StatKind::Number, decimal_text(counts.running), 1));
    v.push(stat("FAILED_JOBS", StatKind::Number, decimal_text(counts.failed), 2));
    v.push(stat("JOBS_PAST_HOUR", StatKind::Number, decimal_text(counts.past_hour), 3));
    v.push(stat("TOTAL_JOBS", StatKind::Number, decimal_text(counts.total), 4));
    v.push(stat("DONE_JOBS", StatKind::Number, decimal_text(counts.done), 4));
    v.push(stat("KILLED_JOBS", StatKind::Number, decimal_text(counts.killed), 4));
    v.push(stat("SUCCESS_RATE", StatKind::Percentage, rate, 4));
    v.push(stat("AVG_JOB_DURATION_MINS", StatKind::Decimal, duration, 5));
    v.push(stat("QUEUE_BACKLOG", StatKind::Number, decimal_text(counts.backlog), 5));
    v.push(stat("OLDEST_PENDING_JOB", StatKind::Timestamp, decimal_text(oldest), 8));
    assert(stat_views(v@) =~= statistics(*counts, oldest_unix, success_rate@, avg_duration@));
    v
}

/// Among `stats` some statistic is titled `title`, and every statistic so
/// titled holds `value`.
pub open spec fn carries(stats: Seq<StatView>, title: Seq<char>, value: Seq<char>) -> bool {
    &&& exists|i: int| 0 <= i < stats.len() && #[trigger] stats[i].title == title
    &&& forall|i: int| 0 <= i < stats.len() && #[trigger] stats[i].title == title ==> stats[i].value == value
}

/// Each statistic of a scope carries the figure it is titled after: every
/// count the decimal text of its own field, the success rate the rate given
/// when the scope has jobs (else `0`), the average duration the duration
/// given when jobs finished (else `0`), and the oldest pending job its time
/// (`0` when there is none).
pub proof fn law_statistics_carry_their_counts(
    counts: OverviewCounts,
    oldest_unix: Option<i64>,
    success_rate: Seq<char>,
    avg_duration: Seq<char>,
)
    ensures
        ({
            let s = statistics(counts, oldest_unix, success_rate, avg_duration);
            &&& carries(s, "PENDING_JOBS"@, decimal(counts.pending as int))
            &&& carries(s, "RUNNING_JOBS"@, decimal(counts.running as int))
            &&& carries(s, "FAILED_JOBS"@, decimal(counts.failed as int))
            &&& carries(s, "JOBS_PAST_HOUR"@, decimal(counts.past_hour as int))
            &&& carries(s, "TOTAL_JOBS"@, decimal(counts.total as int))
            &&& carries(s, "DONE_JOBS"@, decimal(counts.done as int))
            &&& carries(s, "KILLED_JOBS"@, decimal(counts.killed as int))
            &&& carries(s, "QUEUE_BACKLOG"@, decimal(counts.backlog as int))
            &&& carries(s, "SUCCESS_RATE"@, if counts.total > 0 { success_rate } else { "0"@ })
            &&& carries(s, "AVG_JOB_DURATION_MINS"@, if counts.finished > 0 { avg_duration } else { "0"@ })
            &&& oldest_unix matches Some(t) ==> carries(s, "OLDEST_PENDING_JOB"@, decimal(t as int))
            &&& oldest_unix is None ==> carries(s, "OLDEST_PENDING_JOB"@, decimal(0))
        }),
{
    reveal_strlit("PENDING_JOBS");
    reveal_strlit("RUNNING_JOBS");
    reveal_strlit("FAILED_JOBS");
    reveal_strlit("JOBS_PAST_HOUR");
    reveal_strlit("TOTAL_JOBS");
    reveal_strlit("DONE_JOBS");
    reveal_strlit("KILLED_JOBS");
    reveal_strlit("SUCCESS_RATE");
    reveal_strlit("AVG_JOB_DURATION_MINS");
    reveal_strlit("QUEUE_BACKLOG");
    reveal_strlit("OLDEST_PENDING_JOB");
    let s = statistics(counts, oldest_unix, success_rate, avg_duration);
    assert(s.len() == 11);
    assert(s[0].title == "PENDING_JOBS"@);
    assert(s[1].title == "RUNNING_JOBS"@);
    assert(s[2].title == "FAILED_JOBS"@);
    assert(s[3].title == "JOBS_PAST_HOUR"@);
    assert(s[4].title == "TOTAL_JOBS"@);
    assert(s[5].title == "DONE_JOBS"@);
    assert(s[6].title == "KILLED_JOBS"@);
    assert(s[7].title == "SUCCESS_RATE"@);
    assert(s[8].title == "AVG_JOB_DURATION_MINS"@);
    assert(s[9].title == "QUEUE_BACKLOG"@);
    assert(s[10].title == "OLDEST_PENDING_JOB"@);
    assert forall|i: int, j: int| 0 <= i < 11 && 0 <= j < 11 && #[trigger] s[i].title == #[trigger] s[j].title implies i == j by {
        assert(i == 0 || i == 1 || i == 2 || i == 3 || i == 4 || i == 5 || i == 6 || i == 7 || i == 8 || i == 9 || i == 10);
        assert(j == 0 || j == 1 || j == 2 || j == 3 || j == 4 || j == 5 || j == 6 || j == 7 || j == 8 || j == 9 || j == 10);
        if i != j {
            assert(s[i].title.len() != s[j].title.len() || s[i].title[0] != s[j].title[0]);
        }
    }
}

/// Every statistic titled `title` among `stats` is read as `kind` and
/// ranked `priority`.
pub open spec fn shown_as(stats: Seq<StatView>, title: Seq<char>, kind: StatKind, priority: u64) -> bool {
    forall|i: int| 0 <= i < stats.len() && #[trigger] stats[i].title == title ==> stats[i].kind == kind && stats[i].priority == priority
}

/// A scope has eleven statistics, each titled once, each read as its kind
/// and ranked: the counts are numbers, the success rate a percentage, the
/// average duration a decimal, the oldest pending job a timestamp.
pub proof fn law_statistics_kinds_and_ranks(
    counts: OverviewCounts,
    oldest_unix: Option<i64>,
    success_rate: Seq<char>,
    avg_duration: Seq<char>,
)
    ensures
        ({
            let s = statistics(counts, oldest_unix, success_rate, avg_duration);
            &&& s.len() == 11
            &&& forall|i: int, j: int| 0 <= i < s.len() && 0 <= j < s.len() && #[trigger] s[i].title == #[trigger] s[j].title ==> i == j
            &&& shown_as(s, "PENDING_JOBS"@, StatKind::Number, 1)
            &&& shown_as(s, "RUNNING_JOBS"@, StatKind::Number, 1)
            &&& shown_as(s, "FAILED_JOBS"@, StatKind::Number, 2)
            &&& shown_as(s, "JOBS_PAST_HOUR"@, StatKind::Number, 3)
            &&& shown_as(s, "TOTAL_JOBS"@, StatKind::Number, 4)
            &&& shown_as(s, "DONE_JOBS"@, StatKind::Number, 4)
            &&& shown_as(s, "KILLED_JOBS"@, StatKind::Number, 4)
            &&& shown_as(s, "SUCCESS_RATE"@, StatKind::Percentage, 4)
            &&& shown_as(s, "AVG_JOB_DURATION_MINS"@, StatKind::Decimal, 5)
            &&& shown_as(s, "QUEUE_BACKLOG"@, StatKind::Number, 5)
            &&& shown_as(s, "OLDEST_PENDING_JOB"@, StatKind::Timestamp, 8)
        }),
{
    law_statistics_carry_their_counts(counts, oldest_unix, success_rate, avg_duration);
    reveal_strlit("PENDING_JOBS");
    reveal_strlit("RUNNING_JOBS");
    reveal_strlit("FAILED_JOBS");
    reveal_strlit("JOBS_PAST_HOUR");
    reveal_strlit("TOTAL_JOBS");
    reveal_strlit("DONE_JOBS");
    reveal_strlit("KILLED_JOBS");
    reveal_strlit("SUCCESS_RATE");
    reveal_strlit("AVG_JOB_DURATION_MINS");
    reveal_strlit("QUEUE_BACKLOG");
    reveal_strlit("OLDEST_PENDING_JOB");
    let s = statistics(counts, oldest_unix, success_rate, avg_duration);
    assert(s[0].title == "PENDING_JOBS"@);
    assert(s[1].title == "RUNNING_JOBS"@);
    assert(s[2].title == "FAILED_JOBS"@);
    assert(s[3].title == "JOBS_PAST_HOUR"@);
    assert(s[4].title == "TOTAL_JOBS"@);
    assert(s[5].title == "DONE_JOBS"@);
    assert(s[6].title == "KILLED_JOBS"@);
    assert(s[7].title == "SUCCESS_RATE"@);
    assert(s[8].title == "AVG_JOB_DURATION_MINS"@);
    assert(s[9].title == "QUEUE_BACKLOG"@);
    assert(s[10].title == "OLDEST_PENDING_JOB"@);
    assert forall|i: int, j: int| 0 <= i < 11 && 0 <= j < 11 && #[trigger] s[i].title == #[trigger] s[j].title implies i == j by {
        assert(i == 0 || i == 1 || i == 2 || i == 3 || i == 4 || i == 5 || i == 6 || i == 7 || i == 8 || i == 9 || i == 10);
        assert(j == 0 || j == 1 || j == 2 || j == 3 || j == 4 || j == 5 || j == 6 || j == 7 || j == 8 || j == 9 || j == 10);
        if i != j {
            assert(s[i].title.len() != s[j].title.len() || s[i].title[0] != s[j].title[0]);
        }
    }
}

} // verus!
