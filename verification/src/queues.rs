//! The queue overview of the board: each queue with its statistics, the
//! workers that serve it and the jobs it finished on each of the last days.
use vstd::prelude::*;

use crate::stats::{
    build_statistics, carries, law_statistics_carry_their_counts, statistics, stat_views, OverviewCounts, StatEntry,
    StatView,
};
use crate::text::decimal;
use crate::text::{lemma_before_irreflexive, text_before, text_order, TextOrder};

verus! {

/// Seconds in a day.
pub const SECS_PER_DAY: i64 = 86_400;

/// How many days of activity a queue reports.
pub const ACTIVITY_DAYS: i64 = 7;

/// The aggregates of one queue, with the two rates already rendered.
pub struct QueueCountsRow {
    pub queue: String,
    pub counts: OverviewCounts,
    pub success_rate: String,
    pub avg_duration: String,
}

/// The oldest pending job of one queue, as a Unix time.
pub struct QueueOldestRow {
    pub queue: String,
    pub oldest_unix: Option<i64>,
}

/// How many jobs of a queue finished on a day (the day given by its first second).
pub struct ActivityRow {
    pub queue: String,
    pub day: i64,
    pub done_count: i64,
}

/// A worker and the queue it serves.
pub struct QueueWorkerRow {
    pub name: String,
    pub queue: String,
}

/// One queue of the overview.
pub struct QueueSummary {
    pub name: String,
    pub stats: Vec<StatEntry>,
    pub workers: Vec<String>,
    pub activity: Vec<usize>,
}

/// One queue of the overview, as plain values.
pub struct QueueView {
    pub name: Seq<char>,
    pub stats: Seq<StatView>,
    pub workers: Seq<Seq<char>>,
    pub activity: Seq<usize>,
}

/// The texts of some strings.
pub open spec fn texts(v: Seq<String>) -> Seq<Seq<char>> {
    v.map_values(|s: String| s@)
}

impl View for QueueSummary {
    type V = QueueView;

    open spec fn view(&self) -> QueueView {
        QueueView {
            name: self.name@,
            stats: stat_views(self.stats@),
            workers: texts(self.workers@),
            activity: self.activity@,
        }
    }
}

/// The views of some queues.
pub open spec fn queue_views(v: Seq<QueueSummary>) -> Seq<QueueView> {
    v.map_values(|q: QueueSummary| q@)
}

/// A week of zero counts.
pub open spec fn zero_days() -> Seq<usize> {
    Seq::new(7, |i: int| 0usize)
}

/// The day number of a time, rounding toward zero as Rust's `/` does.
pub open spec fn day_number(day: i64) -> int {
    if day >= 0 {
        (day as int) / (SECS_PER_DAY as int)
    } else {
        -((-(day as int)) / (SECS_PER_DAY as int))
    }
}

/// How many days before `today` a row's day lies.
pub open spec fn day_offset(today: i64, day: i64) -> int {
    today - day_number(day)
}

/// Every row's offset fits in an `i64` (else the subtraction overflows).
pub open spec fn offsets_fit(today: i64, acts: Seq<ActivityRow>) -> bool {
    forall|i: int| 0 <= i < acts.len() ==> i64::MIN <= #[trigger] day_offset(today, acts[i].day) <= i64::MAX
}

/// The weekly activity per queue after these rows, in order: a row within the
/// last seven days sets its day's count (the latest day last), other rows
/// are ignored.
pub open spec fn daily(today: i64, acts: Seq<ActivityRow>) -> Map<Seq<char>, Seq<usize>>
    decreases acts.len(),
{
    if acts.len() == 0 {
        Map::empty()
    } else {
        let m = daily(today, acts.drop_last());
        let row = acts.last();
        let off = day_offset(today, row.day);
        if 0 <= off < ACTIVITY_DAYS {
            let cur = if m.contains_key(row.queue@) { m[row.queue@] } else { zero_days() };
            m.insert(row.queue@, cur.update(ACTIVITY_DAYS - 1 - off, row.done_count as usize))
        } else {
            m
        }
    }
}

/// The oldest pending job recorded for a queue: the last row for it wins.
pub open spec fn oldest_for(rows: Seq<QueueOldestRow>, name: Seq<char>) -> Option<i64>
    decreases rows.len(),
{
    if rows.len() == 0 {
        None
    } else if rows.last().queue@ == name {
        rows.last().oldest_unix
    } else {
        oldest_for(rows.drop_last(), name)
    }
}

/// The queues after the aggregate rows, in order, and the activity not yet
/// handed out: each row makes its queue, taking the queue's activity (once).
pub open spec fn counted(
    counts: Seq<QueueCountsRow>,
    oldest: Seq<QueueOldestRow>,
    days: Map<Seq<char>, Seq<usize>>,
) -> (Map<Seq<char>, QueueView>, Map<Seq<char>, Seq<usize>>)
    decreases counts.len(),
{
    if counts.len() == 0 {
        (Map::empty(), days)
    } else {
        let (m, d) = counted(counts.drop_last(), oldest, days);
        let row = counts.last();
        let name = row.queue@;
        let activity = if d.contains_key(name) { d[name] } else { zero_days() };
        let q = QueueView {
            name,
            stats: statistics(row.counts, oldest_for(oldest, name), row.success_rate@, row.avg_duration@),
            workers: Seq::empty(),
            activity,
        };
        (m.insert(name, q), d.remove(name))
    }
}

/// The entry of a queue that only workers mention.
pub open spec fn idle_queue(name: Seq<char>) -> QueueView {
    QueueView {
        name,
        stats: statistics(OverviewCounts::zero_spec(), None, "0"@, "0"@),
        workers: Seq::empty(),
        activity: zero_days(),
    }
}

/// The queues after the worker rows, in order: each worker joins its queue,
/// which is made idle if no aggregate row made it.
pub open spec fn staffed(m: Map<Seq<char>, QueueView>, workers: Seq<QueueWorkerRow>) -> Map<Seq<char>, QueueView>
    decreases workers.len(),
{
    if workers.len() == 0 {
        m
    } else {
        let m2 = staffed(m, workers.drop_last());
        let w = workers.last();
        let base = if m2.contains_key(w.queue@) { m2[w.queue@] } else { idle_queue(w.queue@) };
        m2.insert(w.queue@, QueueView { workers: base.workers.push(w.name@), ..base })
    }
}

/// The queues of the overview, by name.
pub open spec fn queue_map(
    counts: Seq<QueueCountsRow>,
    oldest: Seq<QueueOldestRow>,
    acts: Seq<ActivityRow>,
    workers: Seq<QueueWorkerRow>,
    today: i64,
) -> Map<Seq<char>, QueueView> {
    staffed(counted(counts, oldest, daily(today, acts)).0, workers)
}

/// `s` lists the queues of `m`, each once, in the order of their names.
pub open spec fn sorted_listing(s: Seq<QueueView>, m: Map<Seq<char>, QueueView>) -> bool {
    &&& forall|i: int, j: int| 0 <= i < j < s.len() ==> text_before(#[trigger] s[i].name, #[trigger] s[j].name)
    &&& forall|i: int| 0 <= i < s.len() ==> m.contains_key(#[trigger] s[i].name) && m[s[i].name] == s[i]
    &&& forall|k: Seq<char>| m.contains_key(k) ==> exists|i: int| 0 <= i < s.len() && #[trigger] s[i].name == k
}

/// `v` holds the entries of `m`, each key once, in some order.
pub open spec fn keyed(v: Seq<(Seq<char>, Seq<usize>)>, m: Map<Seq<char>, Seq<usize>>) -> bool {
    &&& forall|i: int, j: int| 0 <= i < v.len() && 0 <= j < v.len() && i != j ==> #[trigger] v[i].0 != #[trigger] v[j].0
    &&& forall|i: int| 0 <= i < v.len() ==> m.contains_key(#[trigger] v[i].0) && m[v[i].0] == v[i].1
    &&& forall|k: Seq<char>| m.contains_key(k) ==> exists|i: int| 0 <= i < v.len() && #[trigger] v[i].0 == k
}

impl OverviewCounts {
    /// All counts zero.
    pub open spec fn zero_spec() -> OverviewCounts {
        OverviewCounts {
            total: 0,
            pending: 0,
            running: 0,
            failed: 0,
            done: 0,
            killed: 0,
            backlog: 0,
            past_hour: 0,
            finished: 0,
            dur_secs: 0,
        }
    }
}

/// The names of a sorted listing are distinct.
proof fn lemma_listing_distinct(s: Seq<QueueView>, m: Map<Seq<char>, QueueView>)
    requires
        sorted_listing(s, m),
    ensures
        forall|i: int, j: int| 0 <= i < s.len() && 0 <= j < s.len() && i != j ==> s[i].name != s[j].name,
{
    assert forall|i: int, j: int| 0 <= i < s.len() && 0 <= j < s.len() && i != j implies s[i].name != s[j].name by {
        lemma_before_irreflexive(s[i].name);
        if i < j {
            assert(text_before(s[i].name, s[j].name));
        } else {
            assert(text_before(s[j].name, s[i].name));
        }
    }
}

/// Inserting a new queue at its place keeps the listing sorted and complete.
proof fn lemma_listing_insert(s: Seq<QueueView>, m: Map<Seq<char>, QueueView>, p: int, x: QueueView)
    requires
        sorted_listing(s, m),
        0 <= p <= s.len(),
        forall|j: int| 0 <= j < p ==> text_before(#[trigger] s[j].name, x.name),
        forall|j: int| p <= j < s.len() ==> text_before(x.name, #[trigger] s[j].name),
    ensures
        sorted_listing(s.insert(p, x), m.insert(x.name, x)),
{
    let t = s.insert(p, x);
    let n = m.insert(x.name, x);
    assert forall|j: int| 0 <= j < s.len() implies #[trigger] s[j].name != x.name by {
        lemma_before_irreflexive(x.name);
    }
    assert forall|i: int, j: int| 0 <= i < j < t.len() implies text_before(#[trigger] t[i].name, #[trigger] t[j].name) by {
        if j < p {
            assert(t[i] == s[i] && t[j] == s[j]);
        } else if j == p {
            assert(t[i] == s[i]);
        } else if i < p {
            assert(t[i] == s[i] && t[j] == s[j - 1]);
            crate::text::lemma_before_transitive(s[i].name, x.name, s[j - 1].name);
        } else if i == p {
            assert(t[j] == s[j - 1]);
        } else {
            assert(t[i] == s[i - 1] && t[j] == s[j - 1]);
        }
    }
    assert forall|i: int| 0 <= i < t.len() implies n.contains_key(#[trigger] t[i].name) && n[t[i].name] == t[i] by {
        if i < p {
            assert(t[i] == s[i]);
        } else if i > p {
            assert(t[i] == s[i - 1]);
        }
    }
    assert forall|k: Seq<char>| n.contains_key(k) implies exists|i: int| 0 <= i < t.len() && #[trigger] t[i].name == k by {
        if k == x.name {
            assert(t[p].name == k);
        } else {
            let i = choose|i: int| 0 <= i < s.len() && #[trigger] s[i].name == k;
            if i < p {
                assert(t[i] == s[i]);
            } else {
                assert(t[i + 1] == s[i]);
            }
        }
    }
}

/// Replacing a queue by one of the same name keeps the listing sorted and complete.
proof fn lemma_listing_replace(s: Seq<QueueView>, m: Map<Seq<char>, QueueView>, i: int, x: QueueView)
    requires
        sorted_listing(s, m),
        0 <= i < s.len(),
        s[i].name == x.name,
    ensures
        sorted_listing(s.update(i, x), m.insert(x.name, x)),
{
    lemma_listing_distinct(s, m);
    let t = s.update(i, x);
    let n = m.insert(x.name, x);
    assert forall|a: int, b: int| 0 <= a < b < t.len() implies text_before(#[trigger] t[a].name, #[trigger] t[b].name) by {
        assert(s[a].name == t[a].name);
        assert(s[b].name == t[b].name);
    }
    assert forall|a: int| 0 <= a < t.len() implies n.contains_key(#[trigger] t[a].name) && n[t[a].name] == t[a] by {
        if a != i {
            assert(s[a].name != x.name);
        }
    }
    assert forall|k: Seq<char>| n.contains_key(k) implies exists|a: int| 0 <= a < t.len() && #[trigger] t[a].name == k by {
        if k == x.name {
            assert(t[i].name == k);
        } else {
            let a = choose|a: int| 0 <= a < s.len() && #[trigger] s[a].name == k;
            assert(t[a].name == k);
        }
    }
}

/// Setting the entry at `i` keeps the keyed listing in step with the map.
proof fn lemma_keyed_update(v: Seq<(Seq<char>, Seq<usize>)>, m: Map<Seq<char>, Seq<usize>>, i: int, x: Seq<usize>)
    requires
        keyed(v, m),
        0 <= i < v.len(),
    ensures
        keyed(v.update(i, (v[i].0, x)), m.insert(v[i].0, x)),
{
    let t = v.update(i, (v[i].0, x));
    let n = m.insert(v[i].0, x);
    assert forall|a: int, b: int| 0 <= a < t.len() && 0 <= b < t.len() && a != b implies #[trigger] t[a].0 != #[trigger] t[b].0 by {
        assert(t[a].0 == v[a].0 && t[b].0 == v[b].0);
    }
    assert forall|a: int| 0 <= a < t.len() implies n.contains_key(#[trigger] t[a].0) && n[t[a].0] == t[a].1 by {
        if a != i {
            assert(v[a].0 != v[i].0);
        }
    }
    assert forall|k: Seq<char>| n.contains_key(k) implies exists|a: int| 0 <= a < t.len() && #[trigger] t[a].0 == k by {
        if k == v[i].0 {
            assert(t[i].0 == k);
        } else {
            let a = choose|a: int| 0 <= a < v.len() && #[trigger] v[a].0 == k;
            assert(t[a].0 == k);
        }
    }
}

/// Appending an entry for a new key keeps the keyed listing in step with the map.
proof fn lemma_keyed_push(v: Seq<(Seq<char>, Seq<usize>)>, m: Map<Seq<char>, Seq<usize>>, k: Seq<char>, x: Seq<usize>)
    requires
        keyed(v, m),
        !m.contains_key(k),
    ensures
        keyed(v.push((k, x)), m.insert(k, x)),
{
    let t = v.push((k, x));
    let n = m.insert(k, x);
    assert forall|a: int, b: int| 0 <= a < t.len() && 0 <= b < t.len() && a != b implies #[trigger] t[a].0 != #[trigger] t[b].0 by {
        if a == v.len() {
            assert(m.contains_key(v[b].0));
        } else if b == v.len() {
            assert(m.contains_key(v[a].0));
        }
    }
    assert forall|a: int| 0 <= a < t.len() implies n.contains_key(#[trigger] t[a].0) && n[t[a].0] == t[a].1 by {
        if a < v.len() {
            assert(m.contains_key(v[a].0));
        }
    }
    assert forall|j: Seq<char>| n.contains_key(j) implies exists|a: int| 0 <= a < t.len() && #[trigger] t[a].0 == j by {
        if j == k {
            assert(t[v.len() as int].0 == j);
        } else {
            let a = choose|a: int| 0 <= a < v.len() && #[trigger] v[a].0 == j;
            assert(t[a].0 == j);
        }
    }
}

/// Taking out the entry at `i` keeps the keyed listing in step with the map.
proof fn lemma_keyed_remove(v: Seq<(Seq<char>, Seq<usize>)>, m: Map<Seq<char>, Seq<usize>>, i: int)
    requires
        keyed(v, m),
        0 <= i < v.len(),
    ensures
        keyed(v.remove(i), m.remove(v[i].0)),
{
    let t = v.remove(i);
    let n = m.remove(v[i].0);
    assert forall|a: int, b: int| 0 <= a < t.len() && 0 <= b < t.len() && a != b implies #[trigger] t[a].0 != #[trigger] t[b].0 by {
        let a2 = if a < i { a } else { a + 1 };
        let b2 = if b < i { b } else { b + 1 };
        assert(t[a] == v[a2] && t[b] == v[b2]);
    }
    assert forall|a: int| 0 <= a < t.len() implies n.contains_key(#[trigger] t[a].0) && n[t[a].0] == t[a].1 by {
        let a2 = if a < i { a } else { a + 1 };
        assert(t[a] == v[a2]);
        assert(v[a2].0 != v[i].0);
    }
    assert forall|k: Seq<char>| n.contains_key(k) implies exists|a: int| 0 <= a < t.len() && #[trigger] t[a].0 == k by {
        let a = choose|a: int| 0 <= a < v.len() && #[trigger] v[a].0 == k;
        assert(a != i);
        if a < i {
            assert(t[a].0 == k);
        } else {
            assert(t[a - 1].0 == k);
        }
    }
}

/// Every tallied week has seven days.
proof fn lemma_daily_weeks(today: i64, acts: Seq<ActivityRow>)
    ensures
        forall|k: Seq<char>| #[trigger] daily(today, acts).contains_key(k) ==> daily(today, acts)[k].len() == 7,
    decreases acts.len(),
{
    if acts.len() > 0 {
        lemma_daily_weeks(today, acts.drop_last());
        let m = daily(today, acts.drop_last());
        assert(zero_days().len() == 7);
        assert forall|k: Seq<char>| #[trigger] daily(today, acts).contains_key(k) implies daily(today, acts)[k].len() == 7 by {
            if m.contains_key(k) {
                assert(m[k].len() == 7);
            }
        }
    }
}

/// The activity of one queue, while it is being tallied.
struct DayCounts {
    queue: String,
    days: Vec<usize>,
}

/// The entries of a tally.
spec fn day_views(v: Seq<DayCounts>) -> Seq<(Seq<char>, Seq<usize>)> {
    v.map_values(|d: DayCounts| (d.queue@, d.days@))
}

/// A week of zero counts.
fn zero_week() -> (r: Vec<usize>)
    ensures
        r@ == zero_days(),
{
    let mut r: Vec<usize> = Vec::new();
    let mut i: usize = 0;
    while i < 7
        invariant
            i <= 7,
            r@ == Seq::new(i as nat, |j: int| 0usize),
        decreases 7 - i,
    {
        r.push(0);
        i = i + 1;
        assert(r@ =~= Seq::new(i as nat, |j: int| 0usize));
    }
    r
}

/// The day number of a time, rounding toward zero.
fn day_of(day: i64) -> (r: i64)
    ensures
        r == day_number(day),
{
    if day >= 0 {
        day / SECS_PER_DAY
    } else {
        let magnitude: i128 = 0i128 - (day as i128);
        let q: i128 = magnitude / (SECS_PER_DAY as i128);
        assert(q <= magnitude);
        (0i128 - q) as i64
    }
}

/// Where the tally of a queue stands, if it has one.
fn find_day(v: &Vec<DayCounts>, name: &String) -> (r: Option<usize>)
    ensures
        match r {
            Some(i) => i < v@.len() && v@[i as int].queue@ == name@,
            None => forall|i: int| 0 <= i < v@.len() ==> v@[i].queue@ != name@,
        },
{
    let mut i: usize = 0;
    while i < v.len()
        invariant
            i <= v@.len(),
            forall|j: int| 0 <= j < i ==> v@[j].queue@ != name@,
        decreases v@.len() - i,
    {
        if v[i].queue == *name {
            return Some(i);
        }
        i = i + 1;
    }
    None
}

/// Whether every row's offset from `today` fits in an `i64`.
pub fn offsets_fit_exec(today: i64, acts: &Vec<ActivityRow>) -> (r: bool)
    ensures
        r == offsets_fit(today, acts@),
{
    let mut i: usize = 0;
    while i < acts.len()
        invariant
            i <= acts@.len(),
            forall|j: int| 0 <= j < i ==> i64::MIN <= #[trigger] day_offset(today, acts@[j].day) <= i64::MAX,
        decreases acts@.len() - i,
    {
        let d = day_of(acts[i].day);
        let off: i128 = (today as i128) - (d as i128);
        if off < (i64::MIN as i128) || off > (i64::MAX as i128) {
            assert(!(i64::MIN <= day_offset(today, acts@[i as int].day) <= i64::MAX));
            return false;
        }
        i = i + 1;
    }
    true
}

/// The weekly activity per queue, from the activity rows.
fn tally_activity(acts: &Vec<ActivityRow>, today: i64) -> (r: Vec<DayCounts>)
    requires
        offsets_fit(today, acts@),
    ensures
        keyed(day_views(r@), daily(today, acts@)),
{
    let mut tally: Vec<DayCounts> = Vec::new();
    let mut i: usize = 0;
    assert(keyed(day_views(tally@), daily(today, acts@.take(0))));
    while i < acts.len()
        invariant
            i <= acts@.len(),
            offsets_fit(today, acts@),
            keyed(day_views(tally@), daily(today, acts@.take(i as int))),
        decreases acts@.len() - i,
    {
        let row = &acts[i];
        let ghost pre = acts@.take(i as int);
        let ghost m = daily(today, pre);
        proof {
            assert(acts@.take(i + 1).drop_last() =~= pre);
            assert(acts@.take(i + 1).last() == acts@[i as int]);
            assert(i64::MIN <= day_offset(today, acts@[i as int].day) <= i64::MAX);
        }
        let offset = today - day_of(row.day);
        if 0 <= offset && offset < ACTIVITY_DAYS {
            let slot = (ACTIVITY_DAYS - 1 - offset) as usize;
            match find_day(&tally, &row.queue) {
                Some(j) => {
                    proof {
                        assert(day_views(tally@)[j as int].0 == row.queue@);
                        lemma_daily_weeks(today, pre);
                        assert(m.contains_key(day_views(tally@)[j as int].0));
                        assert(tally@[j as int].days@.len() == 7);
                    }
                    let ghost before = tally@;
                    let mut entry = tally.remove(j);
                    entry.days.set(slot, #[verifier::truncate] (row.done_count as usize));
                    let ghost new_days = entry.days@;
                    tally.insert(j, entry);
                    proof {
                        assert(tally@ =~= before.update(j as int, tally@[j as int]));
                        assert(day_views(tally@) =~= day_views(before).update(j as int, (row.queue@, new_days)));
                        lemma_keyed_update(day_views(before), m, j as int, new_days);
                    }
                },
                None => {
                    let mut days = zero_week();
                    days.set(slot, #[verifier::truncate] (row.done_count as usize));
                    let ghost before_push = day_views(tally@);
                    proof {
                        if m.contains_key(row.queue@) {
                            let a = choose|a: int| 0 <= a < before_push.len() && #[trigger] before_push[a].0 == row.queue@;
                            assert(tally@[a].queue@ == row.queue@);
                        }
                        lemma_keyed_push(before_push, m, row.queue@, days@);
                    }
                    tally.push(DayCounts { queue: row.queue.clone(), days });
                    proof {
                        assert(day_views(tally@) =~= before_push.push((row.queue@, days@)));
                    }
                },
            }
        }
        i = i + 1;
    }
    proof {
        assert(acts@.take(acts@.len() as int) =~= acts@);
    }
    tally
}

/// The oldest pending job recorded for a queue (the last row for it wins).
fn find_oldest(rows: &Vec<QueueOldestRow>, name: &String) -> (r: Option<i64>)
    ensures
        r == oldest_for(rows@, name@),
{
    let mut i: usize = rows.len();
    assert(rows@.take(i as int) =~= rows@);
    while i > 0
        invariant
            i <= rows@.len(),
            oldest_for(rows@, name@) == oldest_for(rows@.take(i as int), name@),
        decreases i,
    {
        i = i - 1;
        proof {
            assert(rows@.take(i + 1).drop_last() =~= rows@.take(i as int));
            assert(rows@.take(i + 1).last() == rows@[i as int]);
        }
        if rows[i].queue == *name {
            return rows[i].oldest_unix;
        }
    }
    None
}

/// Where a queue stands in a sorted listing: `Ok` with its position, or
/// `Err` with the position it would take.
fn locate(v: &Vec<QueueSummary>, name: &String) -> (r: Result<usize, usize>)
    requires
        forall|i: int, j: int| 0 <= i < j < v@.len() ==> text_before(#[trigger] v@[i].name@, #[trigger] v@[j].name@),
    ensures
        match r {
            Ok(i) => i < v@.len() && v@[i as int].name@ == name@,
            Err(p) => {
                &&& p <= v@.len()
                &&& forall|j: int| 0 <= j < p ==> text_before((#[trigger] v@[j]).name@, name@)
                &&& forall|j: int| p <= j < v@.len() ==> text_before(name@, (#[trigger] v@[j]).name@)
            },
        },
{
    let mut i: usize = 0;
    while i < v.len()
        invariant
            i <= v@.len(),
            forall|i: int, j: int| 0 <= i < j < v@.len() ==> text_before(#[trigger] v@[i].name@, #[trigger] v@[j].name@),
            forall|j: int| 0 <= j < i ==> text_before((#[trigger] v@[j]).name@, name@),
        decreases v@.len() - i,
    {
        match text_order(v[i].name.as_str(), name.as_str()) {
            TextOrder::Same => {
                return Ok(i);
            },
            TextOrder::After => {
                assert forall|j: int| i <= j < v@.len() implies text_before(name@, (#[trigger] v@[j]).name@) by {
                    if j > i {
                        crate::text::lemma_before_transitive(name@, v@[i as int].name@, v@[j].name@);
                    }
                }
                return Err(i);
            },
            TextOrder::Before => {},
        }
        i = i + 1;
    }
    Err(i)
}

/// The entry of a queue that only workers mention.
fn idle_summary(name: String) -> (r: QueueSummary)
    ensures
        r@ == idle_queue(name@),
{
    let zero = OverviewCounts::zero();
    let stats = build_statistics(&zero, None, "0", "0");
    let r = QueueSummary { name, stats, workers: Vec::new(), activity: zero_week() };
    assert(texts(r.workers@) =~= Seq::<Seq<char>>::empty());
    r
}

/// Put a queue into a sorted listing: in place of the one of the same name,
/// or at its place.
fn put_queue(queues: &mut Vec<QueueSummary>, q: QueueSummary, Ghost(m): Ghost<Map<Seq<char>, QueueView>>)
    requires
        sorted_listing(queue_views(old(queues)@), m),
    ensures
        sorted_listing(queue_views(final(queues)@), m.insert(q@.name, q@)),
{
    let ghost before = queues@;
    proof {
        assert forall|i: int, j: int| 0 <= i < j < before.len() implies text_before(#[trigger] before[i].name@, #[trigger] before[j].name@) by {
            assert(queue_views(before)[i].name == before[i].name@);
            assert(queue_views(before)[j].name == before[j].name@);
        }
    }
    let ghost qv = q@;
    match locate(queues, &q.name) {
        Ok(i) => {
            queues.set(i, q);
            proof {
                assert(queue_views(queues@) =~= queue_views(before).update(i as int, qv));
                lemma_listing_replace(queue_views(before), m, i as int, qv);
            }
        },
        Err(p) => {
            queues.insert(p, q);
            proof {
                assert(queue_views(queues@) =~= queue_views(before).insert(p as int, qv));
                lemma_listing_insert(queue_views(before), m, p as int, qv);
            }
        },
    }
}

/// The queue overview: one entry per queue that an aggregate row or a worker
/// names, in the order of the names. A queue's statistics come from its
/// aggregate row and its oldest pending job; its activity counts the jobs
/// finished on each of the last seven days, oldest day first; its workers
/// are listed in the order of the worker rows.
pub fn list_queues(
    counts: &Vec<QueueCountsRow>,
    oldest: &Vec<QueueOldestRow>,
    acts: &Vec<ActivityRow>,
    workers: &Vec<QueueWorkerRow>,
    today: i64,
) -> (r: Vec<QueueSummary>)
    requires
        offsets_fit(today, acts@),
    ensures
        sorted_listing(queue_views(r@), queue_map(counts@, oldest@, acts@, workers@, today)),
{
    let mut days = tally_activity(acts, today);
    let ghost all_days = daily(today, acts@);
    let mut queues: Vec<QueueSummary> = Vec::new();
    let mut i: usize = 0;
    proof {
        assert(counts@.take(0) =~= Seq::<QueueCountsRow>::empty());
        assert(queue_views(queues@) =~= Seq::<QueueView>::empty());
    }
    while i < counts.len()
        invariant
            i <= counts@.len(),
            all_days == daily(today, acts@),
            sorted_listing(queue_views(queues@), counted(counts@.take(i as int), oldest@, all_days).0),
            keyed(day_views(days@), counted(counts@.take(i as int), oldest@, all_days).1),
        decreases counts@.len() - i,
    {
        let row = &counts[i];
        let ghost (m, d) = counted(counts@.take(i as int), oldest@, all_days);
        proof {
            assert(counts@.take(i + 1).drop_last() =~= counts@.take(i as int));
            assert(counts@.take(i + 1).last() == counts@[i as int]);
        }
        let name = row.queue.clone();
        let oldest_unix = find_oldest(oldest, &name);
        let stats = build_statistics(&row.counts, oldest_unix, row.success_rate.as_str(), row.avg_duration.as_str());
        let activity = match find_day(&days, &name) {
            Some(j) => {
                let ghost before = day_views(days@);
                proof {
                    assert(before[j as int].0 == name@);
                    lemma_keyed_remove(before, d, j as int);
                }
                let entry = days.remove(j);
                proof {
                    assert(day_views(days@) =~= before.remove(j as int));
                }
                entry.days
            },
            None => {
                proof {
                    if d.contains_key(name@) {
                        let a = choose|a: int| 0 <= a < day_views(days@).len() && #[trigger] day_views(days@)[a].0 == name@;
                        assert(days@[a].queue@ == name@);
                    }
                    assert(d.remove(name@) =~= d);
                }
                zero_week()
            },
        };
        let q = QueueSummary { name, stats, workers: Vec::new(), activity };
        proof {
            assert(texts(q.workers@) =~= Seq::<Seq<char>>::empty());
        }
        put_queue(&mut queues, q, Ghost(m));
        i = i + 1;
    }
    proof {
        assert(counts@.take(counts@.len() as int) =~= counts@);
    }
    let ghost base = counted(counts@, oldest@, all_days).0;
    let mut w: usize = 0;
    proof {
        assert(workers@.take(0) =~= Seq::<QueueWorkerRow>::empty());
    }
    while w < workers.len()
        invariant
            w <= workers@.len(),
            sorted_listing(queue_views(queues@), staffed(base, workers@.take(w as int))),
        decreases workers@.len() - w,
    {
        let row = &workers[w];
        let ghost m = staffed(base, workers@.take(w as int));
        proof {
            assert(workers@.take(w + 1).drop_last() =~= workers@.take(w as int));
            assert(workers@.take(w + 1).last() == workers@[w as int]);
        }
        let ghost before = queues@;
        proof {
            assert forall|a: int, b: int| 0 <= a < b < before.len() implies text_before(#[trigger] before[a].name@, #[trigger] before[b].name@) by {
                assert(queue_views(before)[a].name == before[a].name@);
                assert(queue_views(before)[b].name == before[b].name@);
            }
        }
        match locate(&queues, &row.queue) {
            Ok(j) => {
                let mut q = queues.remove(j);
                proof {
                    assert(queue_views(before)[j as int] == q@);
                    assert(queue_views(before)[j as int].name == row.queue@);
                    assert(m.contains_key(row.queue@) && m[row.queue@] == q@);
                }
                q.workers.push(row.name.clone());
                let ghost qv = q@;
                proof {
                    assert(qv.workers =~= m[row.queue@].workers.push(row.name@));
                    assert(qv == QueueView { workers: m[row.queue@].workers.push(row.name@), ..m[row.queue@] });
                }
                queues.insert(j, q);
                proof {
                    assert(queue_views(queues@) =~= queue_views(before).update(j as int, qv));
                    lemma_listing_replace(queue_views(before), m, j as int, qv);
                }
            },
            Err(p) => {
                proof {
                    if m.contains_key(row.queue@) {
                        let a = choose|a: int| 0 <= a < queue_views(before).len() && #[trigger] queue_views(before)[a].name == row.queue@;
                        assert(queue_views(before)[a].name == before[a].name@);
                        crate::text::lemma_before_irreflexive(row.queue@);
                    }
                }
                let mut q = idle_summary(row.queue.clone());
                q.workers.push(row.name.clone());
                let ghost qv = q@;
                proof {
                    assert(qv.workers =~= idle_queue(row.queue@).workers.push(row.name@));
                    assert(qv == QueueView { workers: idle_queue(row.queue@).workers.push(row.name@), ..idle_queue(row.queue@) });
                }
                queues.insert(p, q);
                proof {
                    assert(queue_views(queues@) =~= queue_views(before).insert(p as int, qv));
                    lemma_listing_insert(queue_views(before), m, p as int, qv);
                }
            },
        }
        w = w + 1;
    }
    proof {
        assert(workers@.take(workers@.len() as int) =~= workers@);
    }
    queues
}

/// Every worker row is listed under its queue: the queue is in the
/// overview, and its workers include that worker.
pub proof fn law_every_worker_listed(m: Map<Seq<char>, QueueView>, workers: Seq<QueueWorkerRow>, i: int)
    requires
        0 <= i < workers.len(),
    ensures
        staffed(m, workers).contains_key(workers[i].queue@),
        staffed(m, workers)[workers[i].queue@].workers.contains(workers[i].name@),
    decreases workers.len(),
{
    let m2 = staffed(m, workers.drop_last());
    let w = workers.last();
    let base = if m2.contains_key(w.queue@) { m2[w.queue@] } else { idle_queue(w.queue@) };
    let pushed = base.workers.push(w.name@);
    if i == workers.len() - 1 {
        assert(pushed[pushed.len() - 1] == w.name@);
    } else {
        law_every_worker_listed(m, workers.drop_last(), i);
        let q = workers[i].queue@;
        assert(workers.drop_last()[i] == workers[i]);
        if q == w.queue@ {
            let j = choose|j: int| 0 <= j < m2[q].workers.len() && m2[q].workers[j] == workers[i].name@;
            assert(pushed[j] == workers[i].name@);
        }
    }
}

/// Every queue that an aggregate row names is in the overview.
pub proof fn law_every_counted_queue_listed(
    counts: Seq<QueueCountsRow>,
    oldest: Seq<QueueOldestRow>,
    days: Map<Seq<char>, Seq<usize>>,
    workers: Seq<QueueWorkerRow>,
    i: int,
)
    requires
        0 <= i < counts.len(),
    ensures
        staffed(counted(counts, oldest, days).0, workers).contains_key(counts[i].queue@),
    decreases counts.len(),
{
    lemma_counted_has(counts, oldest, days, i);
    lemma_staffed_keeps(counted(counts, oldest, days).0, workers, counts[i].queue@);
}

/// The queues after the aggregate rows include each row's queue.
proof fn lemma_counted_has(counts: Seq<QueueCountsRow>, oldest: Seq<QueueOldestRow>, days: Map<Seq<char>, Seq<usize>>, i: int)
    requires
        0 <= i < counts.len(),
    ensures
        counted(counts, oldest, days).0.contains_key(counts[i].queue@),
    decreases counts.len(),
{
    if i < counts.len() - 1 {
        lemma_counted_has(counts.drop_last(), oldest, days, i);
        assert(counts.drop_last()[i] == counts[i]);
    }
}

/// Worker rows never take a queue out.
proof fn lemma_staffed_keeps(m: Map<Seq<char>, QueueView>, workers: Seq<QueueWorkerRow>, k: Seq<char>)
    requires
        m.contains_key(k),
    ensures
        staffed(m, workers).contains_key(k),
    decreases workers.len(),
{
    if workers.len() > 0 {
        lemma_staffed_keeps(m, workers.drop_last(), k);
    }
}

/// Every queue of the overview reports a week: seven daily counts.
pub proof fn law_activity_is_a_week(
    counts: Seq<QueueCountsRow>,
    oldest: Seq<QueueOldestRow>,
    acts: Seq<ActivityRow>,
    workers: Seq<QueueWorkerRow>,
    today: i64,
    k: Seq<char>,
)
    requires
        queue_map(counts, oldest, acts, workers, today).contains_key(k),
    ensures
        queue_map(counts, oldest, acts, workers, today)[k].activity.len() == 7,
{
    lemma_daily_weeks(today, acts);
    lemma_counted_weeks(counts, oldest, daily(today, acts));
    lemma_staffed_weeks(counted(counts, oldest, daily(today, acts)).0, workers);
}

/// Aggregate rows give every queue a week, when the tallies are weeks.
proof fn lemma_counted_weeks(counts: Seq<QueueCountsRow>, oldest: Seq<QueueOldestRow>, days: Map<Seq<char>, Seq<usize>>)
    requires
        forall|k: Seq<char>| #[trigger] days.contains_key(k) ==> days[k].len() == 7,
    ensures
        forall|k: Seq<char>| #[trigger] counted(counts, oldest, days).0.contains_key(k) ==> counted(counts, oldest, days).0[k].activity.len() == 7,
        forall|k: Seq<char>| #[trigger] counted(counts, oldest, days).1.contains_key(k) ==> counted(counts, oldest, days).1[k].len() == 7,
    decreases counts.len(),
{
    if counts.len() > 0 {
        lemma_counted_weeks(counts.drop_last(), oldest, days);
        assert(zero_days().len() == 7);
        let (m, d) = counted(counts.drop_last(), oldest, days);
        let name = counts.last().queue@;
        assert forall|k: Seq<char>| #[trigger] counted(counts, oldest, days).0.contains_key(k)
            implies counted(counts, oldest, days).0[k].activity.len() == 7 by {
            if k != name {
                assert(m.contains_key(k));
            } else if d.contains_key(name) {
                assert(d[name].len() == 7);
            }
        }
        assert forall|k: Seq<char>| #[trigger] counted(counts, oldest, days).1.contains_key(k)
            implies counted(counts, oldest, days).1[k].len() == 7 by {
            assert(d.contains_key(k));
        }
    }
}

/// Worker rows keep every queue's week a week.
proof fn lemma_staffed_weeks(m: Map<Seq<char>, QueueView>, workers: Seq<QueueWorkerRow>)
    requires
        forall|k: Seq<char>| #[trigger] m.contains_key(k) ==> m[k].activity.len() == 7,
    ensures
        forall|k: Seq<char>| #[trigger] staffed(m, workers).contains_key(k) ==> staffed(m, workers)[k].activity.len() == 7,
    decreases workers.len(),
{
    if workers.len() > 0 {
        lemma_staffed_weeks(m, workers.drop_last());
        assert(zero_days().len() == 7);
        let m2 = staffed(m, workers.drop_last());
        let q = workers.last().queue@;
        assert forall|k: Seq<char>| #[trigger] staffed(m, workers).contains_key(k)
            implies staffed(m, workers)[k].activity.len() == 7 by {
            if k != q {
                assert(m2.contains_key(k));
            } else if m2.contains_key(q) {
                assert(m2[q].activity.len() == 7);
            }
        }
    }
}

/// Row `i` is the last aggregate row that names its queue.
pub open spec fn last_row_for(counts: Seq<QueueCountsRow>, i: int) -> bool {
    &&& 0 <= i < counts.len()
    &&& forall|j: int| i < j < counts.len() ==> #[trigger] counts[j].queue@ != counts[i].queue@
}

/// A queue's statistics come from the last aggregate row that names it,
/// whatever else the rows hold.
proof fn lemma_counted_stats(counts: Seq<QueueCountsRow>, oldest: Seq<QueueOldestRow>, days: Map<Seq<char>, Seq<usize>>, i: int)
    requires
        last_row_for(counts, i),
    ensures
        counted(counts, oldest, days).0.contains_key(counts[i].queue@),
        counted(counts, oldest, days).0[counts[i].queue@].stats == statistics(
            counts[i].counts,
            oldest_for(oldest, counts[i].queue@),
            counts[i].success_rate@,
            counts[i].avg_duration@,
        ),
    decreases counts.len(),
{
    if i < counts.len() - 1 {
        assert(counts.drop_last()[i] == counts[i]);
        assert forall|j: int| i < j < counts.drop_last().len() implies #[trigger] counts.drop_last()[j].queue@ != counts.drop_last()[i].queue@ by {
            assert(counts.drop_last()[j] == counts[j]);
        }
        lemma_counted_stats(counts.drop_last(), oldest, days, i);
        assert(counts[counts.len() - 1].queue@ != counts[i].queue@);
    }
}

/// Worker rows leave the statistics of a queue as they were.
proof fn lemma_staffed_stats(m: Map<Seq<char>, QueueView>, workers: Seq<QueueWorkerRow>, k: Seq<char>)
    requires
        m.contains_key(k),
    ensures
        staffed(m, workers).contains_key(k),
        staffed(m, workers)[k].stats == m[k].stats,
        staffed(m, workers)[k].activity == m[k].activity,
    decreases workers.len(),
{
    if workers.len() > 0 {
        lemma_staffed_stats(m, workers.drop_last(), k);
    }
}

/// In the overview, a queue's statistics are those of the last aggregate row
/// that names it, with the oldest pending job recorded for it: its counts
/// each under their own title, its success rate under `SUCCESS_RATE` when it
/// has jobs, and its average duration under `AVG_JOB_DURATION_MINS` when jobs
/// finished.
pub proof fn law_queue_statistics_from_its_row(
    counts: Seq<QueueCountsRow>,
    oldest: Seq<QueueOldestRow>,
    acts: Seq<ActivityRow>,
    workers: Seq<QueueWorkerRow>,
    today: i64,
    i: int,
)
    requires
        last_row_for(counts, i),
    ensures
        ({
            let row = counts[i];
            let m = queue_map(counts, oldest, acts, workers, today);
            &&& m.contains_key(row.queue@)
            &&& m[row.queue@].stats == statistics(row.counts, oldest_for(oldest, row.queue@), row.success_rate@, row.avg_duration@)
            &&& row.counts.total > 0 ==> carries(m[row.queue@].stats, "SUCCESS_RATE"@, row.success_rate@)
            &&& row.counts.finished > 0 ==> carries(m[row.queue@].stats, "AVG_JOB_DURATION_MINS"@, row.avg_duration@)
            &&& carries(m[row.queue@].stats, "DONE_JOBS"@, decimal(row.counts.done as int))
            &&& carries(m[row.queue@].stats, "KILLED_JOBS"@, decimal(row.counts.killed as int))
            &&& carries(m[row.queue@].stats, "TOTAL_JOBS"@, decimal(row.counts.total as int))
        }),
{
    let row = counts[i];
    let base = counted(counts, oldest, daily(today, acts)).0;
    lemma_counted_stats(counts, oldest, daily(today, acts), i);
    lemma_staffed_stats(base, workers, row.queue@);
    law_statistics_carry_their_counts(row.counts, oldest_for(oldest, row.queue@), row.success_rate@, row.avg_duration@);
}

/// The oldest pending job of a queue is the one its last row records, and
/// there is none when no row names the queue.
pub proof fn law_oldest_from_last_row(rows: Seq<QueueOldestRow>, name: Seq<char>, i: int)
    requires
        0 <= i < rows.len() ==> rows[i].queue@ == name && forall|j: int| i < j < rows.len() ==> #[trigger] rows[j].queue@ != name,
        !(0 <= i < rows.len()) ==> forall|j: int| 0 <= j < rows.len() ==> #[trigger] rows[j].queue@ != name,
    ensures
        0 <= i < rows.len() ==> oldest_for(rows, name) == rows[i].oldest_unix,
        !(0 <= i < rows.len()) ==> oldest_for(rows, name) is None,
    decreases rows.len(),
{
    if rows.len() > 0 {
        let n = rows.len() - 1;
        if i != n {
            let r2 = rows.drop_last();
            assert(rows[n].queue@ != name);
            if 0 <= i < rows.len() {
                assert forall|j: int| i < j < r2.len() implies #[trigger] r2[j].queue@ != name by {
                    assert(r2[j] == rows[j]);
                }
                assert(r2[i] == rows[i]);
                law_oldest_from_last_row(r2, name, i);
            } else {
                assert forall|j: int| 0 <= j < r2.len() implies #[trigger] r2[j].queue@ != name by {
                    assert(r2[j] == rows[j]);
                }
                law_oldest_from_last_row(r2, name, -1);
            }
        }
    }
}

/// Row `i` of the activity is the last that gives its queue's count for its
/// day within the week.
pub open spec fn last_activity_for(today: i64, acts: Seq<ActivityRow>, i: int) -> bool {
    &&& 0 <= i < acts.len()
    &&& 0 <= day_offset(today, acts[i].day) < ACTIVITY_DAYS
    &&& forall|j: int| i < j < acts.len() && #[trigger] acts[j].queue@ == acts[i].queue@
        ==> day_offset(today, acts[j].day) != day_offset(today, acts[i].day)
}

/// A queue's week shows, for each of the last seven days, the count of the
/// last activity row for that queue and day, the oldest day first: the row
/// `off` days before today sits at position `6 - off`.
pub proof fn law_activity_from_last_row(today: i64, acts: Seq<ActivityRow>, i: int)
    requires
        last_activity_for(today, acts, i),
    ensures
        daily(today, acts).contains_key(acts[i].queue@),
        daily(today, acts)[acts[i].queue@][ACTIVITY_DAYS - 1 - day_offset(today, acts[i].day)] == acts[i].done_count as usize,
    decreases acts.len(),
{
    let n = acts.len() - 1;
    let q = acts[i].queue@;
    let off = day_offset(today, acts[i].day);
    lemma_daily_weeks(today, acts.drop_last());
    assert(zero_days().len() == 7);
    if i < n {
        let a2 = acts.drop_last();
        assert(a2[i] == acts[i]);
        assert forall|j: int| i < j < a2.len() && #[trigger] a2[j].queue@ == a2[i].queue@
            implies day_offset(today, a2[j].day) != day_offset(today, a2[i].day) by {
            assert(a2[j] == acts[j]);
        }
        law_activity_from_last_row(today, a2, i);
        let m = daily(today, a2);
        assert(m[q].len() == 7);
        let last = acts[n];
        if acts[n].queue@ == q {
            assert(day_offset(today, last.day) != off);
        }
        assert(acts.drop_last() == a2);
        assert(acts.last() == last);
    } else {
        let m = daily(today, acts.drop_last());
        let cur = if m.contains_key(q) { m[q] } else { zero_days() };
        assert(cur.len() == 7);
        assert(acts.last() == acts[i]);
        assert(daily(today, acts) == m.insert(q, cur.update(ACTIVITY_DAYS - 1 - off, acts[i].done_count as usize)));
    }
}

/// A day of the week for which no activity row of a queue falls shows zero.
pub proof fn law_quiet_day_is_zero(today: i64, acts: Seq<ActivityRow>, q: Seq<char>, off: int)
    requires
        0 <= off < ACTIVITY_DAYS,
        daily(today, acts).contains_key(q),
        forall|j: int| 0 <= j < acts.len() && #[trigger] acts[j].queue@ == q ==> day_offset(today, acts[j].day) != off,
    ensures
        daily(today, acts)[q][ACTIVITY_DAYS - 1 - off] == 0,
    decreases acts.len(),
{
    let n = acts.len() - 1;
    let a2 = acts.drop_last();
    lemma_daily_weeks(today, a2);
    assert(zero_days().len() == 7);
    let m = daily(today, a2);
    assert forall|j: int| 0 <= j < a2.len() && #[trigger] a2[j].queue@ == q implies day_offset(today, a2[j].day) != off by {
        assert(a2[j] == acts[j]);
    }
    if m.contains_key(q) {
        law_quiet_day_is_zero(today, a2, q, off);
    }
    if acts[n].queue@ == q {
        assert(day_offset(today, acts[n].day) != off);
    }
}

/// Aggregate rows that do not name a queue leave its tallied week untaken.
proof fn lemma_counted_untouched(counts: Seq<QueueCountsRow>, oldest: Seq<QueueOldestRow>, days: Map<Seq<char>, Seq<usize>>, q: Seq<char>)
    requires
        forall|j: int| 0 <= j < counts.len() ==> #[trigger] counts[j].queue@ != q,
    ensures
        counted(counts, oldest, days).1.contains_key(q) == days.contains_key(q),
        days.contains_key(q) ==> counted(counts, oldest, days).1[q] == days[q],
    decreases counts.len(),
{
    if counts.len() > 0 {
        let c2 = counts.drop_last();
        assert forall|j: int| 0 <= j < c2.len() implies #[trigger] c2[j].queue@ != q by {
            assert(c2[j] == counts[j]);
        }
        lemma_counted_untouched(c2, oldest, days, q);
        assert(counts[counts.len() - 1].queue@ != q);
    }
}

/// A queue named by one aggregate row alone takes its whole tallied week,
/// or a week of zeros when nothing was tallied for it.
proof fn lemma_counted_activity(counts: Seq<QueueCountsRow>, oldest: Seq<QueueOldestRow>, days: Map<Seq<char>, Seq<usize>>, i: int)
    requires
        0 <= i < counts.len(),
        forall|j: int| 0 <= j < counts.len() && j != i ==> #[trigger] counts[j].queue@ != counts[i].queue@,
    ensures
        counted(counts, oldest, days).0.contains_key(counts[i].queue@),
        counted(counts, oldest, days).0[counts[i].queue@].activity
            == if days.contains_key(counts[i].queue@) { days[counts[i].queue@] } else { zero_days() },
    decreases counts.len(),
{
    let q = counts[i].queue@;
    let c2 = counts.drop_last();
    let n = counts.len() - 1;
    if i == n {
        assert forall|j: int| 0 <= j < c2.len() implies #[trigger] c2[j].queue@ != q by {
            assert(c2[j] == counts[j]);
        }
        lemma_counted_untouched(c2, oldest, days, q);
    } else {
        assert(c2[i] == counts[i]);
        assert forall|j: int| 0 <= j < c2.len() && j != i implies #[trigger] c2[j].queue@ != c2[i].queue@ by {
            assert(c2[j] == counts[j]);
        }
        lemma_counted_activity(c2, oldest, days, i);
        assert(counts[n].queue@ != q);
    }
}

/// In the overview, a queue that one aggregate row alone names shows the
/// week tallied for it from the activity rows, or seven zeros when no row of
/// the last seven days mentions it.
pub proof fn law_queue_activity_is_its_week(
    counts: Seq<QueueCountsRow>,
    oldest: Seq<QueueOldestRow>,
    acts: Seq<ActivityRow>,
    workers: Seq<QueueWorkerRow>,
    today: i64,
    i: int,
)
    requires
        0 <= i < counts.len(),
        forall|j: int| 0 <= j < counts.len() && j != i ==> #[trigger] counts[j].queue@ != counts[i].queue@,
    ensures
        ({
            let q = counts[i].queue@;
            let d = daily(today, acts);
            &&& queue_map(counts, oldest, acts, workers, today).contains_key(q)
            &&& queue_map(counts, oldest, acts, workers, today)[q].activity == if d.contains_key(q) { d[q] } else { zero_days() }
        }),
{
    let q = counts[i].queue@;
    let base = counted(counts, oldest, daily(today, acts)).0;
    lemma_counted_activity(counts, oldest, daily(today, acts), i);
    lemma_staffed_stats(base, workers, q);
}

/// Aggregate rows that do not name a queue do not make it.
proof fn lemma_counted_lacks(counts: Seq<QueueCountsRow>, oldest: Seq<QueueOldestRow>, days: Map<Seq<char>, Seq<usize>>, q: Seq<char>)
    requires
        forall|j: int| 0 <= j < counts.len() ==> #[trigger] counts[j].queue@ != q,
    ensures
        !counted(counts, oldest, days).0.contains_key(q),
    decreases counts.len(),
{
    if counts.len() > 0 {
        let c2 = counts.drop_last();
        assert forall|j: int| 0 <= j < c2.len() implies #[trigger] c2[j].queue@ != q by {
            assert(c2[j] == counts[j]);
        }
        lemma_counted_lacks(c2, oldest, days, q);
        assert(counts[counts.len() - 1].queue@ != q);
    }
}

/// A queue that worker rows bring in is idle: zero statistics, a quiet week.
proof fn lemma_staffed_idle(m: Map<Seq<char>, QueueView>, workers: Seq<QueueWorkerRow>, q: Seq<char>)
    requires
        !m.contains_key(q),
    ensures
        staffed(m, workers).contains_key(q) ==> staffed(m, workers)[q].stats == idle_queue(q).stats
            && staffed(m, workers)[q].activity == zero_days(),
    decreases workers.len(),
{
    if workers.len() > 0 {
        lemma_staffed_idle(m, workers.drop_last(), q);
    }
}

/// In the overview, a queue that only workers name has the statistics of an
/// empty scope (every count `0`, no oldest pending job) and a week of zeros.
pub proof fn law_worker_only_queue_is_idle(
    counts: Seq<QueueCountsRow>,
    oldest: Seq<QueueOldestRow>,
    acts: Seq<ActivityRow>,
    workers: Seq<QueueWorkerRow>,
    today: i64,
    w: int,
)
    requires
        0 <= w < workers.len(),
        forall|j: int| 0 <= j < counts.len() ==> #[trigger] counts[j].queue@ != workers[w].queue@,
    ensures
        ({
            let q = workers[w].queue@;
            let m = queue_map(counts, oldest, acts, workers, today);
            &&& m.contains_key(q)
            &&& m[q].stats == statistics(OverviewCounts::zero_spec(), None, "0"@, "0"@)
            &&& carries(m[q].stats, "TOTAL_JOBS"@, decimal(0))
            &&& carries(m[q].stats, "SUCCESS_RATE"@, "0"@)
            &&& m[q].activity == zero_days()
        }),
{
    let q = workers[w].queue@;
    let base = counted(counts, oldest, daily(today, acts)).0;
    lemma_counted_lacks(counts, oldest, daily(today, acts), q);
    law_every_worker_listed(base, workers, w);
    lemma_staffed_idle(base, workers, q);
    law_statistics_carry_their_counts(OverviewCounts::zero_spec(), None, "0"@, "0"@);
}

} // verus!
