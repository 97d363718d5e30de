//! Transactions: what the errors of a `BEGIN .. COMMIT` batch mean, and when
//! to try the batch again.
use vstd::prelude::*;
use vstd::string::*;

use crate::text::{contains_exec, contains_text};

use crate::errors::SurrealError;
use std::collections::HashMap;

verus! {

/// How many times a transaction is attempted before a conflict is surfaced.
pub const MAX_TX_RETRIES: usize = 5;

/// The text by which a conflict is recognised in an error message.
pub const CONFLICT_TEXT: &'static str = "Transaction conflict";

/// The structured query failure that an error carries, if any.
#[derive(Clone, Copy, Debug, PartialEq, Eq, Structural)]
pub enum QueryDetail {
    /// The error is not a query error, or carries no details.
    Absent,
    /// The statement was not executed (a sibling failed).
    NotExecuted,
    /// The statement timed out.
    TimedOut,
    /// The statement was cancelled.
    Cancelled,
    /// The transaction conflicted with another one and may be retried.
    TransactionConflict,
    /// A failure that this library does not know by name.
    Unrecognized,
}

/// What an error of a transaction batch stands for.
#[derive(Clone, Copy, Debug, PartialEq, Eq, Structural)]
pub enum TxErrorKind {
    /// A conflict: the whole transaction may be retried.
    Conflict,
    /// The statement was skipped because another one failed: noise.
    NotExecuted,
    /// A real failure.
    Other,
}

/// What to do with a transaction batch.
#[derive(Clone, Copy, Debug, PartialEq, Eq, Structural)]
pub enum TxVerdict {
    /// Run the batch again.
    Retry,
    /// Give up and report the error.
    Fail,
}

/// The kind of an error from its query detail and its message.
pub open spec fn error_kind_of(detail: QueryDetail, message: Seq<char>) -> TxErrorKind {
    if detail == QueryDetail::TransactionConflict || contains_text(message, CONFLICT_TEXT@) {
        TxErrorKind::Conflict
    } else if detail == QueryDetail::NotExecuted {
        TxErrorKind::NotExecuted
    } else {
        TxErrorKind::Other
    }
}

/// The kind of an error, from its query detail and its message: a conflict
/// when the detail says so or the message mentions one, noise when the
/// statement was not executed, a real failure otherwise.
pub fn error_kind(detail: QueryDetail, message: &str) -> (k: TxErrorKind)
    ensures
        k == error_kind_of(detail, message@),
{
    if detail == QueryDetail::TransactionConflict || contains_exec(message, CONFLICT_TEXT) {
        TxErrorKind::Conflict
    } else if detail == QueryDetail::NotExecuted {
        TxErrorKind::NotExecuted
    } else {
        TxErrorKind::Other
    }
}

/// There is an error of kind `k` among `slots`.
pub open spec fn has_kind(slots: Seq<(usize, TxErrorKind)>, k: TxErrorKind) -> bool {
    exists|j: int| 0 <= j < slots.len() && #[trigger] slots[j].1 == k
}

/// Position `p` holds an error of kind `k`, in the lowest slot among those of kind `k`.
pub open spec fn lowest_of_kind(slots: Seq<(usize, TxErrorKind)>, k: TxErrorKind, p: int) -> bool {
    &&& 0 <= p < slots.len()
    &&& slots[p].1 == k
    &&& forall|j: int| 0 <= j < slots.len() && #[trigger] slots[j].1 == k ==> slots[p].0 <= slots[j].0
}

/// The verdict on a batch of errors, each given by its slot and its kind: none
/// for no errors; the lowest real failure fails the batch; failing that, the
/// lowest conflict retries it; failing that, the lowest skipped statement fails it.
pub open spec fn tx_verdict(slots: Seq<(usize, TxErrorKind)>, r: Option<(TxVerdict, usize)>) -> bool {
    match r {
        None => slots.len() == 0,
        Some((v, p)) => if has_kind(slots, TxErrorKind::Other) {
            v == TxVerdict::Fail && lowest_of_kind(slots, TxErrorKind::Other, p as int)
        } else if has_kind(slots, TxErrorKind::Conflict) {
            v == TxVerdict::Retry && lowest_of_kind(slots, TxErrorKind::Conflict, p as int)
        } else {
            v == TxVerdict::Fail && lowest_of_kind(slots, TxErrorKind::NotExecuted, p as int)
        },
    }
}

/// Keep `best` pointing at the lowest slot of kind `k` after looking at position `i`.
fn keep_lowest(
    slots: &Vec<(usize, TxErrorKind)>,
    k: TxErrorKind,
    best: Option<usize>,
    i: usize,
) -> (r: Option<usize>)
    requires
        i < slots@.len(),
        best matches Some(b) ==> lowest_of_kind(slots@.subrange(0, i as int), k, b as int),
        best is None ==> !has_kind(slots@.subrange(0, i as int), k),
    ensures
        r matches Some(b) ==> lowest_of_kind(slots@.subrange(0, i + 1), k, b as int),
        r is None ==> !has_kind(slots@.subrange(0, i + 1), k),
{
    let ghost pre = slots@.subrange(0, i as int);
    let ghost post = slots@.subrange(0, i + 1);
    assert(forall|j: int| 0 <= j < i ==> post[j] == pre[j]);
    assert(post[i as int] == slots@[i as int]);
    if slots[i].1 != k {
        proof {
            if best is None {
                assert forall|j: int| 0 <= j < post.len() implies #[trigger] post[j].1 != k by {
                    if j < i {
                        assert(pre[j] == post[j]);
                    }
                }
            }
        }
        return best;
    }
    match best {
        None => {
            assert forall|j: int| 0 <= j < post.len() && #[trigger] post[j].1 == k
                implies post[i as int].0 <= post[j].0 by {
                if j < i {
                    assert(pre[j] == post[j]);
                    assert(has_kind(pre, k));
                }
            }
            Some(i)
        },
        Some(b) => {
            if slots[i].0 < slots[b].0 {
                assert forall|j: int| 0 <= j < post.len() && #[trigger] post[j].1 == k
                    implies post[i as int].0 <= post[j].0 by {
                    if j < i {
                        assert(pre[j] == post[j]);
                    }
                }
                Some(i)
            } else {
                assert forall|j: int| 0 <= j < post.len() && #[trigger] post[j].1 == k
                    implies post[b as int].0 <= post[j].0 by {
                    if j < i {
                        assert(pre[j] == post[j]);
                    }
                }
                Some(b)
            }
        },
    }
}

/// The verdict on a batch of errors, each given by the slot of its statement
/// and its kind, and the position of the error that decides it.
pub fn classify_slots(slots: &Vec<(usize, TxErrorKind)>) -> (r: Option<(TxVerdict, usize)>)
    ensures
        tx_verdict(slots@, r),
        r matches Some((_, p)) ==> p < slots@.len(),
{
    let mut other: Option<usize> = None;
    let mut conflict: Option<usize> = None;
    let mut skipped: Option<usize> = None;
    let mut i: usize = 0;
    while i < slots.len()
        invariant
            i <= slots@.len(),
            other matches Some(b) ==> lowest_of_kind(slots@.subrange(0, i as int), TxErrorKind::Other, b as int),
            other is None ==> !has_kind(slots@.subrange(0, i as int), TxErrorKind::Other),
            conflict matches Some(b) ==> lowest_of_kind(slots@.subrange(0, i as int), TxErrorKind::Conflict, b as int),
            conflict is None ==> !has_kind(slots@.subrange(0, i as int), TxErrorKind::Conflict),
            skipped matches Some(b) ==> lowest_of_kind(slots@.subrange(0, i as int), TxErrorKind::NotExecuted, b as int),
            skipped is None ==> !has_kind(slots@.subrange(0, i as int), TxErrorKind::NotExecuted),
        decreases slots@.len() - i,
    {
        other = keep_lowest(slots, TxErrorKind::Other, other, i);
        conflict = keep_lowest(slots, TxErrorKind::Conflict, conflict, i);
        skipped = keep_lowest(slots, TxErrorKind::NotExecuted, skipped, i);
        i = i + 1;
    }
    assert(slots@.subrange(0, slots@.len() as int) =~= slots@);
    match other {
        Some(p) => Some((TxVerdict::Fail, p)),
        None => match conflict {
            Some(p) => Some((TxVerdict::Retry, p)),
            None => match skipped {
                Some(p) => Some((TxVerdict::Fail, p)),
                None => {
                    if slots.len() > 0 {
                        let k = slots[0].1;
                        assert(has_kind(slots@, k));
                    }
                    None
                },
            },
        },
    }
}

/// The verdict on a batch does not depend on the order in which its errors
/// are listed: two listings of the same slots with the same kinds reach the
/// same verdict through an error in the same slot.
pub proof fn law_verdict_ignores_order(
    a: Seq<(usize, TxErrorKind)>,
    b: Seq<(usize, TxErrorKind)>,
    ra: Option<(TxVerdict, usize)>,
    rb: Option<(TxVerdict, usize)>,
)
    requires
        a.to_set() == b.to_set(),
        tx_verdict(a, ra),
        tx_verdict(b, rb),
    ensures
        ra is None <==> rb is None,
        ra matches Some((va, pa)) ==> rb matches Some((vb, pb)) && va == vb && a[pa as int].0 == b[pb as int].0,
{
    assert forall|k: TxErrorKind| has_kind(a, k) implies has_kind(b, k) by {
        let j = choose|j: int| 0 <= j < a.len() && #[trigger] a[j].1 == k;
        assert(a.to_set().contains(a[j]));
        assert(b.to_set().contains(a[j]));
        let m = choose|m: int| 0 <= m < b.len() && b[m] == a[j];
        assert(b[m].1 == k);
    }
    assert forall|k: TxErrorKind| has_kind(b, k) implies has_kind(a, k) by {
        let j = choose|j: int| 0 <= j < b.len() && #[trigger] b[j].1 == k;
        assert(b.to_set().contains(b[j]));
        assert(a.to_set().contains(b[j]));
        let m = choose|m: int| 0 <= m < a.len() && a[m] == b[j];
        assert(a[m].1 == k);
    }
    if a.len() == 0 {
        if b.len() > 0 {
            assert(b.to_set().contains(b[0]));
        }
    }
    if b.len() == 0 {
        if a.len() > 0 {
            assert(a.to_set().contains(a[0]));
        }
    }
    match (ra, rb) {
        (Some((va, pa)), Some((vb, pb))) => {
            let x = a[pa as int];
            let y = b[pb as int];
            assert(a.to_set().contains(x));
            assert(b.to_set().contains(x));
            let mx = choose|m: int| 0 <= m < b.len() && b[m] == x;
            assert(b.to_set().contains(y));
            assert(a.to_set().contains(y));
            let my = choose|m: int| 0 <= m < a.len() && a[m] == y;
            assert(b[mx].1 == x.1);
            assert(a[my].1 == y.1);
        },
        _ => {},
    }
}

/// How a transaction batch ended: retry it, or give up with this error.
#[derive(Debug)]
pub enum TxOutcome {
    /// The batch conflicted; this is the conflict that decided it.
    Retry(surrealdb::Error),
    /// The batch failed; this is the error that decides it.
    Fail(surrealdb::Error),
}

/// The query detail that surrealdb's `Error::query_details` gives for an error.
pub uninterp spec fn error_detail(err: surrealdb::Error) -> QueryDetail;

/// The message that surrealdb's `Error::message` gives for an error.
pub uninterp spec fn error_text(err: surrealdb::Error) -> Seq<char>;

/// `Error::query_details` of surrealdb: the structured query failure that the
/// error carries. Each variant of `QueryError` is told apart, one arm each;
/// an error that is not a query error, or has no details, gives `Absent`.
/// The claim is that the result is the one named by `error_detail`: the
/// details are a field of the error, read without side effects.
#[verifier::external_body]
fn query_detail(err: &surrealdb::Error) -> (r: QueryDetail)
    ensures
        r == error_detail(*err),
{
    match err.query_details() {
        None => QueryDetail::Absent,
        Some(surrealdb::types::QueryError::NotExecuted) => QueryDetail::NotExecuted,
        Some(surrealdb::types::QueryError::TimedOut { .. }) => QueryDetail::TimedOut,
        Some(surrealdb::types::QueryError::Cancelled) => QueryDetail::Cancelled,
        Some(surrealdb::types::QueryError::TransactionConflict) => QueryDetail::TransactionConflict,
        Some(_) => QueryDetail::Unrecognized,
    }
}

/// `Error::message` of surrealdb: the human-readable message of the error,
/// copied into a `String`. The claim is that the text is the one named by
/// `error_text`: the message is a field of the error.
#[verifier::external_body]
pub(crate) fn error_message(err: &surrealdb::Error) -> (r: String)
    ensures
        r@ == error_text(*err),
{
    err.message().to_owned()
}

/// `Error::query` of surrealdb, called with the message "Transaction conflict
/// retries exhausted" and the `TransactionConflict` detail: its source keeps
/// the message and the detail as given, so `message` and `query_details` give
/// them back.
#[verifier::external_body]
fn exhausted_conflict_error() -> (r: surrealdb::Error)
    ensures
        error_detail(r) == QueryDetail::TransactionConflict,
        error_text(r) == "Transaction conflict retries exhausted"@,
{
    surrealdb::Error::query(
        "Transaction conflict retries exhausted".to_owned(),
        surrealdb::types::QueryError::TransactionConflict,
    )
}

/// The kind of a database error: the one that its query detail and its
/// message give.
pub open spec fn kind_of(err: surrealdb::Error) -> TxErrorKind {
    error_kind_of(error_detail(err), error_text(err))
}

/// The kinds of the errors of a batch, in order.
pub open spec fn kinds_in(errors: Seq<(usize, surrealdb::Error)>) -> Seq<TxErrorKind> {
    Seq::new(errors.len(), |i: int| kind_of(errors[i].1))
}

/// The kind of a database error, from its query detail and its message.
pub fn kind_of_error(err: &surrealdb::Error) -> (k: TxErrorKind)
    ensures
        k == kind_of(*err),
{
    let detail = query_detail(err);
    let message = error_message(err);
    error_kind(detail, message.as_str())
}

/// The slots of a batch of errors, with the given kinds.
pub open spec fn slots_with(errors: Seq<(usize, surrealdb::Error)>, kinds: Seq<TxErrorKind>) -> Seq<(usize, TxErrorKind)> {
    Seq::new(errors.len(), |i: int| (errors[i].0, kinds[i]))
}

/// `r` is how a batch of errors with these kinds ends.
pub open spec fn tx_outcome(errors: Seq<(usize, surrealdb::Error)>, kinds: Seq<TxErrorKind>, r: Option<TxOutcome>) -> bool {
    let slots = slots_with(errors, kinds);
    match r {
        None => errors.len() == 0,
        Some(TxOutcome::Retry(e)) => exists|p: usize| tx_verdict(slots, Some((TxVerdict::Retry, p))) && p < errors.len() && e == errors[p as int].1,
        Some(TxOutcome::Fail(e)) => exists|p: usize| tx_verdict(slots, Some((TxVerdict::Fail, p))) && p < errors.len() && e == errors[p as int].1,
    }
}

/// How a batch of errors ends, each error given with the slot of its
/// statement and, at the same position in `kinds`, its kind.
pub fn classify_with_kinds(errors: Vec<(usize, surrealdb::Error)>, kinds: &Vec<TxErrorKind>) -> (r: Option<TxOutcome>)
    requires
        kinds@.len() == errors@.len(),
    ensures
        tx_outcome(errors@, kinds@, r),
{
    let ghost input = errors@;
    let mut slots: Vec<(usize, TxErrorKind)> = Vec::new();
    let mut i: usize = 0;
    while i < errors.len()
        invariant
            input == errors@,
            kinds@.len() == errors@.len(),
            i <= errors@.len(),
            slots@.len() == i,
            forall|j: int| 0 <= j < i ==> #[trigger] slots@[j] == (errors@[j].0, kinds@[j]),
        decreases errors@.len() - i,
    {
        slots.push((errors[i].0, kinds[i]));
        i = i + 1;
    }
    assert(slots_with(input, kinds@) =~= slots@);
    let verdict = classify_slots(&slots);
    let mut errors = errors;
    match verdict {
        None => None,
        Some((v, p)) => {
            let (_, e) = errors.remove(p);
            assert(e == input[p as int].1);
            match v {
                TxVerdict::Retry => {
                    assert(tx_outcome(input, kinds@, Some(TxOutcome::Retry(e))));
                    Some(TxOutcome::Retry(e))
                },
                TxVerdict::Fail => {
                    assert(tx_outcome(input, kinds@, Some(TxOutcome::Fail(e))));
                    Some(TxOutcome::Fail(e))
                },
            }
        },
    }
}

/// The kinds of some database errors, in order.
fn kinds_of(errors: &Vec<(usize, surrealdb::Error)>) -> (r: Vec<TxErrorKind>)
    ensures
        r@ == kinds_in(errors@),
{
    let mut kinds: Vec<TxErrorKind> = Vec::new();
    let mut i: usize = 0;
    while i < errors.len()
        invariant
            i <= errors@.len(),
            kinds@.len() == i,
            forall|j: int| 0 <= j < i ==> #[trigger] kinds@[j] == kind_of(errors@[j].1),
        decreases errors@.len() - i,
    {
        kinds.push(kind_of_error(&errors[i].1));
        i = i + 1;
    }
    assert(kinds@ =~= kinds_in(errors@));
    kinds
}

/// The slots of a batch's errors, in the order the map hands them out.
fn slots_of(errors: &HashMap<usize, surrealdb::Error>) -> (r: Vec<usize>)
    ensures
        r@.to_set() == errors@.dom(),
        r@.no_duplicates(),
{
    broadcast use vstd::std_specs::hash::group_hash_axioms;
    let mut keys: Vec<usize> = Vec::new();
    for k in it: errors.keys()
        invariant
            it.seq().unref().to_set() == errors@.dom(),
            it.seq().unref().no_duplicates(),
            keys@ == it.seq().unref().take(it.index() as int),
            it.index() == it.seq().len() ==> keys@ == it.seq().unref(),
    {
        keys.push(*k);
        proof {
            assert(it.seq().unref().take(it.seq().len() as int) =~= it.seq().unref());
            assert(it.index() == it.seq().len() ==> keys@ =~= it.seq().unref());
        }
    }
    keys
}

/// No two errors of a batch share a slot.
pub open spec fn slots_distinct(errors: Seq<(usize, surrealdb::Error)>) -> bool {
    forall|i: int, j: int| 0 <= i < errors.len() && 0 <= j < errors.len() && #[trigger] errors[i].0 == #[trigger] errors[j].0 ==> i == j
}

/// `a` lists the errors of `m`, each under its slot, each slot once.
pub open spec fn lists(a: Seq<(usize, surrealdb::Error)>, m: Map<usize, surrealdb::Error>) -> bool {
    &&& a.to_set() == m.kv_pairs()
    &&& slots_distinct(a)
}

/// The errors of a batch, keyed by slot, listed as (slot, error) pairs.
fn listing_of(errors: HashMap<usize, surrealdb::Error>) -> (r: Vec<(usize, surrealdb::Error)>)
    ensures
        lists(r@, errors@),
{
    broadcast use vstd::std_specs::hash::group_hash_axioms;
    let ghost m = errors@;
    let keys = slots_of(&errors);
    let mut errors = errors;
    let mut out: Vec<(usize, surrealdb::Error)> = Vec::new();
    let mut i: usize = 0;
    while i < keys.len()
        invariant
            keys@.to_set() == m.dom(),
            keys@.no_duplicates(),
            i <= keys@.len(),
            out@.len() == i,
            forall|j: int| 0 <= j < i ==> #[trigger] out@[j] == (keys@[j], m[keys@[j]]),
            forall|j: int| i <= j < keys@.len() ==> errors@.contains_key(#[trigger] keys@[j]) && errors@[keys@[j]] == m[keys@[j]],
        decreases keys@.len() - i,
    {
        let k = keys[i];
        assert(errors@.contains_key(keys@[i as int]));
        let ghost before = errors@;
        let e = errors.remove(&k).unwrap();
        assert forall|j: int| i + 1 <= j < keys@.len() implies errors@.contains_key(#[trigger] keys@[j]) && errors@[keys@[j]] == m[keys@[j]] by {
            assert(keys@[j] != keys@[i as int]);
        }
        out.push((k, e));
        i = i + 1;
    }
    assert forall|x: (usize, surrealdb::Error)| out@.to_set().contains(x) implies m.kv_pairs().contains(x) by {
        let j = choose|j: int| 0 <= j < out@.len() && out@[j] == x;
        assert(keys@.to_set().contains(keys@[j]));
    }
    assert forall|x: (usize, surrealdb::Error)| m.kv_pairs().contains(x) implies out@.to_set().contains(x) by {
        assert(m.dom().contains(x.0));
        assert(keys@.to_set().contains(x.0));
        let j = choose|j: int| 0 <= j < keys@.len() && keys@[j] == x.0;
        assert(out@[j] == x);
    }
    assert(out@.to_set() =~= m.kv_pairs());
    assert forall|p: int, q: int| 0 <= p < out@.len() && 0 <= q < out@.len() && #[trigger] out@[p].0 == #[trigger] out@[q].0 implies p == q by {
        assert(keys@[p] == keys@[q]);
    }
    out
}

/// Some error of the batch, keyed by slot, has kind `k`.
pub open spec fn has_kind_in(m: Map<usize, surrealdb::Error>, k: TxErrorKind) -> bool {
    exists|s: usize| m.contains_key(s) && #[trigger] kind_of(m[s]) == k
}

/// Slot `s` holds an error of kind `k`, and no lower slot does.
pub open spec fn lowest_slot_of(m: Map<usize, surrealdb::Error>, k: TxErrorKind, s: usize) -> bool {
    &&& m.contains_key(s)
    &&& kind_of(m[s]) == k
    &&& forall|t: usize| m.contains_key(t) && #[trigger] kind_of(m[t]) == k ==> s <= t
}

/// `r` is how a `BEGIN .. COMMIT` batch with these errors, keyed by slot,
/// ends: no errors, no outcome; the lowest real failure fails it; failing
/// that, the lowest conflict retries it; failing that, the lowest skipped
/// statement fails it.
pub open spec fn batch_outcome(m: Map<usize, surrealdb::Error>, r: Option<TxOutcome>) -> bool {
    match r {
        None => m.dom().is_empty(),
        Some(TxOutcome::Retry(e)) => !has_kind_in(m, TxErrorKind::Other)
            && exists|s: usize| lowest_slot_of(m, TxErrorKind::Conflict, s) && e == #[trigger] m[s],
        Some(TxOutcome::Fail(e)) => if has_kind_in(m, TxErrorKind::Other) {
            exists|s: usize| lowest_slot_of(m, TxErrorKind::Other, s) && e == #[trigger] m[s]
        } else {
            !has_kind_in(m, TxErrorKind::Conflict)
                && exists|s: usize| lowest_slot_of(m, TxErrorKind::NotExecuted, s) && e == #[trigger] m[s]
        },
    }
}

/// What the outcome of a listing says of the map it lists.
proof fn lemma_listing_outcome(a: Seq<(usize, surrealdb::Error)>, m: Map<usize, surrealdb::Error>, r: Option<TxOutcome>)
    requires
        lists(a, m),
        tx_outcome(a, kinds_in(a), r),
    ensures
        batch_outcome(m, r),
{
    let sl = slots_with(a, kinds_in(a));
    assert forall|i: int| 0 <= i < a.len() implies m.contains_key(#[trigger] a[i].0) && m[a[i].0] == a[i].1 by {
        assert(a.to_set().contains(a[i]));
        assert(m.kv_pairs().contains(a[i]));
    }
    assert forall|k: TxErrorKind| has_kind(sl, k) <==> #[trigger] has_kind_in(m, k) by {
        if has_kind(sl, k) {
            let j = choose|j: int| 0 <= j < sl.len() && #[trigger] sl[j].1 == k;
            assert(m.contains_key(a[j].0));
            assert(kind_of(m[a[j].0]) == k);
        }
        if has_kind_in(m, k) {
            let s = choose|s: usize| m.contains_key(s) && #[trigger] kind_of(m[s]) == k;
            assert(m.kv_pairs().contains((s, m[s])));
            assert(a.to_set().contains((s, m[s])));
            let j = choose|j: int| 0 <= j < a.len() && a[j] == (s, m[s]);
            assert(sl[j].1 == k);
        }
    }
    assert forall|k: TxErrorKind, p: int| lowest_of_kind(sl, k, p) implies lowest_slot_of(m, k, a[p].0) by {
        assert(m.contains_key(a[p].0));
        assert forall|t: usize| m.contains_key(t) && #[trigger] kind_of(m[t]) == k implies a[p].0 <= t by {
            assert(m.kv_pairs().contains((t, m[t])));
            assert(a.to_set().contains((t, m[t])));
            let j = choose|j: int| 0 <= j < a.len() && a[j] == (t, m[t]);
            assert(sl[j].1 == k);
            assert(sl[j].0 == t);
        }
    }
    match r {
        None => {
            assert forall|s: usize| !m.dom().contains(s) by {
                if m.dom().contains(s) {
                    assert(m.kv_pairs().contains((s, m[s])));
                    assert(a.to_set().contains((s, m[s])));
                }
            }
            assert(m.dom() =~= Set::empty());
        },
        Some(TxOutcome::Retry(e)) => {
            let p = choose|p: usize| tx_verdict(sl, Some((TxVerdict::Retry, p))) && p < a.len() && e == a[p as int].1;
            assert(lowest_slot_of(m, TxErrorKind::Conflict, a[p as int].0));
        },
        Some(TxOutcome::Fail(e)) => {
            let p = choose|p: usize| tx_verdict(sl, Some((TxVerdict::Fail, p))) && p < a.len() && e == a[p as int].1;
            if has_kind(sl, TxErrorKind::Other) {
                assert(lowest_slot_of(m, TxErrorKind::Other, a[p as int].0));
            } else {
                assert(lowest_slot_of(m, TxErrorKind::NotExecuted, a[p as int].0));
            }
        },
    }
}

/// How a batch ends is a function of its errors and their slots alone, not
/// of the order in which the map hands them out: two outcomes of the same
/// errors are the same outcome, with the error of the same slot; and there is
/// an outcome exactly when there are errors.
pub proof fn law_batch_outcome_determined(m: Map<usize, surrealdb::Error>, r1: Option<TxOutcome>, r2: Option<TxOutcome>)
    requires
        batch_outcome(m, r1),
        batch_outcome(m, r2),
    ensures
        r1 is None <==> m.dom().is_empty(),
        r1 == r2,
{
    assert forall|k: TxErrorKind, s: usize, t: usize| lowest_slot_of(m, k, s) && lowest_slot_of(m, k, t) implies s == t by {
        assert(kind_of(m[t]) == k);
        assert(kind_of(m[s]) == k);
    }
    assert forall|k: TxErrorKind, s: usize| lowest_slot_of(m, k, s) implies !m.dom().is_empty() by {
        assert(m.dom().contains(s));
    }
    match (r1, r2) {
        (Some(TxOutcome::Retry(e1)), Some(TxOutcome::Retry(e2))) => {
            let s1 = choose|s: usize| lowest_slot_of(m, TxErrorKind::Conflict, s) && e1 == #[trigger] m[s];
            let s2 = choose|s: usize| lowest_slot_of(m, TxErrorKind::Conflict, s) && e2 == #[trigger] m[s];
        },
        (Some(TxOutcome::Fail(e1)), Some(TxOutcome::Fail(e2))) => {
            if has_kind_in(m, TxErrorKind::Other) {
                let s1 = choose|s: usize| lowest_slot_of(m, TxErrorKind::Other, s) && e1 == #[trigger] m[s];
                let s2 = choose|s: usize| lowest_slot_of(m, TxErrorKind::Other, s) && e2 == #[trigger] m[s];
            } else {
                let s1 = choose|s: usize| lowest_slot_of(m, TxErrorKind::NotExecuted, s) && e1 == #[trigger] m[s];
                let s2 = choose|s: usize| lowest_slot_of(m, TxErrorKind::NotExecuted, s) && e2 == #[trigger] m[s];
            }
        },
        (Some(TxOutcome::Retry(e1)), Some(TxOutcome::Fail(e2))) => {
            let s1 = choose|s: usize| lowest_slot_of(m, TxErrorKind::Conflict, s) && e1 == #[trigger] m[s];
            assert(kind_of(m[s1]) == TxErrorKind::Conflict);
        },
        (Some(TxOutcome::Fail(e1)), Some(TxOutcome::Retry(e2))) => {
            let s2 = choose|s: usize| lowest_slot_of(m, TxErrorKind::Conflict, s) && e2 == #[trigger] m[s];
            assert(kind_of(m[s2]) == TxErrorKind::Conflict);
        },
        (Some(TxOutcome::Retry(e1)), None) => {
            let s1 = choose|s: usize| lowest_slot_of(m, TxErrorKind::Conflict, s) && e1 == #[trigger] m[s];
        },
        (None, Some(TxOutcome::Retry(e2))) => {
            let s2 = choose|s: usize| lowest_slot_of(m, TxErrorKind::Conflict, s) && e2 == #[trigger] m[s];
        },
        (Some(TxOutcome::Fail(e1)), None) => {
            if has_kind_in(m, TxErrorKind::Other) {
                let s1 = choose|s: usize| lowest_slot_of(m, TxErrorKind::Other, s) && e1 == #[trigger] m[s];
            } else {
                let s1 = choose|s: usize| lowest_slot_of(m, TxErrorKind::NotExecuted, s) && e1 == #[trigger] m[s];
            }
        },
        (None, Some(TxOutcome::Fail(e2))) => {
            if has_kind_in(m, TxErrorKind::Other) {
                let s2 = choose|s: usize| lowest_slot_of(m, TxErrorKind::Other, s) && e2 == #[trigger] m[s];
            } else {
                let s2 = choose|s: usize| lowest_slot_of(m, TxErrorKind::NotExecuted, s) && e2 == #[trigger] m[s];
            }
        },
        (None, None) => {},
    }
}

/// Classify the errors of a `BEGIN .. COMMIT` batch, keyed by the slot of
/// their statement: the statements that a failure skipped report
/// `NotExecuted`, so only the lowest real failure is reported; a conflict,
/// where no real failure occurred, asks for a retry. No errors, no outcome.
/// Each error's kind is read off its query detail and message (see
/// `kind_of`).
pub fn classify_tx_errors(errors: HashMap<usize, surrealdb::Error>) -> (r: Option<TxOutcome>)
    ensures
        batch_outcome(errors@, r),
{
    let ghost m = errors@;
    let listing = listing_of(errors);
    let ghost a = listing@;
    let kinds = kinds_of(&listing);
    let r = classify_with_kinds(listing, &kinds);
    proof {
        lemma_listing_outcome(a, m, r);
    }
    r
}

/// Position `p` is the first of kind `k` among `kinds`.
pub open spec fn first_of_kind(kinds: Seq<TxErrorKind>, k: TxErrorKind, p: int) -> bool {
    &&& 0 <= p < kinds.len()
    &&& kinds[p] == k
    &&& forall|j: int| 0 <= j < p ==> #[trigger] kinds[j] != k
}

/// There is no error of kind `k` among `kinds`.
pub open spec fn lacks_kind(kinds: Seq<TxErrorKind>, k: TxErrorKind) -> bool {
    forall|j: int| 0 <= j < kinds.len() ==> #[trigger] kinds[j] != k
}

/// `r` is how an insert batch with these errors, of these kinds, ends: a
/// conflict anywhere retries it with the first conflict; otherwise any error
/// fails it, with the first real failure, or the first error where all were
/// skipped statements; no error, no outcome.
pub open spec fn push_outcome_of(errors: Seq<surrealdb::Error>, kinds: Seq<TxErrorKind>, r: Option<TxOutcome>) -> bool {
    match r {
        None => errors.len() == 0,
        Some(TxOutcome::Retry(e)) => exists|p: int|
            first_of_kind(kinds, TxErrorKind::Conflict, p) && e == #[trigger] errors[p],
        Some(TxOutcome::Fail(e)) => lacks_kind(kinds, TxErrorKind::Conflict) && if lacks_kind(kinds, TxErrorKind::Other) {
            exists|p: int| first_of_kind(kinds, TxErrorKind::NotExecuted, p) && e == #[trigger] errors[p]
        } else {
            exists|p: int| first_of_kind(kinds, TxErrorKind::Other, p) && e == #[trigger] errors[p]
        },
    }
}

/// The position of the first error of kind `k`, if any.
fn first_index_of(kinds: &Vec<TxErrorKind>, k: TxErrorKind) -> (r: Option<usize>)
    ensures
        r matches Some(p) ==> first_of_kind(kinds@, k, p as int),
        r is None ==> lacks_kind(kinds@, k),
{
    let mut i: usize = 0;
    while i < kinds.len()
        invariant
            i <= kinds@.len(),
            forall|j: int| 0 <= j < i ==> #[trigger] kinds@[j] != k,
        decreases kinds@.len() - i,
    {
        if kinds[i] == k {
            return Some(i);
        }
        i = i + 1;
    }
    None
}

/// How an insert batch ends, from its errors in the order given, each error's
/// kind at the same position in `kinds`.
pub fn push_outcome_with_kinds(errors: Vec<surrealdb::Error>, kinds: &Vec<TxErrorKind>) -> (r: Option<TxOutcome>)
    requires
        kinds@.len() == errors@.len(),
    ensures
        push_outcome_of(errors@, kinds@, r),
{
    let ghost input = errors@;
    let mut errors = errors;
    match first_index_of(kinds, TxErrorKind::Conflict) {
        Some(p) => {
            let e = errors.swap_remove(p);
            assert(e == input[p as int]);
            return Some(TxOutcome::Retry(e));
        },
        None => {},
    }
    match first_index_of(kinds, TxErrorKind::Other) {
        Some(p) => {
            let e = errors.swap_remove(p);
            assert(e == input[p as int]);
            return Some(TxOutcome::Fail(e));
        },
        None => {},
    }
    if errors.len() == 0 {
        return None;
    }
    let k0 = kinds[0];
    assert(k0 == TxErrorKind::NotExecuted);
    assert(first_of_kind(kinds@, TxErrorKind::NotExecuted, 0));
    let e = errors.swap_remove(0);
    assert(e == input[0]);
    Some(TxOutcome::Fail(e))
}

/// The kinds of some database errors, in order.
pub open spec fn kinds_of_errors(errors: Seq<surrealdb::Error>) -> Seq<TxErrorKind> {
    Seq::new(errors.len(), |i: int| kind_of(errors[i]))
}

/// How an insert batch ends, from its errors: a conflict anywhere retries it;
/// otherwise the batch, which runs as a single transaction, fails with its
/// first real failure. Each error's kind is read off its query detail and
/// message (see `kind_of`).
pub fn push_outcome(errors: Vec<surrealdb::Error>) -> (r: Option<TxOutcome>)
    ensures
        push_outcome_of(errors@, kinds_of_errors(errors@), r),
{
    let mut kinds: Vec<TxErrorKind> = Vec::new();
    let mut i: usize = 0;
    while i < errors.len()
        invariant
            i <= errors@.len(),
            kinds@.len() == i,
            forall|j: int| 0 <= j < i ==> #[trigger] kinds@[j] == kind_of(errors@[j]),
        decreases errors@.len() - i,
    {
        kinds.push(kind_of_error(&errors[i]));
        i = i + 1;
    }
    assert(kinds@ =~= kinds_of_errors(errors@));
    push_outcome_with_kinds(errors, &kinds)
}

/// How a batch ends does not depend on the order in which its errors are
/// listed: two listings of the same errors under the same slots, each slot
/// used once, end the same way, with the error of the same slot; and a batch
/// has an outcome exactly when it has errors.
pub proof fn law_outcome_ignores_order(
    a: Seq<(usize, surrealdb::Error)>,
    b: Seq<(usize, surrealdb::Error)>,
    ra: Option<TxOutcome>,
    rb: Option<TxOutcome>,
)
    requires
        a.to_set() == b.to_set(),
        slots_distinct(a),
        slots_distinct(b),
        tx_outcome(a, kinds_in(a), ra),
        tx_outcome(b, kinds_in(b), rb),
    ensures
        ra is None <==> a.len() == 0,
        ra == rb,
{
    let sa = slots_with(a, kinds_in(a));
    let sb = slots_with(b, kinds_in(b));
    assert forall|x: (usize, TxErrorKind)| sa.to_set().contains(x) implies sb.to_set().contains(x) by {
        let i = choose|i: int| 0 <= i < sa.len() && sa[i] == x;
        assert(a.to_set().contains(a[i]));
        assert(b.to_set().contains(a[i]));
        let m = choose|m: int| 0 <= m < b.len() && b[m] == a[i];
        assert(sb[m] == x);
    }
    assert forall|x: (usize, TxErrorKind)| sb.to_set().contains(x) implies sa.to_set().contains(x) by {
        let i = choose|i: int| 0 <= i < sb.len() && sb[i] == x;
        assert(b.to_set().contains(b[i]));
        assert(a.to_set().contains(b[i]));
        let m = choose|m: int| 0 <= m < a.len() && a[m] == b[i];
        assert(sa[m] == x);
    }
    assert(sa.to_set() =~= sb.to_set());
    if a.len() == 0 && b.len() > 0 {
        assert(b.to_set().contains(b[0]));
    }
    if b.len() == 0 && a.len() > 0 {
        assert(a.to_set().contains(a[0]));
    }
    match (ra, rb) {
        (Some(oa), Some(ob)) => {
            let (va, ea, pa) = match oa {
                TxOutcome::Retry(e) => {
                    let p = choose|p: usize| tx_verdict(sa, Some((TxVerdict::Retry, p))) && p < a.len() && e == a[p as int].1;
                    (TxVerdict::Retry, e, p)
                },
                TxOutcome::Fail(e) => {
                    let p = choose|p: usize| tx_verdict(sa, Some((TxVerdict::Fail, p))) && p < a.len() && e == a[p as int].1;
                    (TxVerdict::Fail, e, p)
                },
            };
            let (vb, eb, pb) = match ob {
                TxOutcome::Retry(e) => {
                    let p = choose|p: usize| tx_verdict(sb, Some((TxVerdict::Retry, p))) && p < b.len() && e == b[p as int].1;
                    (TxVerdict::Retry, e, p)
                },
                TxOutcome::Fail(e) => {
                    let p = choose|p: usize| tx_verdict(sb, Some((TxVerdict::Fail, p))) && p < b.len() && e == b[p as int].1;
                    (TxVerdict::Fail, e, p)
                },
            };
            law_verdict_ignores_order(sa, sb, Some((va, pa)), Some((vb, pb)));
            assert(sa[pa as int].0 == a[pa as int].0);
            assert(sb[pb as int].0 == b[pb as int].0);
            assert(a.to_set().contains(a[pa as int]));
            assert(b.to_set().contains(a[pa as int]));
            let m = choose|m: int| 0 <= m < b.len() && b[m] == a[pa as int];
            assert(b[m].0 == b[pb as int].0);
            assert(m == pb);
            assert(ea == eb);
        },
        (Some(oa), None) => {
            assert(a.len() == 0 || b.len() == 0);
        },
        (None, Some(ob)) => {
            assert(a.len() == 0 || b.len() == 0);
        },
        (None, None) => {},
    }
}

/// What the driver of a transaction does after an attempt.
#[derive(Debug)]
pub enum TxStep {
    /// The batch went through: read its results.
    Proceed,
    /// The batch conflicted: run it again, if attempts are left.
    Retry,
    /// The batch failed: report this error.
    Fail(SurrealError),
}

/// The bookkeeping of a transaction that is retried on conflicts: how many
/// attempts were made, and the last conflict seen.
pub struct TxAttempts {
    made: usize,
    conflict: Option<surrealdb::Error>,
}

/// The model of a transaction's bookkeeping.
pub struct TxState {
    pub attempts: nat,
    pub last_conflict: Option<surrealdb::Error>,
}

impl View for TxAttempts {
    type V = TxState;

    closed spec fn view(&self) -> TxState {
        TxState { attempts: self.made as nat, last_conflict: self.conflict }
    }
}

/// The state before any attempt.
pub open spec fn tx_start() -> TxState {
    TxState { attempts: 0, last_conflict: None }
}

/// One attempt: its outcome moves the state and says what to do.
pub open spec fn tx_step(s: TxState, outcome: Option<TxOutcome>) -> (TxState, TxStep) {
    let attempts = s.attempts + 1;
    match outcome {
        None => (TxState { attempts, last_conflict: s.last_conflict }, TxStep::Proceed),
        Some(TxOutcome::Retry(e)) => (TxState { attempts, last_conflict: Some(e) }, TxStep::Retry),
        Some(TxOutcome::Fail(e)) => (
            TxState { attempts, last_conflict: s.last_conflict },
            TxStep::Fail(SurrealError::Database(e)),
        ),
    }
}

/// The state after the attempts with these outcomes, from `s`.
pub open spec fn tx_run(s: TxState, outcomes: Seq<Option<TxOutcome>>) -> TxState
    decreases outcomes.len(),
{
    if outcomes.len() == 0 {
        s
    } else {
        tx_run(tx_step(s, outcomes[0]).0, outcomes.drop_first())
    }
}

impl TxAttempts {
    /// No attempt made yet.
    pub fn new() -> (r: Self)
        ensures
            r@ == tx_start(),
    {
        TxAttempts { made: 0, conflict: None }
    }

    /// Whether another attempt is allowed.
    pub fn may_attempt(&self) -> (r: bool)
        ensures
            r == (self@.attempts < MAX_TX_RETRIES),
    {
        self.made < MAX_TX_RETRIES
    }

    /// Record the outcome of an attempt and say what to do next.
    pub fn record(&mut self, outcome: Option<TxOutcome>) -> (step: TxStep)
        requires
            old(self)@.attempts < MAX_TX_RETRIES,
        ensures
            (final(self)@, step) == tx_step(old(self)@, outcome),
    {
        self.made = self.made + 1;
        match outcome {
            None => TxStep::Proceed,
            Some(TxOutcome::Retry(e)) => {
                self.conflict = Some(e);
                TxStep::Retry
            },
            Some(TxOutcome::Fail(e)) => TxStep::Fail(SurrealError::Database(e)),
        }
    }

    /// The error to report when the attempts are used up: the last conflict
    /// seen, or a fresh conflict error where none was recorded.
    pub fn exhausted(self) -> (r: SurrealError)
        ensures
            match self@.last_conflict {
                Some(e) => r == SurrealError::Database(e),
                None => r matches SurrealError::Database(e) && kind_of(e) == TxErrorKind::Conflict
                    && error_text(e) == "Transaction conflict retries exhausted"@,
            },
    {
        match self.conflict {
            Some(e) => SurrealError::Database(e),
            None => SurrealError::Database(exhausted_conflict_error()),
        }
    }
}

/// A transaction whose every attempt conflicts is attempted exactly
/// `MAX_TX_RETRIES` times; then no attempt is left, and the conflict of the
/// last attempt is the one reported.
pub proof fn law_conflicts_exhaust_retries(conflicts: Seq<surrealdb::Error>)
    requires
        conflicts.len() == MAX_TX_RETRIES,
    ensures
        ({
            let end = tx_run(tx_start(), conflicts.map_values(|e: surrealdb::Error| Some(TxOutcome::Retry(e))));
            &&& end.attempts == MAX_TX_RETRIES
            &&& end.last_conflict == Some(conflicts.last())
        }),
{
    lemma_conflict_run(tx_start(), conflicts);
}

/// A run of conflicts adds one attempt each and leaves the last one recorded.
proof fn lemma_conflict_run(s: TxState, conflicts: Seq<surrealdb::Error>)
    ensures
        ({
            let end = tx_run(s, conflicts.map_values(|e: surrealdb::Error| Some(TxOutcome::Retry(e))));
            &&& end.attempts == s.attempts + conflicts.len()
            &&& end.last_conflict == if conflicts.len() == 0 { s.last_conflict } else { Some(conflicts.last()) }
        }),
    decreases conflicts.len(),
{
    let outcomes = conflicts.map_values(|e: surrealdb::Error| Some(TxOutcome::Retry(e)));
    if conflicts.len() > 0 {
        let rest = conflicts.drop_first();
        assert(outcomes.drop_first() =~= rest.map_values(|e: surrealdb::Error| Some(TxOutcome::Retry(e))));
        lemma_conflict_run(tx_step(s, outcomes[0]).0, rest);
        if rest.len() > 0 {
            assert(rest.last() == conflicts.last());
        }
    }
}

/// A failing attempt is reported at once, whatever came before: the step
/// says to fail with that very error.
pub proof fn law_failure_reported_at_once(s: TxState, e: surrealdb::Error)
    ensures
        tx_step(s, Some(TxOutcome::Fail(e))).1 == TxStep::Fail(SurrealError::Database(e)),
        tx_step(s, Some(TxOutcome::Fail(e))).0.last_conflict == s.last_conflict,
{
}

/// Where a transaction stands after the attempts with these outcomes.
pub enum TxEnd {
    /// Outcomes ran out while retries were still asked for and allowed.
    Running,
    /// An attempt went through.
    Done,
    /// An attempt failed with this error.
    Failed(SurrealError),
    /// The attempts were used up; this is the last conflict recorded.
    Exhausted(Option<surrealdb::Error>),
}

/// How a transaction driven from state `s` ends when each attempt's outcome
/// is given to `record` in turn, an attempt being made only while
/// `may_attempt` allows it and the last step asked for a retry.
pub open spec fn tx_drive(s: TxState, outcomes: Seq<Option<TxOutcome>>) -> TxEnd
    decreases outcomes.len(),
{
    if s.attempts >= MAX_TX_RETRIES {
        TxEnd::Exhausted(s.last_conflict)
    } else if outcomes.len() == 0 {
        TxEnd::Running
    } else {
        let (next, step) = tx_step(s, outcomes[0]);
        match step {
            TxStep::Proceed => TxEnd::Done,
            TxStep::Fail(err) => TxEnd::Failed(err),
            TxStep::Retry => tx_drive(next, outcomes.drop_first()),
        }
    }
}

/// The conflict an outcome asks to retry on, if it does.
pub open spec fn conflict_in(o: Option<TxOutcome>) -> Option<surrealdb::Error> {
    match o {
        Some(TxOutcome::Retry(e)) => Some(e),
        _ => None,
    }
}

/// Every one of the first `k` outcomes asks for a retry.
pub open spec fn retried_before(outcomes: Seq<Option<TxOutcome>>, k: int) -> bool {
    forall|j: int| 0 <= j < k ==> #[trigger] conflict_in(outcomes[j]) is Some
}

/// Within the first `n` outcomes, one is clean after only retries.
pub open spec fn clean_within(outcomes: Seq<Option<TxOutcome>>, n: int) -> bool {
    exists|k: int| 0 <= k < n && k < outcomes.len() && #[trigger] outcomes[k] is None && retried_before(outcomes, k)
}

/// Within the first `n` outcomes, one fails with `e` after only retries.
pub open spec fn fails_within(outcomes: Seq<Option<TxOutcome>>, n: int, e: surrealdb::Error) -> bool {
    exists|k: int| 0 <= k < n && k < outcomes.len() && #[trigger] outcomes[k] == Some(TxOutcome::Fail(e)) && retried_before(outcomes, k)
}

/// A transaction run from the start ends well exactly when a clean attempt
/// comes among the first `MAX_TX_RETRIES`, after only conflicts; it fails
/// with a database error exactly when a failing attempt comes there, after
/// only conflicts, and with that attempt's error; and when the first
/// `MAX_TX_RETRIES` attempts all conflict, it gives up with the last conflict.
pub proof fn law_run_ends(outcomes: Seq<Option<TxOutcome>>)
    ensures
        (tx_drive(tx_start(), outcomes) is Done) <==> clean_within(outcomes, MAX_TX_RETRIES as int),
        forall|e: surrealdb::Error|
            (#[trigger] tx_drive(tx_start(), outcomes) == TxEnd::Failed(SurrealError::Database(e)))
                <==> fails_within(outcomes, MAX_TX_RETRIES as int, e),
        tx_drive(tx_start(), outcomes) matches TxEnd::Failed(err) ==> err is Database,
        retried_before(outcomes, MAX_TX_RETRIES as int) && outcomes.len() >= MAX_TX_RETRIES ==>
            tx_drive(tx_start(), outcomes) == TxEnd::Exhausted(conflict_in(outcomes[MAX_TX_RETRIES - 1])),
{
    lemma_drive(tx_start(), outcomes);
}

/// How a run from any state ends, within the attempts left to it.
proof fn lemma_drive(s: TxState, outcomes: Seq<Option<TxOutcome>>)
    requires
        s.attempts <= MAX_TX_RETRIES,
    ensures
        (tx_drive(s, outcomes) is Done) <==> clean_within(outcomes, MAX_TX_RETRIES - s.attempts),
        forall|e: surrealdb::Error| (tx_drive(s, outcomes) == TxEnd::Failed(SurrealError::Database(e)))
            <==> #[trigger] fails_within(outcomes, MAX_TX_RETRIES - s.attempts, e),
        tx_drive(s, outcomes) matches TxEnd::Failed(err) ==> err is Database,
        retried_before(outcomes, MAX_TX_RETRIES - s.attempts) && outcomes.len() >= MAX_TX_RETRIES - s.attempts ==>
            tx_drive(s, outcomes) == TxEnd::Exhausted(
                if s.attempts == MAX_TX_RETRIES { s.last_conflict } else { conflict_in(outcomes[MAX_TX_RETRIES - s.attempts - 1]) }
            ),
    decreases outcomes.len(),
{
    let n = MAX_TX_RETRIES - s.attempts;
    if s.attempts >= MAX_TX_RETRIES {
        assert(!clean_within(outcomes, n));
        assert forall|e: surrealdb::Error| !fails_within(outcomes, n, e) by {}
    } else if outcomes.len() == 0 {
        assert(!clean_within(outcomes, n));
        assert forall|e: surrealdb::Error| !fails_within(outcomes, n, e) by {}
    } else {
        let o = outcomes[0];
        let rest = outcomes.drop_first();
        match o {
            None => {
                assert(retried_before(outcomes, 0));
                assert(clean_within(outcomes, n));
                assert forall|e: surrealdb::Error| !fails_within(outcomes, n, e) by {
                    if fails_within(outcomes, n, e) {
                        let k = choose|k: int| 0 <= k < n && k < outcomes.len() && #[trigger] outcomes[k] == Some(TxOutcome::Fail(e)) && retried_before(outcomes, k);
                        if k > 0 {
                            assert(conflict_in(outcomes[0]) is Some);
                        }
                    }
                }
                assert(!retried_before(outcomes, n)) by {
                    assert(conflict_in(outcomes[0]) is None);
                }
            },
            Some(TxOutcome::Fail(e0)) => {
                assert(retried_before(outcomes, 0));
                assert(!clean_within(outcomes, n)) by {
                    if clean_within(outcomes, n) {
                        let k = choose|k: int| 0 <= k < n && k < outcomes.len() && #[trigger] outcomes[k] is None && retried_before(outcomes, k);
                        if k > 0 {
                            assert(conflict_in(outcomes[0]) is Some);
                        }
                    }
                }
                assert forall|e: surrealdb::Error| fails_within(outcomes, n, e) <==> e == e0 by {
                    if fails_within(outcomes, n, e) {
                        let k = choose|k: int| 0 <= k < n && k < outcomes.len() && #[trigger] outcomes[k] == Some(TxOutcome::Fail(e)) && retried_before(outcomes, k);
                        if k > 0 {
                            assert(conflict_in(outcomes[0]) is Some);
                        }
                    }
                    if e == e0 {
                        assert(outcomes[0] == Some(TxOutcome::Fail(e)));
                    }
                }
                assert(!retried_before(outcomes, n)) by {
                    assert(conflict_in(outcomes[0]) is None);
                }
            },
            Some(TxOutcome::Retry(c)) => {
                let next = tx_step(s, o).0;
                lemma_drive(next, rest);
                assert(next.attempts == s.attempts + 1);
                assert forall|k: int| 0 <= k < rest.len() implies #[trigger] rest[k] == outcomes[k + 1] by {}
                assert forall|k: int| 1 <= k <= outcomes.len() implies retried_before(outcomes, k) == retried_before(rest, k - 1) by {
                    if retried_before(outcomes, k) {
                        assert forall|j: int| 0 <= j < k - 1 implies #[trigger] conflict_in(rest[j]) is Some by {
                            assert(rest[j] == outcomes[j + 1]);
                            assert(conflict_in(outcomes[j + 1]) is Some);
                        }
                    }
                    if retried_before(rest, k - 1) {
                        assert forall|j: int| 0 <= j < k implies #[trigger] conflict_in(outcomes[j]) is Some by {
                            if j > 0 {
                                assert(outcomes[j] == rest[j - 1]);
                                assert(conflict_in(rest[j - 1]) is Some);
                            }
                        }
                    }
                }
                assert(clean_within(outcomes, n) == clean_within(rest, n - 1)) by {
                    if clean_within(outcomes, n) {
                        let k = choose|k: int| 0 <= k < n && k < outcomes.len() && #[trigger] outcomes[k] is None && retried_before(outcomes, k);
                        assert(k > 0);
                        assert(rest[k - 1] is None);
                    }
                    if clean_within(rest, n - 1) {
                        let k = choose|k: int| 0 <= k < n - 1 && k < rest.len() && #[trigger] rest[k] is None && retried_before(rest, k);
                        assert(outcomes[k + 1] is None);
                    }
                }
                assert forall|e: surrealdb::Error| #[trigger] fails_within(outcomes, n, e) == fails_within(rest, n - 1, e) by {
                    if fails_within(outcomes, n, e) {
                        let k = choose|k: int| 0 <= k < n && k < outcomes.len() && #[trigger] outcomes[k] == Some(TxOutcome::Fail(e)) && retried_before(outcomes, k);
                        assert(k > 0);
                        assert(rest[k - 1] == Some(TxOutcome::Fail(e)));
                    }
                    if fails_within(rest, n - 1, e) {
                        let k = choose|k: int| 0 <= k < n - 1 && k < rest.len() && #[trigger] rest[k] == Some(TxOutcome::Fail(e)) && retried_before(rest, k);
                        assert(outcomes[k + 1] == Some(TxOutcome::Fail(e)));
                    }
                }
                if retried_before(outcomes, n) && outcomes.len() >= n {
                    assert(retried_before(rest, n - 1));
                    if n - 1 > 0 {
                        assert(rest[n - 2] == outcomes[n - 1]);
                    } else {
                        assert(next.last_conflict == Some(c));
                    }
                }
            },
        }
    }
}

} // verus!
