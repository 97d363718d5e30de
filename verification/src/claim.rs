//! Claiming a batch of due tasks: the rows that decode become tasks, those
//! that do not are parked so that no worker claims them again.
use vstd::prelude::*;

verus! {

/// The tasks that decoded, in the order of the rows.
pub open spec fn decoded_tasks<K, T, E>(rows: Seq<(K, Result<T, E>)>) -> Seq<T>
    decreases rows.len(),
{
    if rows.len() == 0 {
        Seq::empty()
    } else {
        let rest = decoded_tasks(rows.drop_last());
        match rows.last().1 {
            Ok(t) => rest.push(t),
            Err(_) => rest,
        }
    }
}

/// The rows that did not decode, by id and with the reason, in order.
pub open spec fn undecodable_rows<K, T, E>(rows: Seq<(K, Result<T, E>)>) -> Seq<(K, E)>
    decreases rows.len(),
{
    if rows.len() == 0 {
        Seq::empty()
    } else {
        let rest = undecodable_rows(rows.drop_last());
        match rows.last().1 {
            Ok(_) => rest,
            Err(e) => rest.push((rows.last().0, e)),
        }
    }
}

/// Split a claimed batch, each row by its id with what decoding it gave:
/// the tasks to hand out, and the rows to park (to kill, with the reason).
pub fn split_claimed<K, T, E>(rows: Vec<(K, Result<T, E>)>) -> (r: (Vec<T>, Vec<(K, E)>))
    ensures
        r.0@ == decoded_tasks(rows@),
        r.1@ == undecodable_rows(rows@),
{
    let ghost all = rows@;
    let n = rows.len();
    let mut rows = rows;
    let mut tasks: Vec<T> = Vec::new();
    let mut parked: Vec<(K, E)> = Vec::new();
    let mut i: usize = 0;
    while i < n
        invariant
            n == all.len(),
            i <= n,
            rows@ == all.subrange(i as int, n as int),
            tasks@ == decoded_tasks(all.take(i as int)),
            parked@ == undecodable_rows(all.take(i as int)),
        decreases n - i,
    {
        proof {
            assert(all.take(i + 1).drop_last() =~= all.take(i as int));
            assert(all.take(i + 1).last() == all[i as int]);
            assert(rows@[0] == all[i as int]);
        }
        let (id, decoded) = rows.remove(0);
        match decoded {
            Ok(t) => tasks.push(t),
            Err(e) => parked.push((id, e)),
        }
        i = i + 1;
        assert(rows@ =~= all.subrange(i as int, n as int));
    }
    assert(all.take(n as int) =~= all);
    (tasks, parked)
}

/// Every claimed row is either handed out or parked, never both and never
/// lost: the two parts together are as many as the rows.
pub proof fn law_claim_loses_no_row<K, T, E>(rows: Seq<(K, Result<T, E>)>)
    ensures
        decoded_tasks(rows).len() + undecodable_rows(rows).len() == rows.len(),
    decreases rows.len(),
{
    if rows.len() > 0 {
        law_claim_loses_no_row(rows.drop_last());
    }
}

/// How many tasks a claim asks for: the configured buffer size, as the
/// database takes it (a cast to a signed integer).
pub fn claim_limit(buffer_size: usize) -> (r: i64)
    ensures
        r == buffer_size as i64,
{
    #[verifier::truncate] (buffer_size as i64)
}

} // verus!
