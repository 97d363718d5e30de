//! Waiting for tasks to finish: which ids are still awaited, and what the
//! rows of finished tasks decode to.
use vstd::prelude::*;
use vstd::string::*;

use crate::errors::SurrealError;
use crate::ids::{parse_task_id, task_id_decode};
use crate::queues::texts;
use crate::status::{status_named, unknown_state_text, TaskStatus};

verus! {

/// What the id and the status of a finished task's row decode to: the id
/// first, then the status; the first that fails is reported.
pub open spec fn result_head(id: Seq<char>, status: Seq<char>, r: Result<(u128, TaskStatus), SurrealError>) -> bool {
    match task_id_decode(id) {
        Err(m) => r matches Err(SurrealError::Decode(s)) && s@ == m,
        Ok(v) => match status_named(status) {
            None => r matches Err(SurrealError::Decode(s)) && s@ == unknown_state_text(status),
            Some(st) => r == Ok::<(u128, TaskStatus), SurrealError>((v, st)),
        },
    }
}

/// Decode the id and the status of a finished task's row.
pub fn decode_result_head(id: &str, status: &str) -> (r: Result<(u128, TaskStatus), SurrealError>)
    ensures
        result_head(id@, status@, r),
{
    let v = match parse_task_id(id) {
        Ok(v) => v,
        Err(e) => return Err(e),
    };
    match TaskStatus::parse(status) {
        Ok(st) => Ok((v, st)),
        Err(m) => Err(SurrealError::Decode(m)),
    }
}

/// What waiting does next.
#[derive(Clone, Copy, Debug, PartialEq, Eq, Structural)]
pub enum WaitAction {
    /// Report the rows that came back.
    Report,
    /// Nothing finished yet: sleep, then ask again.
    Sleep,
}

/// The ids still awaited by a wait.
pub struct WaitTracker {
    remaining: Vec<String>,
}

/// Whether a text is among some strings.
fn holds_text(v: &Vec<String>, t: &String) -> (r: bool)
    ensures
        r == texts(v@).contains(t@),
{
    let mut i: usize = 0;
    while i < v.len()
        invariant
            i <= v@.len(),
            forall|j: int| 0 <= j < i ==> v@[j]@ != t@,
        decreases v@.len() - i,
    {
        if v[i] == *t {
            assert(texts(v@)[i as int] == t@);
            return true;
        }
        i = i + 1;
    }
    proof {
        if texts(v@).contains(t@) {
            let j = choose|j: int| 0 <= j < texts(v@).len() && texts(v@)[j] == t@;
            assert(v@[j]@ == t@);
        }
    }
    false
}

impl WaitTracker {
    /// The ids still awaited.
    pub closed spec fn pending(&self) -> Set<Seq<char>> {
        texts(self.remaining@).to_set()
    }

    /// Await these ids (each once).
    pub fn new(ids: Vec<String>) -> (r: Self)
        ensures
            r.pending() == texts(ids@).to_set(),
    {
        let mut remaining: Vec<String> = Vec::new();
        let mut i: usize = 0;
        while i < ids.len()
            invariant
                i <= ids@.len(),
                texts(remaining@).to_set() == texts(ids@.take(i as int)).to_set(),
            decreases ids@.len() - i,
        {
            let ghost pre = texts(remaining@).to_set();
            let ghost seq_before = remaining@;
            if !holds_text(&remaining, &ids[i]) {
                remaining.push(ids[i].clone());
                assert(texts(remaining@) =~= texts(seq_before).push(ids@[i as int]@));
            }
            proof {
                assert(texts(ids@.take(i + 1)) =~= texts(ids@.take(i as int)).push(ids@[i as int]@));
                texts(ids@.take(i as int)).lemma_push_to_set_commute(ids@[i as int]@);
                texts(seq_before).lemma_push_to_set_commute(ids@[i as int]@);
                if texts(seq_before).contains(ids@[i as int]@) {
                    assert(pre.contains(ids@[i as int]@));
                }
                assert(texts(remaining@).to_set() =~= pre.insert(ids@[i as int]@));
            }
            i = i + 1;
        }
        proof {
            assert(ids@.take(ids@.len() as int) =~= ids@);
        }
        WaitTracker { remaining }
    }

    /// Whether every awaited task has been reported.
    pub fn is_finished(&self) -> (r: bool)
        ensures
            r == self.pending().is_empty(),
    {
        proof {
            if self.remaining@.len() > 0 {
                assert(self.pending().contains(texts(self.remaining@)[0]));
            } else {
                assert(texts(self.remaining@) =~= Seq::<Seq<char>>::empty());
                assert(self.pending() =~= Set::<Seq<char>>::empty());
            }
        }
        self.remaining.len() == 0
    }

    /// The ids to ask about.
    pub fn awaited(&self) -> (r: Vec<String>)
        ensures
            texts(r@).to_set() == self.pending(),
    {
        self.remaining.clone()
    }

    /// Take in the ids of the rows that came back: none means sleep and ask
    /// again; otherwise they are no longer awaited, and are reported.
    pub fn settle(&mut self, reported: &Vec<String>) -> (r: WaitAction)
        ensures
            reported@.len() == 0 ==> r == WaitAction::Sleep && final(self).pending() == old(self).pending(),
            reported@.len() > 0 ==> r == WaitAction::Report
                && final(self).pending() == old(self).pending().difference(texts(reported@).to_set()),
    {
        if reported.len() == 0 {
            return WaitAction::Sleep;
        }
        let ghost before = self.pending();
        let ghost gone = texts(reported@).to_set();
        let mut kept: Vec<String> = Vec::new();
        let mut i: usize = 0;
        while i < self.remaining.len()
            invariant
                i <= self.remaining@.len(),
                before == texts(self.remaining@).to_set(),
                gone == texts(reported@).to_set(),
                texts(kept@).to_set() == texts(self.remaining@.take(i as int)).to_set().difference(gone),
            decreases self.remaining@.len() - i,
        {
            let ghost pre = texts(kept@).to_set();
            let t = &self.remaining[i];
            let ghost seq_before = kept@;
            if !holds_text(reported, t) {
                kept.push(t.clone());
                assert(texts(kept@) =~= texts(seq_before).push(t@));
            }
            proof {
                assert(texts(self.remaining@.take(i + 1)) =~= texts(self.remaining@.take(i as int)).push(self.remaining@[i as int]@));
                texts(self.remaining@.take(i as int)).lemma_push_to_set_commute(self.remaining@[i as int]@);
                texts(seq_before).lemma_push_to_set_commute(t@);
                assert(texts(kept@).to_set() =~= texts(self.remaining@.take(i + 1)).to_set().difference(gone));
            }
            i = i + 1;
        }
        proof {
            assert(self.remaining@.take(self.remaining@.len() as int) =~= self.remaining@);
        }
        self.remaining = kept;
        WaitAction::Report
    }

    /// Give up waiting (the query failed): nothing is awaited any more.
    pub fn abandon(&mut self)
        ensures
            final(self).pending().is_empty(),
    {
        self.remaining = Vec::new();
        assert(texts(self.remaining@) =~= Seq::<Seq<char>>::empty());
        assert(self.pending() =~= Set::<Seq<char>>::empty());
    }
}

/// A wait ends once every awaited task has been reported: reporting rows
/// that cover what is awaited leaves nothing to await.
pub proof fn law_wait_ends_when_all_reported(awaited: Set<Seq<char>>, reported: Seq<Seq<char>>)
    requires
        awaited.subset_of(reported.to_set()),
    ensures
        awaited.difference(reported.to_set()).is_empty(),
{
    assert(awaited.difference(reported.to_set()) =~= Set::<Seq<char>>::empty());
}

/// Reporting never adds to what is awaited.
pub proof fn law_wait_only_shrinks(awaited: Set<Seq<char>>, reported: Seq<Seq<char>>)
    ensures
        awaited.difference(reported.to_set()).subset_of(awaited),
{
}

} // verus!
