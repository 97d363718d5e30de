//! The registry of a shared storage: which queues are served over the one
//! connection, and where the tasks of a claimed batch go.
use vstd::prelude::*;
use vstd::string::*;

use crate::queues::texts;
use crate::text::{text_order, TextOrder};

verus! {

/// Why a queue could not join a shared storage.
#[derive(Debug)]
pub enum SharedSurrealError {
    /// A queue with this name is registered already.
    NamespaceExists(String),
    /// The registry was busy.
    RegistryLocked,
}

impl SharedSurrealError {
    /// The message of the error.
    pub fn describe(&self) -> (r: String)
        ensures
            self matches SharedSurrealError::NamespaceExists(n) ==> r@ == "Namespace "@ + n@ + " already exists"@,
            self is RegistryLocked ==> r@ == "Could not acquire registry lock"@,
    {
        match self {
            SharedSurrealError::NamespaceExists(n) => {
                let mut r = "Namespace ".to_owned();
                r.append(n.as_str());
                r.append(" already exists");
                r
            },
            SharedSurrealError::RegistryLocked => "Could not acquire registry lock".to_owned(),
        }
    }
}

/// The queues registered with a shared storage, each once, in the order
/// they joined.
pub struct QueueRegistry {
    names: Vec<String>,
}

/// No name stands twice.
pub open spec fn distinct_texts(v: Seq<Seq<char>>) -> bool {
    forall|i: int, j: int| 0 <= i < v.len() && 0 <= j < v.len() && i != j ==> v[i] != v[j]
}

impl QueueRegistry {
    /// The registered queue names, in the order they joined.
    pub closed spec fn names(&self) -> Seq<Seq<char>> {
        texts(self.names@)
    }

    /// The registered names are distinct.
    #[verifier::type_invariant]
    spec fn registered_once(&self) -> bool {
        distinct_texts(texts(self.names@))
    }

    /// An empty registry.
    pub fn new() -> (r: Self)
        ensures
            r.names().len() == 0,
    {
        let names: Vec<String> = Vec::new();
        assert(texts(names@) =~= Seq::<Seq<char>>::empty());
        QueueRegistry { names }
    }

    /// Where a queue stands among the registered ones, if it is registered.
    pub fn position(&self, queue: &str) -> (r: Option<usize>)
        ensures
            match r {
                Some(i) => i < self.names().len() && self.names()[i as int] == queue@,
                None => !self.names().contains(queue@),
            },
    {
        let mut i: usize = 0;
        while i < self.names.len()
            invariant
                i <= self.names@.len(),
                forall|j: int| 0 <= j < i ==> self.names@[j]@ != queue@,
            decreases self.names@.len() - i,
        {
            if text_order(self.names[i].as_str(), queue) == TextOrder::Same {
                return Some(i);
            }
            i = i + 1;
        }
        proof {
            if self.names().contains(queue@) {
                let j = choose|j: int| 0 <= j < self.names().len() && self.names()[j] == queue@;
                assert(self.names@[j]@ == queue@);
            }
        }
        None
    }

    /// Register a queue: a queue registered already is refused (and the
    /// registry stays as it was); a new one joins last, at the position
    /// returned.
    pub fn register(&mut self, queue: &str) -> (r: Result<usize, SharedSurrealError>)
        ensures
            distinct_texts(final(self).names()),
            old(self).names().contains(queue@) ==> (r matches Err(SharedSurrealError::NamespaceExists(n)) && n@ == queue@)
                && final(self).names() == old(self).names(),
            !old(self).names().contains(queue@) ==> r == Ok::<usize, SharedSurrealError>(old(self).names().len() as usize)
                && final(self).names() == old(self).names().push(queue@),
    {
        proof {
            use_type_invariant(&*self);
        }
        match self.position(queue) {
            Some(_) => Err(SharedSurrealError::NamespaceExists(queue.to_owned())),
            None => {
                let n = self.names.len();
                let ghost before = texts(self.names@);
                let mut names = Vec::new();
                std::mem::swap(&mut names, &mut self.names);
                names.push(queue.to_owned());
                proof {
                    assert(texts(names@) =~= before.push(queue@));
                    law_registration_is_once(before, queue@);
                }
                self.names = names;
                Ok(n)
            },
        }
    }

    /// The registered queue names, to claim tasks for.
    pub fn queues(&self) -> (r: Vec<String>)
        ensures
            texts(r@) == self.names(),
            distinct_texts(texts(r@)),
    {
        proof {
            use_type_invariant(self);
        }
        self.names.clone()
    }

    /// Where a claimed task goes: to its queue's channel when the queue is
    /// registered; a task without a queue, or of a queue no longer
    /// registered, goes nowhere.
    pub fn route(&self, queue: &Option<String>) -> (r: Option<usize>)
        ensures
            match queue {
                None => r is None,
                Some(q) => match r {
                    Some(i) => i < self.names().len() && self.names()[i as int] == q@,
                    None => !self.names().contains(q@),
                },
            },
    {
        match queue {
            None => None,
            Some(q) => self.position(q.as_str()),
        }
    }
}

/// How many tasks a shared claim asks for: ten, or one per queue where more
/// queues are registered.
pub fn shared_fetch_limit(queues: usize) -> (r: i64)
    requires
        queues <= i64::MAX,
    ensures
        r as int == if queues < 10 { 10 } else { queues as int },
{
    if queues < 10 {
        10
    } else {
        queues as i64
    }
}

/// How many wake-ups the shared driver takes in at once: one per registered
/// queue (at least one), or one when the registry is busy.
pub fn wake_chunk(registered: Option<usize>) -> (r: usize)
    ensures
        r == match registered {
            Some(n) => if n == 0 { 1 } else { n },
            None => 1,
        },
{
    match registered {
        Some(n) => if n == 0 { 1 } else { n },
        None => 1,
    }
}

/// A queue registered once cannot be registered again, and the refusal
/// leaves the registry as it was; once registered, its tasks are routed to it.
pub proof fn law_registration_is_once(names: Seq<Seq<char>>, queue: Seq<char>)
    requires
        distinct_texts(names),
        !names.contains(queue),
    ensures
        names.push(queue).contains(queue),
        distinct_texts(names.push(queue)),
        names.push(queue)[names.len() as int] == queue,
{
    assert(names.push(queue)[names.len() as int] == queue);
    assert forall|i: int, j: int| 0 <= i < names.push(queue).len() && 0 <= j < names.push(queue).len() && i != j
        implies names.push(queue)[i] != names.push(queue)[j] by {
        if i == names.len() {
            assert(names.push(queue)[j] == names[j]);
        } else if j == names.len() {
            assert(names.push(queue)[i] == names[i]);
        }
    }
}

} // verus!
