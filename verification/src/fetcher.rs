//! The fetchers of the storage, as state machines: the poll fetcher that
//! claims batches of due tasks and hands them out one by one, and the live
//! fetcher that wakes the backend when a job is created.
use vstd::prelude::*;
use std::collections::VecDeque;

use crate::errors::SurrealError;

verus! {

/// Marker fetcher that drives the polling backend.
#[derive(Clone, Copy, Debug)]
pub struct SurrealFetcher;

/// Where the poll fetcher stands.
#[derive(Clone, Copy, Debug, PartialEq, Eq, Structural)]
pub enum PollPhase {
    /// About to claim a batch.
    Ready,
    /// Waiting for the poll strategy's next tick.
    Delay,
    /// A claim is under way.
    Fetching,
    /// Handing out a claimed batch.
    Buffered,
    /// The stream has ended.
    Empty,
}

/// What the driver of the poll fetcher does next.
#[derive(Debug)]
pub enum PollAction<T> {
    /// Start claiming a batch, then wait for it.
    StartFetch,
    /// Wait for the claim under way.
    AwaitFetch,
    /// Wait for the poll strategy's next tick.
    AwaitTick,
    /// Deliver a claimed job to the worker.
    Yield(T),
    /// End the stream.
    End,
}

/// The poll fetcher's state, as plain values.
pub struct PollState<T> {
    pub phase: PollPhase,
    pub buffer: Seq<T>,
    pub prev_count: nat,
}

/// The poll fetcher's decisions.
pub struct PollMachine<T> {
    phase: PollPhase,
    buffer: VecDeque<T>,
    prev_count: usize,
}

impl<T> View for PollMachine<T> {
    type V = PollState<T>;

    closed spec fn view(&self) -> PollState<T> {
        PollState { phase: self.phase, buffer: self.buffer@, prev_count: self.prev_count as nat }
    }
}

/// One step of the fetcher: from `Ready` a claim starts; a delay or a claim
/// under way is waited for; a buffered batch hands out its first task (and
/// once it is drained, the fetcher is ready again, claiming at once when
/// nothing was left to hand out); an ended stream stays ended.
pub open spec fn poll_advance<T>(s: PollState<T>) -> (PollState<T>, PollAction<T>) {
    match s.phase {
        PollPhase::Ready => (PollState { phase: PollPhase::Fetching, ..s }, PollAction::StartFetch),
        PollPhase::Delay => (s, PollAction::AwaitTick),
        PollPhase::Fetching => (s, PollAction::AwaitFetch),
        PollPhase::Buffered => if s.buffer.len() > 0 {
            let rest = s.buffer.drop_first();
            (
                PollState {
                    phase: if rest.len() == 0 { PollPhase::Ready } else { PollPhase::Buffered },
                    buffer: rest,
                    ..s
                },
                PollAction::Yield(s.buffer[0]),
            )
        } else {
            (PollState { phase: PollPhase::Fetching, ..s }, PollAction::StartFetch)
        },
        PollPhase::Empty => (s, PollAction::End),
    }
}

/// A finished claim: a batch is counted (the count drives the poll
/// strategy's backoff) and handed out, an empty one means waiting for the
/// next tick; a failed claim ends the stream and its error is reported.
pub open spec fn poll_fetched<T>(s: PollState<T>, r: Result<Vec<T>, SurrealError>) -> (PollState<T>, Option<SurrealError>) {
    match r {
        Ok(tasks) => (
            PollState {
                phase: if tasks@.len() == 0 { PollPhase::Delay } else { PollPhase::Buffered },
                buffer: tasks@,
                prev_count: tasks@.len(),
            },
            None,
        ),
        Err(e) => (PollState { phase: PollPhase::Empty, ..s }, Some(e)),
    }
}

/// A tick of the poll strategy makes the fetcher ready; the end of the
/// strategy ends the stream.
pub open spec fn poll_ticked<T>(s: PollState<T>, more: bool) -> PollState<T> {
    PollState { phase: if more { PollPhase::Ready } else { PollPhase::Empty }, ..s }
}

/// While a claim is under way, a step only waits for it: the fetcher stays
/// as it was, so no second claim starts before the first is taken in.
pub proof fn law_claim_under_way_is_awaited<T>(s: PollState<T>)
    requires
        s.phase == PollPhase::Fetching,
    ensures
        poll_advance(s).0 == s,
        poll_advance(s).1 is AwaitFetch,
{
}

/// A claim starts only when none is under way and nothing is left to hand
/// out, and once started it is under way, with the fetcher otherwise as it
/// was.
pub proof fn law_claim_starts_alone<T>(s: PollState<T>)
    requires
        poll_advance(s).1 is StartFetch,
    ensures
        s.phase == PollPhase::Ready || (s.phase == PollPhase::Buffered && s.buffer.len() == 0),
        poll_advance(s).0 == (PollState { phase: PollPhase::Fetching, ..s }),
{
}

/// A step on a buffered batch yields its first task and keeps the rest, and
/// the fetcher is ready to claim again exactly when that was the last one.
pub proof fn law_step_yields_first<T>(s: PollState<T>)
    requires
        s.phase == PollPhase::Buffered,
        s.buffer.len() > 0,
    ensures
        poll_advance(s).1 == PollAction::Yield(s.buffer[0]),
        poll_advance(s).0.buffer == s.buffer.drop_first(),
        poll_advance(s).0.prev_count == s.prev_count,
        (poll_advance(s).0.phase == PollPhase::Ready) == (s.buffer.len() == 1),
        (poll_advance(s).0.phase == PollPhase::Buffered) == (s.buffer.len() > 1),
{
}

/// Waiting for a tick, or an ended stream, stays as it is: the fetcher waits
/// or ends and does not claim.
pub proof fn law_delay_and_end_stay<T>(s: PollState<T>)
    requires
        s.phase == PollPhase::Delay || s.phase == PollPhase::Empty,
    ensures
        poll_advance(s).0 == s,
        s.phase == PollPhase::Delay ==> poll_advance(s).1 is AwaitTick,
        s.phase == PollPhase::Empty ==> poll_advance(s).1 is End,
{
}

/// A claim that brings tasks buffers exactly them, in order, and counts them;
/// one that brings none waits for the next tick; a failed one ends the stream
/// and hands its error back.
pub proof fn law_claim_taken_in<T>(s: PollState<T>, r: Result<Vec<T>, SurrealError>)
    ensures
        r matches Ok(tasks) ==> poll_fetched(s, r).0.buffer == tasks@
            && poll_fetched(s, r).0.prev_count == tasks@.len()
            && poll_fetched(s, r).1 is None
            && (poll_fetched(s, r).0.phase == PollPhase::Buffered) == (tasks@.len() > 0)
            && (poll_fetched(s, r).0.phase == PollPhase::Delay) == (tasks@.len() == 0),
        r matches Err(e) ==> poll_fetched(s, r).0.phase == PollPhase::Empty && poll_fetched(s, r).1 == Some(e),
{
}

impl<T> PollMachine<T> {
    /// A fetcher about to claim its first batch.
    pub fn new() -> (r: Self)
        ensures
            r@.phase == PollPhase::Ready,
            r@.buffer.len() == 0,
            r@.prev_count == 0,
    {
        PollMachine { phase: PollPhase::Ready, buffer: VecDeque::new(), prev_count: 0 }
    }

    /// Decide the next step.
    pub fn advance(&mut self) -> (r: PollAction<T>)
        ensures
            (final(self)@, r) == poll_advance(old(self)@),
    {
        match self.phase {
            PollPhase::Ready => {
                self.phase = PollPhase::Fetching;
                PollAction::StartFetch
            },
            PollPhase::Delay => PollAction::AwaitTick,
            PollPhase::Fetching => PollAction::AwaitFetch,
            PollPhase::Buffered => match self.buffer.pop_front() {
                Some(t) => {
                    if self.buffer.len() == 0 {
                        self.phase = PollPhase::Ready;
                    }
                    assert(self.buffer@ =~= old(self)@.buffer.drop_first());
                    PollAction::Yield(t)
                },
                None => {
                    self.phase = PollPhase::Fetching;
                    PollAction::StartFetch
                },
            },
            PollPhase::Empty => PollAction::End,
        }
    }

    /// Take in the result of a claim; a failure is handed back to be reported.
    pub fn fetched(&mut self, r: Result<Vec<T>, SurrealError>) -> (e: Option<SurrealError>)
        ensures
            (final(self)@, e) == poll_fetched(old(self)@, r),
    {
        match r {
            Ok(tasks) => {
                let n = tasks.len();
                let mut tasks = tasks;
                let ghost all = tasks@;
                let mut buffer: VecDeque<T> = VecDeque::new();
                let mut i: usize = 0;
                while i < n
                    invariant
                        n == all.len(),
                        i <= n,
                        tasks@ == all.subrange(i as int, n as int),
                        buffer@ == all.subrange(0, i as int),
                    decreases n - i,
                {
                    let t = tasks.remove(0);
                    buffer.push_back(t);
                    i = i + 1;
                    assert(tasks@ =~= all.subrange(i as int, n as int));
                    assert(buffer@ =~= all.subrange(0, i as int));
                }
                assert(buffer@ =~= all);
                self.prev_count = n;
                self.phase = if n == 0 { PollPhase::Delay } else { PollPhase::Buffered };
                self.buffer = buffer;
                None
            },
            Err(e) => {
                self.phase = PollPhase::Empty;
                Some(e)
            },
        }
    }

    /// Take in a tick of the poll strategy, or its end.
    pub fn ticked(&mut self, more: bool)
        ensures
            final(self)@ == poll_ticked(old(self)@, more),
    {
        self.phase = if more { PollPhase::Ready } else { PollPhase::Empty };
    }

    /// How many tasks the last claim brought.
    pub fn prev_count(&self) -> (r: usize)
        ensures
            r == self@.prev_count,
    {
        self.prev_count
    }

    /// Drain the tasks already claimed but not yet handed out.
    pub fn take_pending(&mut self) -> (r: Vec<T>)
        ensures
            old(self)@.phase == PollPhase::Buffered ==> r@ == old(self)@.buffer && final(self)@ == (PollState {
                buffer: Seq::<T>::empty(),
                ..old(self)@
            }),
            old(self)@.phase != PollPhase::Buffered ==> r@.len() == 0 && final(self)@ == old(self)@,
    {
        let mut r: Vec<T> = Vec::new();
        if self.phase == PollPhase::Buffered {
            let ghost all = self.buffer@;
            let ghost count = self.prev_count;
            while self.buffer.len() > 0
                invariant
                    self.phase == PollPhase::Buffered,
                    self.prev_count == count,
                    all == r@ + self.buffer@,
                decreases self.buffer@.len(),
            {
                let ghost b = self.buffer@;
                let ghost prev = r@;
                match self.buffer.pop_front() {
                    Some(t) => {
                        r.push(t);
                        assert(all =~= r@ + self.buffer@) by {
                            assert(b =~= seq![t] + self.buffer@);
                        }
                    },
                    None => {},
                }
            }
            assert(r@ =~= all);
            assert(self.buffer@ =~= Seq::<T>::empty());
        }
        r
    }
}

/// The fetcher after `n` steps from `s`, and what each step did.
pub open spec fn poll_steps<T>(s: PollState<T>, n: nat) -> (PollState<T>, Seq<PollAction<T>>)
    decreases n,
{
    if n == 0 {
        (s, Seq::empty())
    } else {
        let (s1, a) = poll_advance(s);
        let (s2, rest) = poll_steps(s1, (n - 1) as nat);
        (s2, seq![a] + rest)
    }
}

/// A claimed batch is handed out in the order it came, each task once: from
/// a buffered batch, as many steps as it has tasks yield exactly those tasks,
/// and leave the fetcher ready to claim again.
pub proof fn law_batch_handed_out_in_order<T>(s: PollState<T>)
    requires
        s.phase == PollPhase::Buffered,
        s.buffer.len() > 0,
    ensures
        ({
            let (end, actions) = poll_steps(s, s.buffer.len());
            &&& end.phase == PollPhase::Ready
            &&& end.buffer.len() == 0
            &&& actions.len() == s.buffer.len()
            &&& forall|i: int| 0 <= i < actions.len() ==> actions[i] == PollAction::Yield(s.buffer[i])
        }),
    decreases s.buffer.len(),
{
    let (s1, a) = poll_advance(s);
    if s.buffer.len() > 1 {
        law_batch_handed_out_in_order(s1);
        let (end, rest) = poll_steps(s1, s1.buffer.len());
        assert(s.buffer.len() == s1.buffer.len() + 1);
        assert((s.buffer.len() - 1) as nat == s1.buffer.len());
        let actions = seq![a] + rest;
        assert forall|i: int| 0 <= i < actions.len() implies actions[i] == PollAction::Yield(s.buffer[i]) by {
            if i > 0 {
                assert(actions[i] == rest[i - 1]);
                assert(s1.buffer[i - 1] == s.buffer[i]);
            }
        }
    } else {
        let (end, rest) = poll_steps(s1, 0);
        assert(poll_steps(s, 1) == (end, seq![a] + rest));
    }
}

/// A failed claim ends the stream for good: the error is reported once, and
/// every later step ends the stream.
pub proof fn law_failed_claim_ends_stream<T>(s: PollState<T>, e: SurrealError, n: nat)
    ensures
        poll_fetched(s, Err(e)).1 == Some(e),
        ({
            let (end, actions) = poll_steps(poll_fetched(s, Err(e)).0, n);
            &&& end.phase == PollPhase::Empty
            &&& actions.len() == n
            &&& forall|i: int| 0 <= i < n ==> actions[i] is End
        }),
    decreases n,
{
    if n > 0 {
        law_failed_claim_ends_stream(s, e, (n - 1) as nat);
        let s0 = poll_fetched(s, Err(e)).0;
        let (s1, a) = poll_advance(s0);
        assert(s1 == s0);
        let (end, rest) = poll_steps(s1, (n - 1) as nat);
        let actions = seq![a] + rest;
        assert forall|i: int| 0 <= i < n implies actions[i] is End by {
            if i > 0 {
                assert(actions[i] == rest[i - 1]);
            }
        }
    }
}

/// Where the live fetcher stands.
#[derive(Clone, Copy, Debug, PartialEq, Eq, Structural)]
pub enum LivePhase {
    /// Not subscribed.
    Init,
    /// A subscription to the job table is under way.
    Subscribing,
    /// Subscribed; notifications are coming.
    Active,
}

/// What the driver of the live fetcher does next.
#[derive(Clone, Copy, Debug, PartialEq, Eq, Structural)]
pub enum LiveAction {
    /// Subscribe to the job table, then wait for it.
    Subscribe,
    /// Wait for the subscription under way.
    AwaitSubscription,
    /// Wait for the next notification.
    AwaitNotification,
}

/// What happened to the live fetcher.
#[derive(Clone, Copy, Debug, PartialEq, Eq, Structural)]
pub enum LiveEvent {
    /// The subscription went through.
    Subscribed,
    /// The subscription failed.
    SubscribeFailed,
    /// A job was created.
    Created,
    /// A job was changed or deleted.
    OtherChange,
    /// A notification could not be read.
    NotificationError,
    /// The notification stream ended.
    Closed,
}

/// What the live fetcher hands out after an event.
#[derive(Clone, Copy, Debug, PartialEq, Eq, Structural)]
pub enum LiveOutcome {
    /// Wake the backend.
    Wake,
    /// Keep going.
    Continue,
    /// End the stream.
    End,
}

/// The live fetcher's decisions.
pub struct LiveMachine {
    phase: LivePhase,
}

/// The next step from a phase: subscribe when not subscribed (the
/// subscription is then under way), else wait.
pub open spec fn live_advance(p: LivePhase) -> (LivePhase, LiveAction) {
    match p {
        LivePhase::Init => (LivePhase::Subscribing, LiveAction::Subscribe),
        LivePhase::Subscribing => (p, LiveAction::AwaitSubscription),
        LivePhase::Active => (p, LiveAction::AwaitNotification),
    }
}

/// An event: a subscription that went through makes the fetcher active, one
/// that failed ends the stream; a created job wakes the backend; other
/// changes and unreadable notifications are passed over; a closed stream is
/// subscribed again.
pub open spec fn live_event(p: LivePhase, e: LiveEvent) -> (LivePhase, LiveOutcome) {
    match e {
        LiveEvent::Subscribed => (LivePhase::Active, LiveOutcome::Continue),
        LiveEvent::SubscribeFailed => (p, LiveOutcome::End),
        LiveEvent::Created => (p, LiveOutcome::Wake),
        LiveEvent::OtherChange => (p, LiveOutcome::Continue),
        LiveEvent::NotificationError => (p, LiveOutcome::Continue),
        LiveEvent::Closed => (LivePhase::Init, LiveOutcome::Continue),
    }
}

impl LiveMachine {
    /// The phase the fetcher is in.
    pub closed spec fn phase(&self) -> LivePhase {
        self.phase
    }

    /// A fetcher not yet subscribed.
    pub fn new() -> (r: Self)
        ensures
            r.phase() == LivePhase::Init,
    {
        LiveMachine { phase: LivePhase::Init }
    }

    /// Decide the next step.
    pub fn advance(&mut self) -> (r: LiveAction)
        ensures
            (final(self).phase(), r) == live_advance(old(self).phase()),
    {
        match self.phase {
            LivePhase::Init => {
                self.phase = LivePhase::Subscribing;
                LiveAction::Subscribe
            },
            LivePhase::Subscribing => LiveAction::AwaitSubscription,
            LivePhase::Active => LiveAction::AwaitNotification,
        }
    }

    /// Take in an event.
    pub fn on_event(&mut self, e: LiveEvent) -> (r: LiveOutcome)
        ensures
            (final(self).phase(), r) == live_event(old(self).phase(), e),
    {
        match e {
            LiveEvent::Subscribed => {
                self.phase = LivePhase::Active;
                LiveOutcome::Continue
            },
            LiveEvent::SubscribeFailed => LiveOutcome::End,
            LiveEvent::Created => LiveOutcome::Wake,
            LiveEvent::OtherChange => LiveOutcome::Continue,
            LiveEvent::NotificationError => LiveOutcome::Continue,
            LiveEvent::Closed => {
                self.phase = LivePhase::Init;
                LiveOutcome::Continue
            },
        }
    }
}

/// Only a created job wakes the backend; a closed notification stream is
/// subscribed again on the next step.
pub proof fn law_live_wakes_on_creation_only(p: LivePhase, e: LiveEvent)
    ensures
        live_event(p, e).1 == LiveOutcome::Wake <==> e == LiveEvent::Created,
        e == LiveEvent::Closed ==> live_advance(live_event(p, e).0).1 == LiveAction::Subscribe,
{
}

} // verus!
