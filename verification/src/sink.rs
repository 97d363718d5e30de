//! The buffered sink: tasks sent to the storage wait in a buffer until a
//! flush pushes them, all at once and in order.
use vstd::prelude::*;

verus! {

/// What the driver of a flush does next.
#[derive(Debug)]
pub enum FlushAction<T> {
    /// Wait for the push under way.
    AwaitPush,
    /// Push these tasks, then wait for the push.
    Push(Vec<T>),
    /// Nothing is left to push: the flush is done.
    Done,
}

/// The buffer of a sink and whether a push is under way.
pub struct SinkBuffer<T> {
    buffer: Vec<T>,
    pushing: bool,
}

/// The sink's state, as plain values.
pub struct SinkState<T> {
    pub buffer: Seq<T>,
    pub pushing: bool,
}

impl<T> View for SinkBuffer<T> {
    type V = SinkState<T>;

    closed spec fn view(&self) -> SinkState<T> {
        SinkState { buffer: self.buffer@, pushing: self.pushing }
    }
}

/// What the next step of a flush does, apart from the batch it hands out:
/// wait for a push under way; push everything buffered; or, with nothing
/// buffered, be done.
#[derive(Clone, Copy, Debug, PartialEq, Eq, Structural)]
pub enum FlushKind {
    AwaitPush,
    Push,
    Done,
}

/// The kind of the next step of a flush from `s`.
pub open spec fn flush_kind<T>(s: SinkState<T>) -> FlushKind {
    if s.pushing {
        FlushKind::AwaitPush
    } else if s.buffer.len() == 0 {
        FlushKind::Done
    } else {
        FlushKind::Push
    }
}

/// The sink after the next step of a flush from `s`: a push empties the
/// buffer and is then under way; the other steps change nothing.
pub open spec fn flush_state<T>(s: SinkState<T>) -> SinkState<T> {
    if flush_kind(s) == FlushKind::Push {
        SinkState { buffer: Seq::empty(), pushing: true }
    } else {
        s
    }
}

impl<T> SinkBuffer<T> {
    /// An empty sink (a clone of a sink starts empty too).
    pub fn new() -> (r: Self)
        ensures
            r@.buffer.len() == 0,
            !r@.pushing,
    {
        SinkBuffer { buffer: Vec::new(), pushing: false }
    }

    /// Buffer a task.
    pub fn send(&mut self, item: T)
        ensures
            final(self)@.buffer == old(self)@.buffer.push(item),
            final(self)@.pushing == old(self)@.pushing,
    {
        self.buffer.push(item);
    }

    /// How many tasks wait in the buffer.
    pub fn buffered(&self) -> (r: usize)
        ensures
            r == self@.buffer.len(),
    {
        self.buffer.len()
    }

    /// Decide the next step of a flush.
    pub fn next_flush(&mut self) -> (r: FlushAction<T>)
        ensures
            final(self)@ == flush_state(old(self)@),
            match r {
                FlushAction::Push(batch) => flush_kind(old(self)@) == FlushKind::Push && batch@ == old(self)@.buffer,
                FlushAction::AwaitPush => flush_kind(old(self)@) == FlushKind::AwaitPush,
                FlushAction::Done => flush_kind(old(self)@) == FlushKind::Done,
            },
    {
        if self.pushing {
            FlushAction::AwaitPush
        } else if self.buffer.len() == 0 {
            FlushAction::Done
        } else {
            let mut batch: Vec<T> = Vec::new();
            std::mem::swap(&mut batch, &mut self.buffer);
            self.pushing = true;
            assert(self.buffer@ =~= Seq::<T>::empty());
            FlushAction::Push(batch)
        }
    }

    /// The push under way finished (well or not): the next step may push again.
    pub fn push_finished(&mut self)
        ensures
            final(self)@.buffer == old(self)@.buffer,
            !final(self)@.pushing,
    {
        self.pushing = false;
    }
}

/// A flush pushes what was sent, in the order it was sent, and only once:
/// the batch is the whole buffer, after which the buffer is empty, and once
/// the push has finished with nothing sent since, the flush is done.
pub proof fn law_flush_pushes_everything_once<T>(s: SinkState<T>)
    requires
        !s.pushing,
        s.buffer.len() > 0,
    ensures
        flush_kind(s) == FlushKind::Push,
        flush_state(s).buffer.len() == 0,
        flush_kind(SinkState { pushing: false, ..flush_state(s) }) == FlushKind::Done,
{
}

/// While a push is under way a flush only waits for it: whatever the buffer
/// holds, nothing is pushed and the sink is left as it was, so no batch is
/// handed out before the one under way has finished.
pub proof fn law_push_under_way_is_awaited<T>(s: SinkState<T>)
    requires
        s.pushing,
    ensures
        flush_kind(s) == FlushKind::AwaitPush,
        flush_state(s) == s,
{
}

/// With no push under way and nothing buffered a flush is done, and the sink
/// is left as it was.
pub proof fn law_nothing_buffered_is_done<T>(s: SinkState<T>)
    requires
        !s.pushing,
        s.buffer.len() == 0,
    ensures
        flush_kind(s) == FlushKind::Done,
        flush_state(s) == s,
{
}

} // verus!
