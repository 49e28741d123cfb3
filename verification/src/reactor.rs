//! The dispatch discipline of a message reactor. A dispatch runs the
//! handlers of a message; messages deferred while a dispatch runs are kept,
//! in order, and dispatched after it, batch by batch, until none is left.
//! The handlers themselves are closures that the caller holds and runs: this
//! type decides when a message is to be handled.
use vstd::prelude::*;

verus! {

/// What to do with a dispatched message.
#[derive(Clone, Copy, Debug, PartialEq, Eq, Structural)]
pub enum Dispatch<T> {
    /// A dispatch is running: run the handlers of the message right away,
    /// inside it.
    Now(T),
    /// No dispatch was running and this one starts: run the handlers of the
    /// message, then those of each batch that [`Reactor::next_batch`] hands
    /// out, until it hands out an empty one.
    Begin(T),
}

/// The queue after `msgs` were deferred onto `q`, one after another.
pub open spec fn deferred_all<T>(q: Seq<T>, msgs: Seq<T>) -> Seq<T>
    decreases msgs.len(),
{
    if msgs.len() == 0 {
        q
    } else {
        deferred_all(q, msgs.drop_last()).push(msgs.last())
    }
}

/// Deferred messages keep their order: deferring `msgs` one after another
/// onto the queue `q` leaves `q` followed by `msgs`, which is what the next
/// batch hands out.
pub proof fn lemma_defer_order<T>(q: Seq<T>, msgs: Seq<T>)
    ensures
        deferred_all(q, msgs) == q + msgs,
    decreases msgs.len(),
{
    if msgs.len() > 0 {
        lemma_defer_order(q, msgs.drop_last());
        assert((q + msgs.drop_last()).push(msgs.last()) =~= q + msgs);
    }
}

/// Whether a dispatch is running, and the messages deferred during it.
pub struct Reactor<T> {
    defer_queue: Vec<T>,
    defer_active: bool,
}

impl<T: Copy> Reactor<T> {
    /// The messages deferred and not yet handed out, oldest first.
    pub closed spec fn queued(&self) -> Seq<T> {
        self.defer_queue@
    }

    /// Whether a dispatch is running.
    pub closed spec fn active(&self) -> bool {
        self.defer_active
    }

    /// A reactor with no dispatch running and nothing deferred.
    pub fn new() -> (r: Self)
        ensures
            !r.active(),
            r.queued().len() == 0,
    {
        Self { defer_queue: Vec::new(), defer_active: false }
    }

    /// Dispatches `msg`: inside a running dispatch it is handled at once;
    /// otherwise a dispatch starts with it.
    pub fn dispatch(&mut self, msg: T) -> (r: Dispatch<T>)
        ensures
            old(self).active() ==> r == Dispatch::Now(msg),
            !old(self).active() ==> r == Dispatch::Begin(msg),
            final(self).active(),
            final(self).queued() == old(self).queued(),
    {
        if self.defer_active {
            Dispatch::Now(msg)
        } else {
            self.defer_active = true;
            Dispatch::Begin(msg)
        }
    }

    /// Defers `msg` until the running dispatch is done; with no dispatch
    /// running it is handed back, to be dispatched at once.
    pub fn defer(&mut self, msg: T) -> (r: Option<T>)
        ensures
            old(self).active() ==> r is None && final(self).queued() == old(self).queued().push(msg),
            !old(self).active() ==> r == Some(msg) && final(self).queued() == old(self).queued(),
            final(self).active() == old(self).active(),
    {
        if self.defer_active {
            self.defer_queue.push(msg);
            None
        } else {
            Some(msg)
        }
    }

    /// Hands out the messages deferred so far, oldest first, and forgets
    /// them; when there are none the dispatch is over.
    pub fn next_batch(&mut self) -> (r: Vec<T>)
        ensures
            r@ == old(self).queued(),
            final(self).queued().len() == 0,
            final(self).active() == (old(self).active() && old(self).queued().len() > 0),
    {
        let mut batch: Vec<T> = Vec::new();
        std::mem::swap(&mut batch, &mut self.defer_queue);
        if batch.len() == 0 {
            self.defer_active = false;
        }
        batch
    }
}

} // verus!
