use vstd::prelude::*;

verus! {

/// Outcome of a non-suspending send attempt into a mailbox.
pub enum SendOutcome<M> {
    /// The message was enqueued at the back of the queue.
    Sent,
    /// The queue is at capacity: the sender is backpressured. The message is
    /// handed back to the caller, never dropped; in the asynchronous runtime
    /// this is the point where the sending task suspends until space frees.
    Full(M),
    /// The mailbox was closed: the send fails and the message is handed back.
    Closed(M),
}

/// A bounded FIFO message queue, owned exclusively by one actor.
///
/// The queue holds at most `capacity` messages. Closing the mailbox stops
/// new sends but keeps the already-queued messages, which are still
/// delivered in order: close is a cooperative cancellation, not a drop.
pub struct Mailbox<M> {
    queue: Vec<M>,
    capacity: usize,
    closed: bool,
}

impl<M> Mailbox<M> {
    /// The pending messages, the next one to be received first.
    pub closed spec fn inbox(self) -> Seq<M> {
        self.queue@
    }

    /// The backpressure bound the mailbox was created with.
    pub closed spec fn cap(self) -> nat {
        self.capacity as nat
    }

    /// Whether the mailbox has been closed.
    pub closed spec fn is_closed(self) -> bool {
        self.closed
    }

    /// An empty, open mailbox of the given capacity. A capacity of zero is
    /// not meaningful for a queue that must be able to hold a message.
    pub fn new(capacity: usize) -> (m: Self)
        requires
            capacity >= 1,
        ensures
            m.inbox() == Seq::<M>::empty(),
            m.cap() == capacity as nat,
            !m.is_closed(),
    {
        Mailbox { queue: Vec::new(), capacity, closed: false }
    }

    /// Non-suspending send: enqueues the message if the mailbox is open and
    /// below capacity, and otherwise hands the message back, saying why.
    pub fn try_send(&mut self, msg: M) -> (r: SendOutcome<M>)
        ensures
            final(self).cap() == old(self).cap(),
            final(self).is_closed() == old(self).is_closed(),
            old(self).is_closed() ==> r == SendOutcome::Closed(msg)
                && final(self).inbox() == old(self).inbox(),
            !old(self).is_closed() && old(self).inbox().len() >= old(self).cap()
                ==> r == SendOutcome::Full(msg) && final(self).inbox() == old(self).inbox(),
            !old(self).is_closed() && old(self).inbox().len() < old(self).cap()
                ==> r == SendOutcome::<M>::Sent
                && final(self).inbox() == old(self).inbox().push(msg),
    {
        if self.closed {
            SendOutcome::Closed(msg)
        } else if self.queue.len() >= self.capacity {
            SendOutcome::Full(msg)
        } else {
            self.queue.push(msg);
            SendOutcome::Sent
        }
    }

    /// Send: enqueues the message, or fails with the message handed back if
    /// the mailbox is closed. A send into a full open mailbox suspends the
    /// sending task until space frees; that case has no synchronous result
    /// and is excluded here, so callers first make room or use `try_send`.
    pub fn send(&mut self, msg: M) -> (r: Result<(), M>)
        requires
            old(self).is_closed() || old(self).inbox().len() < old(self).cap(),
        ensures
            final(self).cap() == old(self).cap(),
            final(self).is_closed() == old(self).is_closed(),
            old(self).is_closed() ==> r == Err::<(), M>(msg)
                && final(self).inbox() == old(self).inbox(),
            !old(self).is_closed() ==> r == Ok::<(), M>(())
                && final(self).inbox() == old(self).inbox().push(msg),
    {
        if self.closed {
            Err(msg)
        } else {
            self.queue.push(msg);
            Ok(())
        }
    }

    /// Receive the message at the front of the queue. Yields `None` only on
    /// an empty queue; queued messages are still yielded after a close, so
    /// nothing already sent is lost. In the asynchronous runtime a receive
    /// on an empty open mailbox suspends instead until a message arrives.
    pub fn recv(&mut self) -> (r: Option<M>)
        ensures
            final(self).cap() == old(self).cap(),
            final(self).is_closed() == old(self).is_closed(),
            old(self).inbox().len() == 0 ==> r == Option::<M>::None
                && final(self).inbox() == old(self).inbox(),
            old(self).inbox().len() > 0 ==> r == Some(old(self).inbox().first())
                && final(self).inbox() == old(self).inbox().drop_first(),
    {
        if self.queue.len() == 0 {
            None
        } else {
            let m = self.queue.remove(0);
            proof {
                assert(self.queue@ =~= old(self).queue@.drop_first());
            }
            Some(m)
        }
    }

    /// Close the mailbox: no further sends are accepted, while queued
    /// messages stay readable. Idempotent.
    pub fn close(&mut self)
        ensures
            final(self).is_closed(),
            final(self).inbox() == old(self).inbox(),
            final(self).cap() == old(self).cap(),
    {
        self.closed = true;
    }

    /// Number of queued messages.
    pub fn len(&self) -> (n: usize)
        ensures
            n as nat == self.inbox().len(),
    {
        self.queue.len()
    }

    /// The backpressure bound.
    pub fn capacity(&self) -> (n: usize)
        ensures
            n as nat == self.cap(),
    {
        self.capacity
    }

    /// Whether the mailbox has been closed.
    pub fn is_shut(&self) -> (b: bool)
        ensures
            b == self.is_closed(),
    {
        self.closed
    }
}

/// Backpressure law: when a full mailbox backpressures a sender, nothing is
/// lost (`try_send` hands the very message back and leaves the queue as it
/// was), and once one receive frees a slot, enqueueing that message delivers
/// every message that was already waiting first, in its original order, with
/// the backpressured message last.
pub proof fn lemma_backpressure_keeps_order<M>(q: Seq<M>, m: M)
    requires
        q.len() >= 1,
    ensures
        q.drop_first().push(m).len() == q.len(),
        forall|i: int| 1 <= i < q.len() ==> q.drop_first().push(m)[i - 1] == q[i],
        q.drop_first().push(m)[q.len() - 1] == m,
{
}

} // verus!
