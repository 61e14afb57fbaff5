use vstd::prelude::*;

use crate::Error;

verus! {

/// The contract every actor implements: receive one message from the mailbox
/// it exclusively owns, or learn that the mailbox is drained, and handle one
/// message, producing the sends it asks its runtime to perform, or a failure.
///
/// `M` is the actor's message type; `A` is the type of one outbound send.
/// Handlers run strictly sequentially per actor: a handling step owns the
/// actor exclusively, so no two messages for the same actor are ever handled
/// concurrently.
pub trait Actor<M, A>: Sized {
    /// The pending messages of the actor's own mailbox, the next one to be
    /// received first.
    spec fn inbox(self) -> Seq<M>;

    /// What handling one message does: how the actor after the step relates
    /// to the actor before it, and which result the step produces.
    spec fn handle_spec(pre: Self, msg: M, post: Self, r: Result<Vec<A>, Error>) -> bool;

    /// What a receive leaves untouched: everything observable about the
    /// actor except its queue (receiving dequeues, it never computes).
    spec fn recv_spec(pre: Self, post: Self) -> bool;

    /// Receive the next pending message in FIFO order; `None` says the
    /// mailbox is drained and the run loop may end.
    fn recv(&mut self) -> (r: Option<M>)
        ensures
            Self::recv_spec(*old(self), *final(self)),
            match r {
                Some(m) => old(self).inbox().len() > 0
                    && m == old(self).inbox().first()
                    && final(self).inbox() == old(self).inbox().drop_first(),
                None => old(self).inbox().len() == 0
                    && final(self).inbox() == old(self).inbox(),
            },
    ;

    /// Handle exactly one message. The returned sends are performed by the
    /// caller; a handler never grows its own queue, so every run loop ends.
    fn handle_message(&mut self, msg: M) -> (r: Result<Vec<A>, Error>)
        ensures
            Self::handle_spec(*old(self), msg, *final(self), r),
            final(self).inbox() == old(self).inbox(),
    ;
}

/// One link of a successful run: the receive takes the front message and
/// preserves everything else (`recv_spec`); the handling step succeeds with
/// the result `r0` and keeps the queue; the sends are what this step asked
/// for followed by the rest of the run's.
pub open spec fn run_step_link<M, A, T: Actor<M, A>>(
    pre: T,
    msgs: Seq<M>,
    actions: Seq<A>,
    mid1: T,
    mid2: T,
    r0: Result<Vec<A>, Error>,
    rest: Seq<A>,
) -> bool {
    &&& T::recv_spec(pre, mid1)
    &&& mid1.inbox() == pre.inbox().drop_first()
    &&& T::handle_spec(mid1, msgs.first(), mid2, r0)
    &&& r0 is Ok
    &&& mid2.inbox() == mid1.inbox()
    &&& actions == r0->Ok_0@ + rest
}

/// A successful run over the given messages: one receive and one successful
/// handling step per message, front first, then the final receive that finds
/// the mailbox drained. Relates the actor before the run to the actor after
/// it and fixes the accumulated sends as the concatenation of what each
/// handling step asked for, in order.
pub open spec fn run_steps<M, A, T: Actor<M, A>>(
    pre: T,
    msgs: Seq<M>,
    post: T,
    actions: Seq<A>,
) -> bool
    decreases msgs.len(),
{
    if msgs.len() == 0 {
        &&& T::recv_spec(pre, post)
        &&& post.inbox() == pre.inbox()
        &&& actions == Seq::<A>::empty()
    } else {
        exists|mid1: T, mid2: T, r0: Result<Vec<A>, Error>, rest: Seq<A>|
            (#[trigger] run_step_link(pre, msgs, actions, mid1, mid2, r0, rest))
                && run_steps(mid2, msgs.drop_first(), post, rest)
    }
}

/// Chaining rule for a run: a receive, a successful handling step and a run
/// over the remaining messages make a run over the whole queue.
proof fn lemma_run_steps_cons<M, A, T: Actor<M, A>>(
    pre: T,
    mid1: T,
    mid2: T,
    r0: Result<Vec<A>, Error>,
    rest: Seq<A>,
    post: T,
)
    requires
        pre.inbox().len() > 0,
        T::recv_spec(pre, mid1),
        mid1.inbox() == pre.inbox().drop_first(),
        T::handle_spec(mid1, pre.inbox().first(), mid2, r0),
        r0 is Ok,
        mid2.inbox() == mid1.inbox(),
        run_steps(mid2, pre.inbox().drop_first(), post, rest),
    ensures
        run_steps(pre, pre.inbox(), post, r0->Ok_0@ + rest),
{
    assert(run_step_link(pre, pre.inbox(), r0->Ok_0@ + rest, mid1, mid2, r0, rest));
}

/// The driving run loop of the actor contract: repeatedly receive and handle
/// until the mailbox is drained, accumulating the sends the handlers ask
/// for. A failure from a handler aborts the loop at once and is handed to
/// whoever awaited the actor; there is no retry at this layer. On an empty
/// mailbox nothing can fail, so the loop is owed success there; a success is
/// always a full run over the queued messages.
pub fn run_actor<M, A, T: Actor<M, A>>(actor: &mut T) -> (r: Result<Vec<A>, Error>)
    ensures
        r is Ok ==> final(actor).inbox().len() == 0,
        r is Ok ==> run_steps(*old(actor), old(actor).inbox(), *final(actor), r->Ok_0@),
        old(actor).inbox().len() == 0 ==> r is Ok && r->Ok_0@ == Seq::<A>::empty(),
{
    let mut actions: Vec<A> = Vec::new();
    proof {
        assert forall|post: T, rest: Seq<A>|
            #[trigger] run_steps(*actor, actor.inbox(), post, rest) implies run_steps(
            *old(actor),
            old(actor).inbox(),
            post,
            actions@ + rest,
        ) by {
            assert(actions@ + rest =~= rest);
        }
    }
    loop
        invariant
            old(actor).inbox().len() == 0 ==> actor.inbox().len() == 0 && actions@ == Seq::<
                A,
            >::empty(),
            forall|post: T, rest: Seq<A>|
                #[trigger] run_steps(*actor, actor.inbox(), post, rest) ==> run_steps(
                    *old(actor),
                    old(actor).inbox(),
                    post,
                    actions@ + rest,
                ),
        decreases actor.inbox().len(),
    {
        let ghost pre_it = *actor;
        let ghost pre_actions = actions@;
        match actor.recv() {
            None => {
                proof {
                    assert(run_steps(pre_it, pre_it.inbox(), *actor, Seq::<A>::empty()));
                    assert(actions@ + Seq::<A>::empty() =~= actions@);
                }
                return Ok(actions);
            },
            Some(msg) => {
                let ghost mid1 = *actor;
                match actor.handle_message(msg) {
                    Ok(mut acts) => {
                        let ghost gacts = acts;
                        let ghost mid2 = *actor;
                        actions.append(&mut acts);
                        proof {
                            assert forall|post: T, rest: Seq<A>|
                                #[trigger] run_steps(*actor, actor.inbox(), post, rest) implies run_steps(
                                *old(actor),
                                old(actor).inbox(),
                                post,
                                actions@ + rest,
                            ) by {
                                assert(run_steps(mid2, pre_it.inbox().drop_first(), post, rest));
                                lemma_run_steps_cons(pre_it, mid1, mid2, Ok(gacts), rest, post);
                                assert(run_steps(
                                    *old(actor),
                                    old(actor).inbox(),
                                    post,
                                    pre_actions + (gacts@ + rest),
                                ));
                                assert(actions@ + rest =~= pre_actions + (gacts@ + rest));
                            }
                        }
                    },
                    Err(e) => {
                        return Err(e);
                    },
                }
            },
        }
    }
}

} // verus!
