use vstd::prelude::*;

use crate::actor::Actor;
use crate::boid::{Boid, BoidId, BoidMessage, BoidState};
use crate::boid::initial_boid_state;
use crate::mailbox::Mailbox;
use crate::world::{WorldMessage, WorldTime};
use crate::Error;
use crate::MAILBOX_CAPACITY;

verus! {

/// The messages the fan-out manager reacts to.
#[derive(Debug, Clone)]
pub enum BoidManagerMessage {
    /// A round start from the coordinator: broadcast an advance for this
    /// round time to every registered worker.
    WorldUpdate(WorldTime),
    /// A worker's report for the active round.
    BoidUpdate(BoidState),
    /// Close the manager's own mailbox.
    Stop,
}

/// One send the manager asks its runtime to perform while handling a message.
#[derive(Debug, Clone)]
pub enum ManagerSend {
    /// A message routed to the worker with the given identity.
    ToBoid(BoidId, BoidMessage),
    /// A report routed to the coordinator.
    ToWorld(WorldMessage),
}

/// What one manager handling step does, over the abstract manager state: the
/// registry size `n` (the workers carry identities below `n`), the active
/// round time, and the list of identities that reported this round. Yields
/// the new round time, the new completion list, the sends asked for, and
/// whether the step closes the manager's mailbox.
pub open spec fn manager_step(
    n: nat,
    time: WorldTime,
    completed: Seq<BoidId>,
    msg: BoidManagerMessage,
) -> (WorldTime, Seq<BoidId>, Seq<ManagerSend>, bool) {
    match msg {
        BoidManagerMessage::WorldUpdate(t) => (
            t,
            completed,
            Seq::new(n, |i: int| ManagerSend::ToBoid(i as BoidId, BoidMessage::Update(t))),
            false,
        ),
        BoidManagerMessage::BoidUpdate(s) => {
            let done = completed.push(s.id);
            let confirms: Seq<ManagerSend> = if (s.id as int) < (n as int) {
                seq![ManagerSend::ToBoid(s.id, BoidMessage::Confirm(s))]
            } else {
                Seq::empty()
            };
            if done.len() >= n {
                (
                    time,
                    Seq::empty(),
                    confirms.push(ManagerSend::ToWorld(WorldMessage::UpdateComplete(time))),
                    false,
                )
            } else {
                (time, done, confirms, false)
            }
        },
        BoidManagerMessage::Stop => (time, completed, Seq::empty(), true),
    }
}

/// Processing a whole message sequence, front first, threading the manager
/// state through and concatenating the sends.
pub open spec fn manager_run(
    n: nat,
    time: WorldTime,
    completed: Seq<BoidId>,
    msgs: Seq<BoidManagerMessage>,
) -> (WorldTime, Seq<BoidId>, Seq<ManagerSend>, bool)
    decreases msgs.len(),
{
    if msgs.len() == 0 {
        (time, completed, Seq::empty(), false)
    } else {
        let step = manager_step(n, time, completed, msgs.first());
        let rest = manager_run(n, step.0, step.1, msgs.drop_first());
        (rest.0, rest.1, step.2 + rest.2, step.3 || rest.3)
    }
}

/// The fan-out manager: owns the registry of worker identities (fixed at
/// construction), the active round time, and the per-round completion list.
/// The workers' mailbox handles live with the runtime that performs the
/// manager's sends; the manager itself never holds a worker's state.
pub struct BoidManager {
    mailbox: Mailbox<BoidManagerMessage>,
    num_boids: usize,
    update_cycle_time: WorldTime,
    update_cycle_completed: Vec<BoidId>,
}

impl BoidManager {
    /// How many workers are registered; their identities are 0 up to this.
    pub closed spec fn registry_size(self) -> nat {
        self.num_boids as nat
    }

    /// The round time the manager is currently collecting reports for.
    pub closed spec fn cycle_time(self) -> WorldTime {
        self.update_cycle_time
    }

    /// The identities that reported completion this round, in arrival order.
    pub closed spec fn completed(self) -> Seq<BoidId> {
        self.update_cycle_completed@
    }

    /// The mailbox's backpressure bound.
    pub closed spec fn cap(self) -> nat {
        self.mailbox.cap()
    }

    /// Whether the manager's mailbox has been closed.
    pub closed spec fn is_closed(self) -> bool {
        self.mailbox.is_closed()
    }

    /// Builds the manager together with its worker set: the workers get the
    /// identities 0 up to `num_boids`, each starting from the initial state,
    /// and the registry is fixed for the manager's lifetime.
    pub fn new(num_boids: usize) -> (r: (BoidManager, Vec<Boid>))
        ensures
            r.0.registry_size() == num_boids as nat,
            r.0.cycle_time() == 0,
            r.0.completed() == Seq::<BoidId>::empty(),
            r.0.inbox() == Seq::<BoidManagerMessage>::empty(),
            r.0.cap() == MAILBOX_CAPACITY as nat,
            !r.0.is_closed(),
            r.1@.len() == num_boids,
            forall|i: int|
                0 <= i < num_boids ==> {
                    &&& (#[trigger] r.1@[i]).state() == initial_boid_state(i as BoidId)
                    &&& r.1@[i].inbox().len() == 0
                    &&& !r.1@[i].is_closed()
                    &&& r.1@[i].cap() == MAILBOX_CAPACITY as nat
                },
    {
        let mut boids: Vec<Boid> = Vec::new();
        let mut i: usize = 0;
        while i < num_boids
            invariant
                i <= num_boids,
                boids@.len() == i,
                forall|j: int|
                    0 <= j < i ==> {
                        &&& (#[trigger] boids@[j]).state() == initial_boid_state(j as BoidId)
                        &&& boids@[j].inbox().len() == 0
                        &&& !boids@[j].is_closed()
                        &&& boids@[j].cap() == MAILBOX_CAPACITY as nat
                    },
            decreases num_boids - i,
        {
            boids.push(Boid::new(i as u64));
            i = i + 1;
        }
        let manager = BoidManager {
            mailbox: Mailbox::new(MAILBOX_CAPACITY),
            num_boids,
            update_cycle_time: 0,
            update_cycle_completed: Vec::new(),
        };
        (manager, boids)
    }

    /// Whether the manager's mailbox has been closed.
    pub fn is_shut(&self) -> (b: bool)
        ensures
            b == self.is_closed(),
    {
        self.mailbox.is_shut()
    }

    /// Enqueue a round start for the given time, as the coordinator's handle
    /// does. Fails, handing back the message, if the mailbox is closed.
    pub fn update(&mut self, time: WorldTime) -> (r: Result<(), Error>)
        requires
            old(self).is_closed() || old(self).inbox().len() < old(self).cap(),
        ensures
            final(self).registry_size() == old(self).registry_size(),
            final(self).cycle_time() == old(self).cycle_time(),
            final(self).completed() == old(self).completed(),
            final(self).cap() == old(self).cap(),
            final(self).is_closed() == old(self).is_closed(),
            old(self).is_closed() ==> r == Err::<(), Error>(Error::SendErrorBoidManager(
                BoidManagerMessage::WorldUpdate(time),
            )) && final(self).inbox() == old(self).inbox(),
            !old(self).is_closed() ==> r == Ok::<(), Error>(()) && final(self).inbox()
                == old(self).inbox().push(BoidManagerMessage::WorldUpdate(time)),
    {
        match self.mailbox.send(BoidManagerMessage::WorldUpdate(time)) {
            Ok(()) => Ok(()),
            Err(m) => Err(Error::SendErrorBoidManager(m)),
        }
    }

    /// Enqueue a worker's report, as a worker's handle to the manager does.
    /// Fails, handing back the message, if the mailbox is closed.
    pub fn boid_update(&mut self, boid_state: BoidState) -> (r: Result<(), Error>)
        requires
            old(self).is_closed() || old(self).inbox().len() < old(self).cap(),
        ensures
            final(self).registry_size() == old(self).registry_size(),
            final(self).cycle_time() == old(self).cycle_time(),
            final(self).completed() == old(self).completed(),
            final(self).cap() == old(self).cap(),
            final(self).is_closed() == old(self).is_closed(),
            old(self).is_closed() ==> r == Err::<(), Error>(Error::SendErrorBoidManager(
                BoidManagerMessage::BoidUpdate(boid_state),
            )) && final(self).inbox() == old(self).inbox(),
            !old(self).is_closed() ==> r == Ok::<(), Error>(()) && final(self).inbox()
                == old(self).inbox().push(BoidManagerMessage::BoidUpdate(boid_state)),
    {
        match self.mailbox.send(BoidManagerMessage::BoidUpdate(boid_state)) {
            Ok(()) => Ok(()),
            Err(m) => Err(Error::SendErrorBoidManager(m)),
        }
    }
}

impl Actor<BoidManagerMessage, ManagerSend> for BoidManager {
    closed spec fn inbox(self) -> Seq<BoidManagerMessage> {
        self.mailbox.inbox()
    }

    open spec fn handle_spec(
        pre: Self,
        msg: BoidManagerMessage,
        post: Self,
        r: Result<Vec<ManagerSend>, Error>,
    ) -> bool {
        let step = manager_step(pre.registry_size(), pre.cycle_time(), pre.completed(), msg);
        &&& post.registry_size() == pre.registry_size()
        &&& post.cycle_time() == step.0
        &&& post.completed() == step.1
        &&& post.cap() == pre.cap()
        &&& post.is_closed() == (pre.is_closed() || step.3)
        &&& r is Ok
        &&& r->Ok_0@ == step.2
    }

    open spec fn recv_spec(pre: Self, post: Self) -> bool {
        &&& post.registry_size() == pre.registry_size()
        &&& post.cycle_time() == pre.cycle_time()
        &&& post.completed() == pre.completed()
        &&& post.cap() == pre.cap()
        &&& post.is_closed() == pre.is_closed()
    }

    fn recv(&mut self) -> (r: Option<BoidManagerMessage>) {
        self.mailbox.recv()
    }

    fn handle_message(&mut self, msg: BoidManagerMessage) -> (r: Result<
        Vec<ManagerSend>,
        Error,
    >) {
        match msg {
            BoidManagerMessage::WorldUpdate(time) => {
                self.update_cycle_time = time;
                let mut sends: Vec<ManagerSend> = Vec::new();
                let mut i: usize = 0;
                while i < self.num_boids
                    invariant
                        i <= self.num_boids,
                        sends@ == Seq::new(
                            i as nat,
                            |j: int| ManagerSend::ToBoid(j as BoidId, BoidMessage::Update(time)),
                        ),
                    decreases self.num_boids - i,
                {
                    sends.push(ManagerSend::ToBoid(i as u64, BoidMessage::Update(time)));
                    proof {
                        assert(sends@ =~= Seq::new(
                            (i + 1) as nat,
                            |j: int| ManagerSend::ToBoid(j as BoidId, BoidMessage::Update(time)),
                        ));
                    }
                    i = i + 1;
                }
                proof {
                    assert(sends@ =~= manager_step(
                        old(self).registry_size(),
                        old(self).cycle_time(),
                        old(self).completed(),
                        msg,
                    ).2);
                }
                Ok(sends)
            },
            BoidManagerMessage::BoidUpdate(state) => {
                let id = state.id;
                self.update_cycle_completed.push(id);
                let mut sends: Vec<ManagerSend> = Vec::new();
                if id < self.num_boids as u64 {
                    sends.push(ManagerSend::ToBoid(id, BoidMessage::Confirm(state)));
                }
                if self.update_cycle_completed.len() >= self.num_boids {
                    self.update_cycle_completed = Vec::new();
                    sends.push(
                        ManagerSend::ToWorld(WorldMessage::UpdateComplete(self.update_cycle_time)),
                    );
                }
                proof {
                    assert(sends@ =~= manager_step(
                        old(self).registry_size(),
                        old(self).cycle_time(),
                        old(self).completed(),
                        msg,
                    ).2);
                }
                Ok(sends)
            },
            BoidManagerMessage::Stop => {
                self.mailbox.close();
                Ok(Vec::new())
            },
        }
    }
}

/// Placeholder for an aggregate view of the whole worker set's states;
/// structurally reserved, no component fills it in this design.
pub struct BoidsState {}

/// How many of the given sends are reports to the coordinator.
pub open spec fn world_report_count(sends: Seq<ManagerSend>) -> nat
    decreases sends.len(),
{
    if sends.len() == 0 {
        0
    } else {
        world_report_count(sends.drop_last()) + if sends.last() is ToWorld {
            1nat
        } else {
            0nat
        }
    }
}

proof fn lemma_world_report_count_concat(a: Seq<ManagerSend>, b: Seq<ManagerSend>)
    ensures
        world_report_count(a + b) == world_report_count(a) + world_report_count(b),
    decreases b.len(),
{
    if b.len() == 0 {
        assert(a + b =~= a);
    } else {
        assert((a + b).drop_last() =~= a + b.drop_last());
        lemma_world_report_count_concat(a, b.drop_last());
    }
}

proof fn lemma_barrier_aux(
    n: nat,
    time: WorldTime,
    completed: Seq<BoidId>,
    msgs: Seq<BoidManagerMessage>,
)
    requires
        n >= 1,
        msgs.len() >= 1,
        completed.len() + msgs.len() == n,
        forall|i: int| 0 <= i < msgs.len() ==> msgs[i] is BoidUpdate,
    ensures
        ({
            let run = manager_run(n, time, completed, msgs);
            &&& run.0 == time
            &&& run.1 == Seq::<BoidId>::empty()
            &&& world_report_count(run.2) == 1
            &&& run.2.len() >= 1 && run.2.last() == ManagerSend::ToWorld(
                WorldMessage::UpdateComplete(time),
            )
            &&& !run.3
        }),
    decreases msgs.len(),
{
    let step = manager_step(n, time, completed, msgs.first());
    let rest = manager_run(n, step.0, step.1, msgs.drop_first());
    assert(msgs[0] is BoidUpdate);
    if msgs.len() == 1 {
        // the final report: the completion list reaches the registry size,
        // is cleared, and exactly one report goes to the coordinator
        assert(manager_run(n, step.0, step.1, msgs.drop_first()) == (
            step.0,
            step.1,
            Seq::<ManagerSend>::empty(),
            false,
        ));
        assert(world_report_count(step.2) == 1) by {
            assert(step.2.last() == ManagerSend::ToWorld(WorldMessage::UpdateComplete(time)));
            assert(world_report_count(step.2.drop_last()) == 0) by {
                let confirms = step.2.drop_last();
                if confirms.len() > 0 {
                    assert(world_report_count(confirms.drop_last()) == 0);
                }
            }
        }
        assert(step.2 + rest.2 =~= step.2);
    } else {
        assert(forall|i: int|
            0 <= i < msgs.drop_first().len() ==> msgs.drop_first()[i] is BoidUpdate);
        lemma_barrier_aux(n, time, step.1, msgs.drop_first());
        assert(world_report_count(step.2) == 0) by {
            if step.2.len() > 0 {
                assert(world_report_count(step.2.drop_last()) == 0);
            }
        }
        lemma_world_report_count_concat(step.2, rest.2);
        assert((step.2 + rest.2).last() == rest.2.last());
    }
}

/// Barrier law: with a registry of `n >= 1` workers and a cleared completion
/// list, processing exactly `n` worker reports — whatever identities they
/// carry and in whatever order they arrive — makes the manager report round
/// completion to the coordinator exactly once, on the last report and
/// carrying the active round time, and leaves the completion list cleared.
pub proof fn lemma_barrier(n: nat, time: WorldTime, msgs: Seq<BoidManagerMessage>)
    requires
        n >= 1,
        msgs.len() == n,
        forall|i: int| 0 <= i < msgs.len() ==> msgs[i] is BoidUpdate,
    ensures
        ({
            let run = manager_run(n, time, Seq::empty(), msgs);
            &&& run.0 == time
            &&& run.1 == Seq::<BoidId>::empty()
            &&& world_report_count(run.2) == 1
            &&& run.2.len() >= 1 && run.2.last() == ManagerSend::ToWorld(
                WorldMessage::UpdateComplete(time),
            )
            &&& !run.3
        }),
{
    lemma_barrier_aux(n, time, Seq::empty(), msgs);
}

/// One full round at the manager: from a cleared completion list, a round
/// start for time `t` followed by one report from each of the `n >= 1`
/// workers makes the manager report completion exactly once, echoing `t` —
/// exactly the discipline the coordinator's monotonicity and termination
/// laws assume of the reports they are fed.
pub proof fn lemma_round_echoes(
    n: nat,
    time0: WorldTime,
    t: WorldTime,
    msgs: Seq<BoidManagerMessage>,
)
    requires
        n >= 1,
        msgs.len() == n + 1,
        msgs.first() == BoidManagerMessage::WorldUpdate(t),
        forall|i: int| 1 <= i < msgs.len() ==> msgs[i] is BoidUpdate,
    ensures
        ({
            let run = manager_run(n, time0, Seq::empty(), msgs);
            &&& run.0 == t
            &&& run.1 == Seq::<BoidId>::empty()
            &&& world_report_count(run.2) == 1
            &&& run.2.len() >= 1 && run.2.last() == ManagerSend::ToWorld(
                WorldMessage::UpdateComplete(t),
            )
            &&& !run.3
        }),
{
    let step = manager_step(n, time0, Seq::empty(), msgs.first());
    let reports = msgs.drop_first();
    assert(forall|i: int| 0 <= i < reports.len() ==> reports[i] is BoidUpdate);
    lemma_barrier(n, t, reports);
    let rest = manager_run(n, t, Seq::empty(), reports);
    lemma_world_report_count_concat(step.2, rest.2);
    assert(world_report_count(step.2) == 0) by {
        lemma_broadcast_has_no_reports(step.2);
    }
    assert((step.2 + rest.2).last() == rest.2.last());
}

/// A broadcast of advances carries no report to the coordinator.
proof fn lemma_broadcast_has_no_reports(sends: Seq<ManagerSend>)
    requires
        forall|i: int| 0 <= i < sends.len() ==> (#[trigger] sends[i]) is ToBoid,
    ensures
        world_report_count(sends) == 0,
    decreases sends.len(),
{
    if sends.len() > 0 {
        lemma_broadcast_has_no_reports(sends.drop_last());
    }
}

/// State-isolation law at the manager: every confirm the manager forwards
/// while handling one message is addressed to the worker whose identity the
/// confirmed state itself carries, so a worker can only ever be confirmed
/// with a state of its own identity.
pub proof fn lemma_confirm_targets_reporter(
    n: nat,
    time: WorldTime,
    completed: Seq<BoidId>,
    msg: BoidManagerMessage,
)
    ensures
        forall|i: int|
            0 <= i < manager_step(n, time, completed, msg).2.len() ==> {
                let send = #[trigger] manager_step(n, time, completed, msg).2[i];
                send matches ManagerSend::ToBoid(id, BoidMessage::Confirm(s)) ==> id == s.id
            },
{
}

} // verus!
