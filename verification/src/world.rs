use vstd::prelude::*;

use crate::actor::Actor;
use crate::boid_manager::BoidManagerMessage;
use crate::mailbox::Mailbox;
use crate::Error;
use crate::MAILBOX_CAPACITY;

verus! {

/// The logical simulation tick. It never decreases over a coordinator's
/// lifetime.
pub type WorldTime = u64;

/// The messages the coordinator reacts to.
#[derive(Debug, Clone)]
pub enum WorldMessage {
    /// Kick off the first round at the coordinator's current time.
    Start,
    /// The manager observed completion from every worker for this round.
    UpdateComplete(WorldTime),
    /// Close the coordinator's own mailbox (external cancellation hook).
    Stop,
}

/// The coordinator's own state: the current round time.
#[derive(Debug, Clone)]
pub struct WorldState {
    time: WorldTime,
}

impl WorldState {
    /// The current round time.
    pub closed spec fn time(self) -> WorldTime {
        self.time
    }
}

/// What one coordinator handling step does, over the current round time and
/// the round threshold: the new round time, the round starts sent to the
/// manager, and whether the step closes the coordinator's mailbox, ending
/// the run.
///
/// A completion report strictly beyond the threshold ends the run; one at or
/// below it advances the time by one and starts that round. A report at the
/// numeric limit of the round counter also ends the run, since no next round
/// time exists.
pub open spec fn world_step(time: WorldTime, end_time: WorldTime, msg: WorldMessage) -> (
    WorldTime,
    Seq<BoidManagerMessage>,
    bool,
) {
    match msg {
        WorldMessage::Start => (time, seq![BoidManagerMessage::WorldUpdate(time)], false),
        WorldMessage::UpdateComplete(t) => {
            if t > end_time || t == u64::MAX {
                (time, Seq::empty(), true)
            } else {
                (
                    (t + 1) as WorldTime,
                    seq![BoidManagerMessage::WorldUpdate((t + 1) as WorldTime)],
                    false,
                )
            }
        },
        WorldMessage::Stop => (time, Seq::empty(), true),
    }
}

/// Processing a whole message sequence, front first, threading the round
/// time through and concatenating the round starts.
pub open spec fn world_run(time: WorldTime, end_time: WorldTime, msgs: Seq<WorldMessage>) -> (
    WorldTime,
    Seq<BoidManagerMessage>,
    bool,
)
    decreases msgs.len(),
{
    if msgs.len() == 0 {
        (time, Seq::empty(), false)
    } else {
        let step = world_step(time, end_time, msgs.first());
        let rest = world_run(step.0, end_time, msgs.drop_first());
        (rest.0, step.1 + rest.1, step.2 || rest.2)
    }
}

/// The coordinator: owns its mailbox, the current round time, and the round
/// threshold. The manager's handle lives with the runtime that performs the
/// coordinator's sends.
pub struct World {
    mailbox: Mailbox<WorldMessage>,
    world_state: WorldState,
    end_time: WorldTime,
}

impl World {
    /// The current round time.
    pub closed spec fn time(self) -> WorldTime {
        self.world_state.time
    }

    /// The round threshold the coordinator terminates against.
    pub closed spec fn end_time(self) -> WorldTime {
        self.end_time
    }

    /// The mailbox's backpressure bound.
    pub closed spec fn cap(self) -> nat {
        self.mailbox.cap()
    }

    /// Whether the coordinator's mailbox has been closed.
    pub closed spec fn is_closed(self) -> bool {
        self.mailbox.is_closed()
    }

    /// A coordinator starting at the given round time, terminating once a
    /// completion report exceeds the given threshold.
    pub fn new(time: WorldTime, end_time: WorldTime) -> (w: Self)
        ensures
            w.time() == time,
            w.end_time() == end_time,
            w.inbox() == Seq::<WorldMessage>::empty(),
            w.cap() == MAILBOX_CAPACITY as nat,
            !w.is_closed(),
    {
        World {
            mailbox: Mailbox::new(MAILBOX_CAPACITY),
            world_state: WorldState { time },
            end_time,
        }
    }

    /// The current round time, as the tests and the runtime observe it.
    pub fn current_time(&self) -> (t: WorldTime)
        ensures
            t == self.time(),
    {
        self.world_state.time
    }

    /// Whether the coordinator's mailbox has been closed.
    pub fn is_shut(&self) -> (b: bool)
        ensures
            b == self.is_closed(),
    {
        self.mailbox.is_shut()
    }

    /// Enqueue the start message that kicks off the first round. Fails,
    /// handing back the message, if the mailbox is closed.
    pub fn start(&mut self) -> (r: Result<(), Error>)
        requires
            old(self).is_closed() || old(self).inbox().len() < old(self).cap(),
        ensures
            final(self).time() == old(self).time(),
            final(self).end_time() == old(self).end_time(),
            final(self).cap() == old(self).cap(),
            final(self).is_closed() == old(self).is_closed(),
            old(self).is_closed() ==> r == Err::<(), Error>(Error::SendErrorWorld(
                WorldMessage::Start,
            )) && final(self).inbox() == old(self).inbox(),
            !old(self).is_closed() ==> r == Ok::<(), Error>(()) && final(self).inbox() == old(
                self,
            ).inbox().push(WorldMessage::Start),
    {
        match self.mailbox.send(WorldMessage::Start) {
            Ok(()) => Ok(()),
            Err(m) => Err(Error::SendErrorWorld(m)),
        }
    }

    /// Enqueue the external cancellation message.
    pub fn stop(&mut self) -> (r: Result<(), Error>)
        requires
            old(self).is_closed() || old(self).inbox().len() < old(self).cap(),
        ensures
            final(self).time() == old(self).time(),
            final(self).end_time() == old(self).end_time(),
            final(self).cap() == old(self).cap(),
            final(self).is_closed() == old(self).is_closed(),
            old(self).is_closed() ==> r == Err::<(), Error>(Error::SendErrorWorld(
                WorldMessage::Stop,
            )) && final(self).inbox() == old(self).inbox(),
            !old(self).is_closed() ==> r == Ok::<(), Error>(()) && final(self).inbox() == old(
                self,
            ).inbox().push(WorldMessage::Stop),
    {
        match self.mailbox.send(WorldMessage::Stop) {
            Ok(()) => Ok(()),
            Err(m) => Err(Error::SendErrorWorld(m)),
        }
    }

    /// Enqueue the manager's completion report for a round.
    pub fn update_complete(&mut self, time: WorldTime) -> (r: Result<(), Error>)
        requires
            old(self).is_closed() || old(self).inbox().len() < old(self).cap(),
        ensures
            final(self).time() == old(self).time(),
            final(self).end_time() == old(self).end_time(),
            final(self).cap() == old(self).cap(),
            final(self).is_closed() == old(self).is_closed(),
            old(self).is_closed() ==> r == Err::<(), Error>(Error::SendErrorWorld(
                WorldMessage::UpdateComplete(time),
            )) && final(self).inbox() == old(self).inbox(),
            !old(self).is_closed() ==> r == Ok::<(), Error>(()) && final(self).inbox() == old(
                self,
            ).inbox().push(WorldMessage::UpdateComplete(time)),
    {
        match self.mailbox.send(WorldMessage::UpdateComplete(time)) {
            Ok(()) => Ok(()),
            Err(m) => Err(Error::SendErrorWorld(m)),
        }
    }
}

impl Actor<WorldMessage, BoidManagerMessage> for World {
    closed spec fn inbox(self) -> Seq<WorldMessage> {
        self.mailbox.inbox()
    }

    open spec fn handle_spec(
        pre: Self,
        msg: WorldMessage,
        post: Self,
        r: Result<Vec<BoidManagerMessage>, Error>,
    ) -> bool {
        let step = world_step(pre.time(), pre.end_time(), msg);
        &&& post.time() == step.0
        &&& post.end_time() == pre.end_time()
        &&& post.cap() == pre.cap()
        &&& post.is_closed() == (pre.is_closed() || step.2)
        &&& r is Ok
        &&& r->Ok_0@ == step.1
    }

    open spec fn recv_spec(pre: Self, post: Self) -> bool {
        &&& post.time() == pre.time()
        &&& post.end_time() == pre.end_time()
        &&& post.cap() == pre.cap()
        &&& post.is_closed() == pre.is_closed()
    }

    fn recv(&mut self) -> (r: Option<WorldMessage>) {
        self.mailbox.recv()
    }

    fn handle_message(&mut self, msg: WorldMessage) -> (r: Result<Vec<BoidManagerMessage>, Error>) {
        match msg {
            WorldMessage::Stop => {
                self.mailbox.close();
                Ok(Vec::new())
            },
            WorldMessage::Start => {
                let mut sends: Vec<BoidManagerMessage> = Vec::new();
                sends.push(BoidManagerMessage::WorldUpdate(self.world_state.time));
                proof {
                    assert(sends@ =~= world_step(old(self).time(), old(self).end_time(), msg).1);
                }
                Ok(sends)
            },
            WorldMessage::UpdateComplete(time) => {
                if time > self.end_time || time == u64::MAX {
                    self.mailbox.close();
                    Ok(Vec::new())
                } else {
                    let next = time + 1;
                    self.world_state.time = next;
                    let mut sends: Vec<BoidManagerMessage> = Vec::new();
                    sends.push(BoidManagerMessage::WorldUpdate(next));
                    proof {
                        assert(sends@ =~= world_step(
                            old(self).time(),
                            old(self).end_time(),
                            msg,
                        ).1);
                    }
                    Ok(sends)
                }
            },
        }
    }
}

/// The coordinator's run loop: receive and handle queued messages in FIFO
/// order until the mailbox is drained, accumulating the round starts sent to
/// the manager. The coordinator's handler never fails, so the loop always
/// ends successfully with the mailbox drained.
pub fn run_world(world: &mut World) -> (r: Result<Vec<BoidManagerMessage>, Error>)
    ensures
        r is Ok,
        final(world).inbox().len() == 0,
        final(world).end_time() == old(world).end_time(),
        final(world).cap() == old(world).cap(),
        ({
            let run = world_run(old(world).time(), old(world).end_time(), old(world).inbox());
            &&& final(world).time() == run.0
            &&& r->Ok_0@ == run.1
            &&& final(world).is_closed() == (old(world).is_closed() || run.2)
        }),
{
    let mut actions: Vec<BoidManagerMessage> = Vec::new();
    let ghost t0 = world.time();
    let ghost end = world.end_time();
    let ghost msgs0 = world.inbox();
    let ghost closed0 = world.is_closed();
    loop
        invariant
            t0 == old(world).time(),
            end == old(world).end_time(),
            msgs0 == old(world).inbox(),
            closed0 == old(world).is_closed(),
            world.end_time() == end,
            world.cap() == old(world).cap(),
            world_run(t0, end, msgs0).0 == world_run(world.time(), end, world.inbox()).0,
            world_run(t0, end, msgs0).1 == actions@ + world_run(
                world.time(),
                end,
                world.inbox(),
            ).1,
            (closed0 || world_run(t0, end, msgs0).2) == (world.is_closed() || world_run(
                world.time(),
                end,
                world.inbox(),
            ).2),
        decreases world.inbox().len(),
    {
        let ghost pre_time = world.time();
        match world.recv() {
            None => {
                proof {
                    assert(world_run(t0, end, msgs0).1 =~= actions@);
                }
                return Ok(actions);
            },
            Some(msg) => {
                let ghost step = world_step(pre_time, end, msg);
                match world.handle_message(msg) {
                    Ok(mut acts) => {
                        proof {
                            assert(actions@ + step.1 + world_run(
                                world.time(),
                                end,
                                world.inbox(),
                            ).1 =~= actions@ + (step.1 + world_run(
                                world.time(),
                                end,
                                world.inbox(),
                            ).1));
                        }
                        actions.append(&mut acts);
                    },
                    Err(e) => {
                        // the coordinator's handler never fails
                        proof {
                            assert(false);
                        }
                        return Err(e);
                    },
                }
            },
        }
    }
}

/// The discipline of a well-formed run, seen from the coordinator: at most
/// one round is outstanding at a time, and a completion report always
/// carries exactly the round most recently started (which the coordinator's
/// current time records). `outstanding` says whether a round is in flight;
/// once the run is over the threshold and closes, no further report comes.
pub open spec fn echoes(
    time: WorldTime,
    end_time: WorldTime,
    outstanding: bool,
    msgs: Seq<WorldMessage>,
) -> bool
    decreases msgs.len(),
{
    msgs.len() == 0 || {
        match msgs.first() {
            WorldMessage::Start => false,
            WorldMessage::Stop => echoes(time, end_time, outstanding, msgs.drop_first()),
            WorldMessage::UpdateComplete(t) => outstanding && t == time && {
                if t > end_time || t == u64::MAX {
                    echoes(time, end_time, false, msgs.drop_first())
                } else {
                    echoes((t + 1) as WorldTime, end_time, true, msgs.drop_first())
                }
            },
        }
    }
}

/// The round time a message to the manager asks a round to run at.
pub open spec fn round_of(m: BoidManagerMessage) -> WorldTime {
    match m {
        BoidManagerMessage::WorldUpdate(t) => t,
        _ => 0,
    }
}

/// Monotonic-time law: while the coordinator processes reports that follow
/// the run discipline (each completion echoes the round most recently
/// started), every round start it issues is a round-start message, each is
/// strictly beyond the time the coordinator held before, the issued round
/// times strictly increase, and the recorded time never decreases.
pub proof fn lemma_monotonic_rounds(
    time: WorldTime,
    end_time: WorldTime,
    outstanding: bool,
    msgs: Seq<WorldMessage>,
)
    requires
        echoes(time, end_time, outstanding, msgs),
    ensures
        ({
            let run = world_run(time, end_time, msgs);
            &&& run.0 >= time
            &&& forall|i: int|
                0 <= i < run.1.len() ==> (#[trigger] run.1[i]) is WorldUpdate && round_of(run.1[i])
                    > time
            &&& forall|i: int, j: int|
                0 <= i < j < run.1.len() ==> round_of(run.1[i]) < round_of(run.1[j])
        }),
    decreases msgs.len(),
{
    if msgs.len() == 0 {
    } else {
        let step = world_step(time, end_time, msgs.first());
        let rest = world_run(step.0, end_time, msgs.drop_first());
        match msgs.first() {
            WorldMessage::Start => {
                assert(false);
            },
            WorldMessage::Stop => {
                lemma_monotonic_rounds(time, end_time, outstanding, msgs.drop_first());
                assert(step.1 + rest.1 =~= rest.1);
            },
            WorldMessage::UpdateComplete(t) => {
                if t > end_time || t == u64::MAX {
                    lemma_monotonic_rounds(time, end_time, false, msgs.drop_first());
                    assert(step.1 + rest.1 =~= rest.1);
                } else {
                    lemma_monotonic_rounds((t + 1) as WorldTime, end_time, true, msgs.drop_first());
                    assert(forall|i: int|
                        0 <= i < (step.1 + rest.1).len() ==> (#[trigger] (step.1 + rest.1)[i])
                            is WorldUpdate && round_of((step.1 + rest.1)[i]) > time);
                }
            },
        }
    }
}

/// Monotonic-time law over a whole run: handling the start message and then
/// disciplined reports, the first round start carries the coordinator's
/// initial time and every later one is strictly greater — the coordinator
/// never repeats or lowers a round.
pub proof fn lemma_monotonic_rounds_from_start(
    time: WorldTime,
    end_time: WorldTime,
    rest: Seq<WorldMessage>,
)
    requires
        echoes(time, end_time, true, rest),
    ensures
        ({
            let run = world_run(time, end_time, seq![WorldMessage::Start] + rest);
            &&& run.1.len() >= 1
            &&& run.1.first() == BoidManagerMessage::WorldUpdate(time)
            &&& forall|i: int| 0 <= i < run.1.len() ==> (#[trigger] run.1[i]) is WorldUpdate
            &&& forall|i: int, j: int|
                0 <= i < j < run.1.len() ==> round_of(run.1[i]) < round_of(run.1[j])
        }),
{
    let msgs = seq![WorldMessage::Start] + rest;
    assert(msgs.first() == WorldMessage::Start);
    assert(msgs.drop_first() =~= rest);
    lemma_monotonic_rounds(time, end_time, true, rest);
    let step = world_step(time, end_time, WorldMessage::Start);
    let rst = world_run(time, end_time, rest);
    let run = world_run(time, end_time, msgs);
    assert(run.1 =~= step.1 + rst.1);
    assert(forall|i: int|
        0 <= i < run.1.len() ==> (#[trigger] run.1[i]) is WorldUpdate && (i >= 1 ==> round_of(
            run.1[i],
        ) > time));
}

/// Termination law: once a round is outstanding whose time is strictly
/// beyond the threshold, processing its completion report (and whatever else
/// a disciplined run still delivers) closes the coordinator's mailbox,
/// leaves the recorded time unchanged, and issues no further round start.
pub proof fn lemma_termination(time: WorldTime, end_time: WorldTime, msgs: Seq<WorldMessage>)
    requires
        time > end_time,
        echoes(time, end_time, true, msgs),
        msgs.len() >= 1,
        msgs.first() is UpdateComplete,
    ensures
        ({
            let run = world_run(time, end_time, msgs);
            &&& run.0 == time
            &&& run.1 == Seq::<BoidManagerMessage>::empty()
            &&& run.2
        }),
{
    let step = world_step(time, end_time, msgs.first());
    lemma_no_reports_no_rounds(time, end_time, msgs.drop_first());
    let rest = world_run(step.0, end_time, msgs.drop_first());
    assert(step.1 + rest.1 =~= Seq::<BoidManagerMessage>::empty());
}

/// After the run has closed — no round outstanding, so the discipline admits
/// no further completion report — the coordinator issues nothing and its
/// time stays put.
proof fn lemma_no_reports_no_rounds(time: WorldTime, end_time: WorldTime, msgs: Seq<WorldMessage>)
    requires
        echoes(time, end_time, false, msgs),
    ensures
        ({
            let run = world_run(time, end_time, msgs);
            &&& run.0 == time
            &&& run.1 == Seq::<BoidManagerMessage>::empty()
        }),
    decreases msgs.len(),
{
    if msgs.len() == 0 {
    } else {
        lemma_no_reports_no_rounds(time, end_time, msgs.drop_first());
        let step = world_step(time, end_time, msgs.first());
        let rest = world_run(step.0, end_time, msgs.drop_first());
        assert(step.1 + rest.1 =~= Seq::<BoidManagerMessage>::empty());
    }
}

} // verus!
