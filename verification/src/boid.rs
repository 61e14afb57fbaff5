use vstd::prelude::*;

use crate::actor::Actor;
use crate::boid_manager::BoidManagerMessage;
use crate::mailbox::Mailbox;
use crate::world::WorldTime;
use crate::Error;
use crate::MAILBOX_CAPACITY;

verus! {

/// Identity of one worker, unique within the worker set, assigned at
/// construction and immutable for the worker's lifetime.
pub type BoidId = u64;

/// The state record a worker owns exclusively. Position and velocity are
/// integer coordinate pairs; one update step is a plain Euler step, adding
/// the velocity to the position.
#[derive(Debug, Clone, Copy)]
pub struct BoidState {
    pub id: BoidId,
    pub last_update_time: WorldTime,
    pub pos: (i64, i64),
    pub vel: (i64, i64),
}

/// The state every worker starts from: the origin, unit velocity along the
/// first axis, at round time zero.
pub open spec fn initial_boid_state(id: BoidId) -> BoidState {
    BoidState { id, last_update_time: 0, pos: (0, 0), vel: (1, 0) }
}

impl BoidState {
    /// The initial state of the worker with the given identity.
    pub fn new(id: BoidId) -> (s: Self)
        ensures
            s == initial_boid_state(id),
    {
        BoidState { id, last_update_time: 0, pos: (0, 0), vel: (1, 0) }
    }
}

/// Whether one Euler step from `s` stays within the coordinate type.
pub open spec fn advance_fits(s: BoidState) -> bool {
    &&& i64::MIN <= s.pos.0 + s.vel.0 <= i64::MAX
    &&& i64::MIN <= s.pos.1 + s.vel.1 <= i64::MAX
}

/// The state a worker reports upward when asked to advance: one Euler step,
/// stamped with the round time it was computed for. Identity and velocity
/// are kept.
pub open spec fn advanced(s: BoidState, time: WorldTime) -> BoidState {
    BoidState {
        id: s.id,
        last_update_time: time,
        pos: ((s.pos.0 + s.vel.0) as i64, (s.pos.1 + s.vel.1) as i64),
        vel: s.vel,
    }
}

/// The messages a worker reacts to.
#[derive(Debug, Clone)]
pub enum BoidMessage {
    /// Advance one step for the given round and report the outcome upward.
    /// The stored state is not yet changed by this.
    Update(WorldTime),
    /// Make the carried state the worker's official stored state. This is
    /// the only message that changes what the worker holds, and it is only
    /// honoured when the carried identity is the worker's own: a confirm for
    /// another identity is a design violation and is rejected.
    Confirm(BoidState),
}

/// What one worker handling step does to the stored state: the new stored
/// state, the reports sent to the manager, and whether the step succeeds.
/// It fails only when the Euler step would leave the coordinate type, or
/// when a confirm carries a foreign identity; a failed step leaves the
/// stored state untouched.
pub open spec fn boid_step(s: BoidState, msg: BoidMessage) -> (BoidState, Seq<BoidManagerMessage>, bool) {
    match msg {
        BoidMessage::Update(time) => {
            if advance_fits(s) {
                (s, seq![BoidManagerMessage::BoidUpdate(advanced(s, time))], true)
            } else {
                (s, Seq::empty(), false)
            }
        },
        BoidMessage::Confirm(ns) => {
            if ns.id == s.id {
                (ns, Seq::empty(), true)
            } else {
                (s, Seq::empty(), false)
            }
        },
    }
}

/// A leaf worker: exclusive owner of its mailbox and of its state record.
/// No other component holds the state; the manager holds only a routing
/// handle to the mailbox.
pub struct Boid {
    mailbox: Mailbox<BoidMessage>,
    boid_state: BoidState,
}

impl Boid {
    /// The worker's stored state.
    pub closed spec fn state(self) -> BoidState {
        self.boid_state
    }

    /// The mailbox's backpressure bound.
    pub closed spec fn cap(self) -> nat {
        self.mailbox.cap()
    }

    /// Whether the worker's mailbox has been closed.
    pub closed spec fn is_closed(self) -> bool {
        self.mailbox.is_closed()
    }

    /// A fresh worker with the given identity: initial state, an empty open
    /// mailbox of the default capacity.
    pub fn new(id: BoidId) -> (b: Self)
        ensures
            b.state() == initial_boid_state(id),
            b.inbox() == Seq::<BoidMessage>::empty(),
            b.cap() == MAILBOX_CAPACITY as nat,
            !b.is_closed(),
    {
        Boid { mailbox: Mailbox::new(MAILBOX_CAPACITY), boid_state: BoidState::new(id) }
    }

    /// The worker's stored state, as the tests and the runtime observe it.
    pub fn current_state(&self) -> (s: BoidState)
        ensures
            s == self.state(),
    {
        self.boid_state
    }

    /// Whether the worker's mailbox has been closed.
    pub fn is_shut(&self) -> (b: bool)
        ensures
            b == self.is_closed(),
    {
        self.mailbox.is_shut()
    }

    /// Enqueue an advance request for the given round, as the manager's
    /// broadcast does. Fails, handing back the message, if the mailbox is
    /// closed; a full open mailbox would suspend the sender instead.
    pub fn update(&mut self, time: WorldTime) -> (r: Result<(), Error>)
        requires
            old(self).is_closed() || old(self).inbox().len() < old(self).cap(),
        ensures
            final(self).state() == old(self).state(),
            final(self).cap() == old(self).cap(),
            final(self).is_closed() == old(self).is_closed(),
            old(self).is_closed() ==> r == Err::<(), Error>(Error::SendErrorBoid(
                BoidMessage::Update(time),
            )) && final(self).inbox() == old(self).inbox(),
            !old(self).is_closed() ==> r == Ok::<(), Error>(())
                && final(self).inbox() == old(self).inbox().push(BoidMessage::Update(time)),
    {
        match self.mailbox.send(BoidMessage::Update(time)) {
            Ok(()) => Ok(()),
            Err(m) => Err(Error::SendErrorBoid(m)),
        }
    }

    /// Enqueue a confirm carrying the state that is to become official.
    pub fn confirm(&mut self, boid_state: BoidState) -> (r: Result<(), Error>)
        requires
            old(self).is_closed() || old(self).inbox().len() < old(self).cap(),
        ensures
            final(self).state() == old(self).state(),
            final(self).cap() == old(self).cap(),
            final(self).is_closed() == old(self).is_closed(),
            old(self).is_closed() ==> r == Err::<(), Error>(Error::SendErrorBoid(
                BoidMessage::Confirm(boid_state),
            )) && final(self).inbox() == old(self).inbox(),
            !old(self).is_closed() ==> r == Ok::<(), Error>(())
                && final(self).inbox() == old(self).inbox().push(BoidMessage::Confirm(boid_state)),
    {
        match self.mailbox.send(BoidMessage::Confirm(boid_state)) {
            Ok(()) => Ok(()),
            Err(m) => Err(Error::SendErrorBoid(m)),
        }
    }
}

impl Actor<BoidMessage, BoidManagerMessage> for Boid {
    closed spec fn inbox(self) -> Seq<BoidMessage> {
        self.mailbox.inbox()
    }

    open spec fn handle_spec(
        pre: Self,
        msg: BoidMessage,
        post: Self,
        r: Result<Vec<BoidManagerMessage>, Error>,
    ) -> bool {
        let (s2, sends, ok) = boid_step(pre.state(), msg);
        &&& post.state() == s2
        &&& post.cap() == pre.cap()
        &&& post.is_closed() == pre.is_closed()
        &&& if ok {
            r is Ok && r->Ok_0@ == sends
        } else {
            r matches Err(Error::Error(_))
        }
    }

    open spec fn recv_spec(pre: Self, post: Self) -> bool {
        &&& post.state() == pre.state()
        &&& post.cap() == pre.cap()
        &&& post.is_closed() == pre.is_closed()
    }

    fn recv(&mut self) -> (r: Option<BoidMessage>) {
        self.mailbox.recv()
    }

    fn handle_message(&mut self, msg: BoidMessage) -> (r: Result<Vec<BoidManagerMessage>, Error>) {
        match msg {
            BoidMessage::Update(time) => {
                let px = self.boid_state.pos.0.checked_add(self.boid_state.vel.0);
                let py = self.boid_state.pos.1.checked_add(self.boid_state.vel.1);
                match (px, py) {
                    (Some(x), Some(y)) => {
                        let mut new_state = self.boid_state;
                        new_state.pos = (x, y);
                        new_state.last_update_time = time;
                        let mut sends: Vec<BoidManagerMessage> = Vec::new();
                        sends.push(BoidManagerMessage::BoidUpdate(new_state));
                        proof {
                            assert(sends@ =~= boid_step(old(self).state(), msg).1);
                        }
                        Ok(sends)
                    },
                    _ => Err(Error::Error("boid position would leave the coordinate range".to_owned())),
                }
            },
            BoidMessage::Confirm(boid_state) => {
                if boid_state.id == self.boid_state.id {
                    self.boid_state = boid_state;
                    Ok(Vec::new())
                } else {
                    Err(Error::Error("confirm carries a foreign identity".to_owned()))
                }
            },
        }
    }
}

/// State-isolation law: one worker handling step changes the stored state
/// only for a confirm message carrying the worker's own identity, and then
/// to exactly the confirmed state; every other message — an advance request,
/// whatever it reports, or a confirm for a foreign identity — leaves the
/// stored state untouched. In particular the stored identity never changes.
pub proof fn lemma_state_changes_only_on_confirm(s: BoidState, msg: BoidMessage)
    ensures
        boid_step(s, msg).0.id == s.id,
        !(msg matches BoidMessage::Confirm(ns) && ns.id == s.id) ==> boid_step(s, msg).0 == s,
        msg matches BoidMessage::Confirm(ns) ==> ns.id == s.id ==> boid_step(s, msg).0 == ns,
{
}

} // verus!
