use vstd::prelude::*;

pub mod actor;
pub mod boid;
pub mod boid_manager;
pub mod mailbox;
pub mod world;

use crate::boid::BoidMessage;
use crate::boid_manager::BoidManagerMessage;
use crate::world::WorldMessage;

verus! {

/// Default round threshold: the coordinator runs rounds until the reported
/// round time exceeds this value.
pub const END_TIME: u64 = 60 * 60;

/// Default size of the worker set spawned by the manager.
pub const NUM_BOIDS: u64 = 100;

/// Bound of every actor's mailbox: a sender that finds the queue at this
/// depth is backpressured rather than having its message dropped.
pub const MAILBOX_CAPACITY: usize = 32;

/// The failure taxonomy of the actor substrate. A failure inside a handler
/// aborts that actor's run loop and propagates to whoever awaited it; there
/// is no retry or isolation at this layer. The send failures carry the
/// undelivered message back to the sender.
#[derive(Debug)]
pub enum Error {
    /// Ad hoc string-carrying failure.
    Error(String),
    /// A send to the coordinator's closed mailbox.
    SendErrorWorld(WorldMessage),
    /// A send to the manager's closed mailbox.
    SendErrorBoidManager(BoidManagerMessage),
    /// A send to a worker's closed mailbox.
    SendErrorBoid(BoidMessage),
    /// An actor's run-loop task itself failed to complete.
    JoinError,
}

} // verus!
