use boids::actor::{run_actor, Actor};
use boids::boid::{Boid, BoidMessage, BoidState};
use boids::boid_manager::{BoidManager, BoidManagerMessage, ManagerSend};
use boids::mailbox::{Mailbox, SendOutcome};
use boids::world::{run_world, World, WorldMessage};
use boids::Error;
use boids::{END_TIME, MAILBOX_CAPACITY, NUM_BOIDS};

/// Routes one message to the manager and cascades the resulting sends
/// through the workers until the wave settles, returning the reports that
/// reach the coordinator. Counts each worker report in `worker_updates`.
fn route_to_manager(
    manager: &mut BoidManager,
    boids: &mut [Boid],
    msg: BoidManagerMessage,
    worker_updates: &mut usize,
) -> Vec<WorldMessage> {
    let mut to_world = Vec::new();
    let mut queue: Vec<BoidManagerMessage> = vec![msg];
    while !queue.is_empty() {
        let m = queue.remove(0);
        let sends = manager.handle_message(m).unwrap();
        for s in sends {
            match s {
                ManagerSend::ToBoid(id, bm) => {
                    let reports = boids[id as usize].handle_message(bm).unwrap();
                    for r in reports {
                        *worker_updates += 1;
                        queue.push(r);
                    }
                }
                ManagerSend::ToWorld(wm) => to_world.push(wm),
            }
        }
    }
    to_world
}

#[test]
fn scenario_three_workers_threshold_two() {
    // three workers, threshold 2: rounds start at 0, 1, 2 and, since the
    // report of round 2 is not beyond the threshold, once more at 3; the
    // report of round 3 ends the run.
    let mut world = World::new(0, 2);
    let (mut manager, mut boids) = BoidManager::new(3);
    world.start().unwrap();
    let mut round_starts: Vec<u64> = Vec::new();
    let mut completes: Vec<u64> = Vec::new();
    let mut worker_updates = 0usize;
    let mut to_manager = run_world(&mut world).unwrap();
    while !to_manager.is_empty() {
        let mut reports: Vec<WorldMessage> = Vec::new();
        for wm in to_manager {
            if let BoidManagerMessage::WorldUpdate(t) = wm {
                round_starts.push(t);
            }
            let before = worker_updates;
            let mut rs = route_to_manager(&mut manager, &mut boids, wm, &mut worker_updates);
            // every round start is answered by exactly one report per worker
            assert_eq!(worker_updates - before, 3);
            reports.append(&mut rs);
        }
        for r in reports {
            if let WorldMessage::UpdateComplete(t) = r {
                completes.push(t);
                world.update_complete(t).unwrap();
            }
        }
        to_manager = run_world(&mut world).unwrap();
    }
    assert_eq!(round_starts, vec![0, 1, 2, 3]);
    assert_eq!(completes, vec![0, 1, 2, 3]);
    assert_eq!(worker_updates, 12);
    assert!(world.is_shut());
    // the run is over: the coordinator accepts nothing further
    assert!(matches!(
        world.update_complete(9),
        Err(Error::SendErrorWorld(WorldMessage::UpdateComplete(9)))
    ));
    // every worker ends at the position its velocity carried it to
    for (i, b) in boids.iter().enumerate() {
        let s = b.current_state();
        assert_eq!(s.id, i as u64);
        assert_eq!(s.pos, (4, 0));
        assert_eq!(s.vel, (1, 0));
        assert_eq!(s.last_update_time, 3);
    }
}

#[test]
fn scenario_worker_advance_report() {
    // a worker at the origin with unit velocity, advanced for round 5,
    // reports position (1, 0) at time 5 and does not yet change its state
    let mut boid = Boid::new(7);
    let reports = boid.handle_message(BoidMessage::Update(5)).unwrap();
    assert_eq!(reports.len(), 1);
    match &reports[0] {
        BoidManagerMessage::BoidUpdate(s) => {
            assert_eq!(s.id, 7);
            assert_eq!(s.pos, (1, 0));
            assert_eq!(s.vel, (1, 0));
            assert_eq!(s.last_update_time, 5);
        }
        _ => panic!("expected a worker report"),
    }
    let stored = boid.current_state();
    assert_eq!(stored.pos, (0, 0));
    assert_eq!(stored.last_update_time, 0);
}

#[test]
fn scenario_manager_stop_closes_mailbox() {
    // a stopped manager fails a subsequent worker report with a send
    // failure instead of accepting it silently
    let (mut manager, _boids) = BoidManager::new(2);
    let sends = manager.handle_message(BoidManagerMessage::Stop).unwrap();
    assert!(sends.is_empty());
    assert!(manager.is_shut());
    let state = BoidState::new(0);
    match manager.boid_update(state) {
        Err(Error::SendErrorBoidManager(BoidManagerMessage::BoidUpdate(s))) => {
            assert_eq!(s.id, 0);
        }
        _ => panic!("expected a send failure carrying the report"),
    }
    // closing is idempotent
    let sends = manager.handle_message(BoidManagerMessage::Stop).unwrap();
    assert!(sends.is_empty());
    assert!(manager.is_shut());
}

#[test]
fn barrier_completes_exactly_on_last_report() {
    // reports arriving in any order: completion is reported exactly once,
    // on the last of the three, carrying the active round time
    let (mut manager, mut boids) = BoidManager::new(3);
    let advances = manager
        .handle_message(BoidManagerMessage::WorldUpdate(7))
        .unwrap();
    assert_eq!(advances.len(), 3);
    let mut reports: Vec<BoidState> = Vec::new();
    for a in advances {
        match a {
            ManagerSend::ToBoid(id, bm) => {
                assert!(matches!(bm, BoidMessage::Update(7)));
                for r in boids[id as usize].handle_message(bm).unwrap() {
                    match r {
                        BoidManagerMessage::BoidUpdate(s) => reports.push(s),
                        _ => panic!("expected a worker report"),
                    }
                }
            }
            _ => panic!("expected a broadcast to a worker"),
        }
    }
    // deliver in an order other than the broadcast order
    for pick in [2usize, 0, 1] {
        let sends = manager
            .handle_message(BoidManagerMessage::BoidUpdate(reports[pick]))
            .unwrap();
        let completions: Vec<&ManagerSend> = sends
            .iter()
            .filter(|s| matches!(s, ManagerSend::ToWorld(_)))
            .collect();
        if pick == 1 {
            assert_eq!(completions.len(), 1);
            assert!(matches!(
                completions[0],
                ManagerSend::ToWorld(WorldMessage::UpdateComplete(7))
            ));
        } else {
            assert_eq!(completions.len(), 0);
        }
        // the confirm goes back to the very worker that reported
        match &sends[0] {
            ManagerSend::ToBoid(id, BoidMessage::Confirm(s)) => {
                assert_eq!(*id, s.id);
                assert_eq!(*id, reports[pick].id);
            }
            _ => panic!("expected a confirm first"),
        }
    }
}

#[test]
fn coordinator_rounds_increase_then_terminate() {
    let mut world = World::new(0, 1);
    world.start().unwrap();
    let mut starts: Vec<u64> = Vec::new();
    let mut acts = run_world(&mut world).unwrap();
    while !acts.is_empty() {
        assert_eq!(acts.len(), 1);
        let t = match acts[0] {
            BoidManagerMessage::WorldUpdate(t) => t,
            _ => panic!("the coordinator only issues round starts"),
        };
        if let Some(prev) = starts.last() {
            assert!(t > *prev);
        }
        starts.push(t);
        world.update_complete(t).unwrap();
        acts = run_world(&mut world).unwrap();
    }
    assert_eq!(starts, vec![0, 1, 2]);
    assert!(world.is_shut());
    assert_eq!(world.current_time(), 2);
    assert!(matches!(world.start(), Err(Error::SendErrorWorld(WorldMessage::Start))));
    assert!(matches!(world.stop(), Err(Error::SendErrorWorld(WorldMessage::Stop))));
}

#[test]
fn coordinator_stop_ends_run() {
    let mut world = World::new(0, END_TIME);
    world.stop().unwrap();
    let acts = run_world(&mut world).unwrap();
    assert!(acts.is_empty());
    assert!(world.is_shut());
}

#[test]
fn worker_state_changes_only_on_confirm() {
    let mut boid = Boid::new(3);
    boid.handle_message(BoidMessage::Update(1)).unwrap();
    boid.handle_message(BoidMessage::Update(2)).unwrap();
    assert_eq!(boid.current_state().pos, (0, 0));
    assert_eq!(boid.current_state().last_update_time, 0);
    let confirmed = BoidState {
        id: 3,
        last_update_time: 2,
        pos: (1, 0),
        vel: (1, 0),
    };
    let sends = boid.handle_message(BoidMessage::Confirm(confirmed)).unwrap();
    assert!(sends.is_empty());
    let s = boid.current_state();
    assert_eq!(s.pos, (1, 0));
    assert_eq!(s.last_update_time, 2);
    assert_eq!(s.id, 3);
}

#[test]
fn worker_rejects_foreign_confirm() {
    let mut boid = Boid::new(3);
    let foreign = BoidState {
        id: 8,
        last_update_time: 6,
        pos: (9, 9),
        vel: (2, 2),
    };
    match boid.handle_message(BoidMessage::Confirm(foreign)) {
        Err(Error::Error(msg)) => assert!(!msg.is_empty()),
        _ => panic!("a confirm for another identity must be rejected"),
    }
    // the stored state, its identity above all, is untouched
    let s = boid.current_state();
    assert_eq!(s.id, 3);
    assert_eq!(s.pos, (0, 0));
    assert_eq!(s.vel, (1, 0));
    assert_eq!(s.last_update_time, 0);
}

#[test]
fn worker_advance_overflow_fails() {
    let mut boid = Boid::new(0);
    let top = BoidState {
        id: 0,
        last_update_time: 0,
        pos: (i64::MAX, 0),
        vel: (1, 0),
    };
    boid.handle_message(BoidMessage::Confirm(top)).unwrap();
    match boid.handle_message(BoidMessage::Update(1)) {
        Err(Error::Error(msg)) => assert!(!msg.is_empty()),
        _ => panic!("an advance out of the coordinate range must fail"),
    }
    // the stored state is untouched by the failed advance
    assert_eq!(boid.current_state().pos, (i64::MAX, 0));
}

#[test]
fn mailbox_backpressure_keeps_message_and_order() {
    let mut mb: Mailbox<u32> = Mailbox::new(2);
    assert_eq!(mb.capacity(), 2);
    mb.send(10).unwrap();
    mb.send(11).unwrap();
    assert_eq!(mb.len(), 2);
    // at capacity: the message comes back, nothing is lost
    match mb.try_send(12) {
        SendOutcome::Full(m) => assert_eq!(m, 12),
        _ => panic!("a full mailbox backpressures the sender"),
    }
    assert_eq!(mb.len(), 2);
    // one receive frees a slot; the retried send is delivered after the
    // messages that were already waiting
    assert_eq!(mb.recv(), Some(10));
    assert!(matches!(mb.try_send(12), SendOutcome::Sent));
    assert_eq!(mb.recv(), Some(11));
    assert_eq!(mb.recv(), Some(12));
    assert_eq!(mb.recv(), None);
}

#[test]
fn mailbox_close_keeps_queued_messages() {
    let mut mb: Mailbox<u32> = Mailbox::new(4);
    mb.send(1).unwrap();
    mb.send(2).unwrap();
    mb.close();
    assert!(mb.is_shut());
    // no new sends ...
    assert_eq!(mb.send(3), Err(3));
    assert!(matches!(mb.try_send(4), SendOutcome::Closed(4)));
    // ... but what was queued is still delivered, in order
    assert_eq!(mb.recv(), Some(1));
    assert_eq!(mb.recv(), Some(2));
    assert_eq!(mb.recv(), None);
    // close is idempotent
    mb.close();
    assert!(mb.is_shut());
}

#[test]
fn run_actor_drains_in_fifo_order() {
    let mut boid = Boid::new(9);
    boid.update(4).unwrap();
    let confirmed = BoidState {
        id: 9,
        last_update_time: 4,
        pos: (1, 0),
        vel: (1, 0),
    };
    boid.confirm(confirmed).unwrap();
    let actions = run_actor(&mut boid).unwrap();
    // the advance was handled before the confirm, so it reported from the
    // initial state; the confirm then became the stored state
    assert_eq!(actions.len(), 1);
    match &actions[0] {
        BoidManagerMessage::BoidUpdate(s) => {
            assert_eq!(s.pos, (1, 0));
            assert_eq!(s.last_update_time, 4);
        }
        _ => panic!("expected a worker report"),
    }
    assert_eq!(boid.current_state().pos, (1, 0));
    assert_eq!(boid.current_state().last_update_time, 4);
}

#[test]
fn manager_builds_the_worker_set() {
    let (manager, boids) = BoidManager::new(4);
    assert!(!manager.is_shut());
    assert_eq!(boids.len(), 4);
    for (i, b) in boids.iter().enumerate() {
        let s = b.current_state();
        assert_eq!(s.id, i as u64);
        assert_eq!(s.pos, (0, 0));
        assert_eq!(s.vel, (1, 0));
        assert_eq!(s.last_update_time, 0);
        assert!(!b.is_shut());
    }
}

#[test]
fn initial_state_and_configuration() {
    let s = BoidState::new(42);
    assert_eq!(s.id, 42);
    assert_eq!(s.last_update_time, 0);
    assert_eq!(s.pos, (0, 0));
    assert_eq!(s.vel, (1, 0));
    assert_eq!(END_TIME, 3600);
    assert_eq!(NUM_BOIDS, 100);
    assert_eq!(MAILBOX_CAPACITY, 32);
}
