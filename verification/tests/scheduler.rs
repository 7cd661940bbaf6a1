use coroutine::body::Op;
use coroutine::coroutine::State;
use coroutine::scheduler::{Cluster, StepOutcome, MAX_PRIVATE_WORK_NUM};

#[test]
fn work_stealing_feeds_idle_worker() {
    let mut cluster = Cluster::new();
    let s0 = cluster.add_scheduler();
    let s1 = cluster.add_scheduler();

    // Fill worker 0 past its private FIFO: the eleventh coroutine
    // overflows onto its stealable deque.
    for k in 0..(MAX_PRIVATE_WORK_NUM + 1) {
        cluster.spawn(s0, vec![Op::Send(k as u64)]);
    }

    // Worker 1 has nothing of its own, so it steals from its sibling
    // and resumes the stolen coroutine: no idle worker while work
    // exists anywhere.
    let stolen = cluster.step(s1, None);
    assert!(matches!(stolen, StepOutcome::Resumed(_)));

    // Worker 0 first drains the message telling it about its new
    // sibling, then resumes its own work.
    assert_eq!(cluster.step(s0, None), StepOutcome::Control);
    let mut resumed0 = 0;
    loop {
        match cluster.step(s0, None) {
            StepOutcome::Resumed(_) => resumed0 += 1,
            StepOutcome::Idle => break,
            _ => {}
        }
    }
    assert_eq!(resumed0, MAX_PRIVATE_WORK_NUM);
    // Every worker resumed at least one coroutine.
    assert!(resumed0 >= 1);
    assert_eq!(cluster.env.output.len(), MAX_PRIVATE_WORK_NUM + 1);
}

#[test]
fn requeue_until_finished() {
    let mut cluster = Cluster::new();
    let s0 = cluster.add_scheduler();
    let id = cluster.spawn(s0, vec![Op::Send(1), Op::Yield, Op::Send(2)]);

    // First resume runs to the yield; the coroutine is readied again.
    assert_eq!(cluster.step(s0, None), StepOutcome::Resumed(id));
    assert_eq!(cluster.env.coroutines[id].state, State::Suspended);

    // Second resume finishes it; its stack returns to the pool.
    assert_eq!(cluster.step(s0, None), StepOutcome::Resumed(id));
    assert_eq!(cluster.env.coroutines[id].state, State::Finished);
    assert_eq!(cluster.env.pool.stacks.len(), 1);

    assert_eq!(cluster.step(s0, None), StepOutcome::Idle);
    assert_eq!(cluster.env.output, vec![1, 2]);
}

#[test]
fn wait_event_wakes_blocked_coroutine() {
    let mut cluster = Cluster::new();
    let s0 = cluster.add_scheduler();
    let id = cluster.spawn(s0, vec![Op::Park, Op::Send(5)]);

    // The coroutine runs until it parks, waiting on readiness.
    assert_eq!(cluster.step(s0, None), StepOutcome::Resumed(id));
    assert_eq!(cluster.env.coroutines[id].state, State::Blocked);

    // Register it against the event loop; a parked coroutine is left
    // alone until its event fires.
    let token = cluster.scheds[s0].wait_event(id);
    assert_eq!(cluster.step(s0, None), StepOutcome::Idle);

    // Readiness fires: the registration is dispatched and the
    // coroutine readied, then resumed to completion.
    assert_eq!(cluster.step(s0, Some(token)), StepOutcome::Woken(id));
    assert_eq!(cluster.step(s0, None), StepOutcome::Resumed(id));
    assert_eq!(cluster.env.coroutines[id].state, State::Finished);
    assert_eq!(cluster.env.output, vec![5]);
}

#[test]
fn spurious_event_wakes_nothing() {
    let mut cluster = Cluster::new();
    let s0 = cluster.add_scheduler();
    assert_eq!(cluster.step(s0, Some(99)), StepOutcome::Spurious);
}

#[test]
fn panicked_coroutine_is_retired_by_scheduler() {
    let mut cluster = Cluster::new();
    let s0 = cluster.add_scheduler();
    let id = cluster.spawn(s0, vec![Op::Send(1), Op::Fail(13)]);

    assert_eq!(cluster.step(s0, None), StepOutcome::Resumed(id));
    // The panic was contained; the scheduler retired the coroutine and
    // reclaimed its stack. The scheduling thread lives on.
    assert_eq!(cluster.env.coroutines[id].state, State::Finished);
    assert_eq!(cluster.env.pool.stacks.len(), 1);
    assert_eq!(cluster.env.output, vec![1]);
}

#[test]
fn shutdown_reaches_every_worker() {
    let mut cluster = Cluster::new();
    let s0 = cluster.add_scheduler();
    let s1 = cluster.add_scheduler();
    cluster.shutdown_all();

    // Worker 0 still holds the new-neighbor notice; both drain their
    // messages and then observe the shutdown.
    assert_eq!(cluster.step(s0, None), StepOutcome::Control);
    assert_eq!(cluster.step(s0, None), StepOutcome::Control);
    assert_eq!(cluster.step(s0, None), StepOutcome::Shut);
    assert_eq!(cluster.step(s1, None), StepOutcome::Control);
    assert_eq!(cluster.step(s1, None), StepOutcome::Shut);
}

#[test]
fn new_neighbor_message_extends_registry() {
    let mut cluster = Cluster::new();
    let s0 = cluster.add_scheduler();
    assert_eq!(cluster.scheds[s0].neighbors.len(), 0);
    let s1 = cluster.add_scheduler();
    assert_eq!(cluster.scheds[s1].neighbors, vec![s0]);

    assert_eq!(cluster.step(s0, None), StepOutcome::Control);
    assert_eq!(cluster.scheds[s0].neighbors, vec![s1]);
}
