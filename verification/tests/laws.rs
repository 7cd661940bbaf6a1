use coroutine::body::{ChildOp, Op};
use coroutine::context::align_down;
use coroutine::coroutine::{Coroutine, State};
use coroutine::environment::Environment;
use coroutine::mpsc::channel;
use coroutine::net::{io_step, IoAttempt, IoDecision};
use coroutine::Error;

#[test]
fn normal_return_joins_ok_and_stays_finished() {
    let mut env = Environment::new();
    let coro = Coroutine::spawn(&mut env, vec![Op::Send(7), Op::Yield]);

    assert_eq!(coro.join(&mut env), Ok(()));
    assert_eq!(coro.state(&env), State::Finished);

    // Later resume calls are no-ops reporting the finished state.
    assert_eq!(coro.resume(&mut env), Ok(State::Finished));
    assert_eq!(coro.resume(&mut env), Ok(State::Finished));
    assert_eq!(env.output, vec![7]);
}

#[test]
fn ordering_two_resumes() {
    let mut env = Environment::new();
    let (_tx, mut rx) = channel();
    let coro = Coroutine::spawn(&mut env, vec![Op::Send(1), Op::Yield, Op::Send(2)]);

    coro.resume(&mut env).unwrap();
    assert_eq!(rx.recv(&env), Some(1));
    assert_eq!(rx.try_recv(&env), None);

    coro.resume(&mut env).unwrap();
    assert_eq!(rx.recv(&env), Some(2));

    // A third resume is a no-op.
    assert_eq!(coro.resume(&mut env), Ok(State::Finished));
    assert_eq!(rx.try_recv(&env), None);
}

#[test]
fn panic_is_contained() {
    let mut env = Environment::new();
    let coro = Coroutine::spawn(&mut env, vec![Op::Send(1), Op::Fail(42)]);

    let r = coro.resume(&mut env);
    assert_eq!(r, Err(Error::Panicking(42)));
    assert_eq!(coro.state(&env), State::Panicked);

    // The resuming side lives on; the world is otherwise intact.
    assert_eq!(env.output, vec![1]);

    // Joining a coroutine that already panicked is not a silent
    // success.
    assert_eq!(coro.join(&mut env), Err(Error::Panicked));
}

#[test]
fn child_effects_come_first() {
    let mut env = Environment::new();
    let coro = Coroutine::spawn(
        &mut env,
        vec![
            Op::SpawnJoin(vec![ChildOp::Send(1), ChildOp::Send(2)]),
            Op::Send(3),
        ],
    );
    coro.join(&mut env).unwrap();

    // Everything the joined child sent comes strictly before the
    // parent's own later action.
    assert_eq!(env.output, vec![1, 2, 3]);
}

#[test]
fn drop_while_suspended_runs_destructor_once() {
    let mut env = Environment::new();
    let coro = Coroutine::spawn(&mut env, vec![Op::Acquire, Op::Yield, Op::Release]);
    coro.resume(&mut env).unwrap();

    assert_eq!(env.pool.stacks.len(), 0);
    let dropped = coro.force_unwind(&mut env);

    // The pending destructor ran exactly once, and only then did the
    // stack go back to the pool.
    assert_eq!(dropped, 1);
    assert_eq!(env.pool.stacks.len(), 1);
}

#[test]
fn teardown_of_finished_coroutine_runs_no_destructor() {
    let mut env = Environment::new();
    let coro = Coroutine::spawn(&mut env, vec![Op::Acquire]);
    // Runs to its normal return: locals go out of scope there.
    coro.join(&mut env).unwrap();

    let dropped = coro.force_unwind(&mut env);
    assert_eq!(dropped, 0);
    assert_eq!(env.pool.stacks.len(), 1);
}

#[test]
fn spawn_reuses_unwound_stack() {
    let mut env = Environment::new();
    let first = Coroutine::spawn(&mut env, vec![]);
    let region = env.coroutines[first.id].stack.as_ref().unwrap().id();
    first.force_unwind(&mut env);

    // The next spawn is served from the pool: same region, no new
    // mapping.
    let second = Coroutine::spawn(&mut env, vec![Op::Yield]);
    assert_eq!(
        env.coroutines[second.id].stack.as_ref().unwrap().id(),
        region
    );
}

#[test]
fn nested_spawn_recycles_stacks() {
    let mut env = Environment::new();
    // The parent takes region 1; each joined child takes a stack from
    // the same pool and gives it back, so the second child reuses the
    // first child's region instead of mapping a new one.
    let coro = Coroutine::spawn(
        &mut env,
        vec![Op::SpawnJoin(vec![ChildOp::Send(1)]), Op::SpawnJoin(vec![ChildOp::Send(2)])],
    );
    coro.join(&mut env).unwrap();

    assert_eq!(env.pool.stacks.len(), 1);
    assert_eq!(env.pool.stacks[0].id(), 2);
    assert_eq!(env.pool.next_id, 3);
    assert_eq!(env.output, vec![1, 2]);
}

#[test]
fn channel_carries_root_sends_in_order() {
    let mut env = Environment::new();
    let (tx, mut rx) = channel();
    tx.send(&mut env, 3).unwrap();
    tx.try_send(&mut env, 4).unwrap();
    assert_eq!(rx.recv(&env), Some(3));
    assert_eq!(rx.recv(&env), Some(4));
    assert_eq!(rx.recv(&env), None);
}

#[test]
fn environment_tracks_active_and_resume_result() {
    let mut env = Environment::new();
    assert_eq!(env.running_count(), 0);
    assert_eq!(env.running(), 0);
    env.push(3);
    assert_eq!(env.running(), 3);
    assert_eq!(env.running_count(), 1);
    assert_eq!(env.pop(), Some(3));
    // The root itself is never popped.
    assert_eq!(env.pop(), None);

    env.set_resume_result(Some(9));
    assert_eq!(env.take_last_resume_result(), Some(9));
    assert_eq!(env.take_last_resume_result(), None);
}

#[test]
fn error_descriptions() {
    assert_eq!(Error::Finished.description(), "Finished");
    assert_eq!(Error::Waiting.description(), "Waiting");
    assert_eq!(Error::Panicked.description(), "Panicked");
    assert_eq!(Error::Panicking(1).description(), "Panicking(..)");
}

#[test]
fn set_name_reaches_the_coroutine() {
    let mut env = Environment::new();
    let coro = Coroutine::spawn(&mut env, vec![Op::Yield]);
    assert_eq!(*coro.name(&env), None);
    coro.set_name(&mut env, "worker".to_string());
    assert_eq!(*coro.name(&env), Some("worker".to_string()));
}

#[test]
fn align_down_lays_out_frames() {
    assert_eq!(align_down(1000, 16), 992);
    assert_eq!(align_down(4096, 4096), 4096);
    assert_eq!(align_down(5, 8), 0);
}

#[test]
fn io_retry_decision() {
    assert_eq!(io_step(IoAttempt::Done(5)), IoDecision::Finish(5));
    assert_eq!(io_step(IoAttempt::WouldBlock), IoDecision::WaitRetry);
    assert_eq!(io_step(IoAttempt::Fault(-1)), IoDecision::Fail(-1));
}
