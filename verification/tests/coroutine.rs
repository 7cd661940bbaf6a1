use coroutine::body::{ChildOp, Op};
use coroutine::builder::Builder;
use coroutine::coroutine::{sched, Coroutine, State};
use coroutine::environment::Environment;
use coroutine::mpsc::channel;

#[test]
fn test_coroutine_basic() {
    let mut env = Environment::new();
    let (_tx, mut rx) = channel();
    Coroutine::spawn(&mut env, vec![Op::Send(1)])
        .resume(&mut env)
        .ok()
        .expect("Failed to resume");

    assert_eq!(rx.recv(&env).unwrap(), 1);
}

#[test]
fn test_coroutine_yield() {
    let mut env = Environment::new();
    let (_tx, mut rx) = channel();
    let coro = Coroutine::spawn(&mut env, vec![Op::Send(1), Op::Yield, Op::Send(2)]);
    coro.resume(&mut env).ok().expect("Failed to resume");
    assert_eq!(rx.recv(&env).unwrap(), 1);
    assert!(rx.try_recv(&env).is_none());

    coro.resume(&mut env).ok().expect("Failed to resume");

    assert_eq!(rx.recv(&env).unwrap(), 2);
}

#[test]
fn test_coroutine_spawn_inside() {
    let mut env = Environment::new();
    let (_tx, mut rx) = channel();
    Coroutine::spawn(
        &mut env,
        vec![Op::Send(1), Op::SpawnJoin(vec![ChildOp::Send(2)])],
    )
    .join(&mut env)
    .ok()
    .expect("Failed to join");

    assert_eq!(rx.recv(&env).unwrap(), 1);
    assert_eq!(rx.recv(&env).unwrap(), 2);
}

#[test]
fn test_coroutine_panic() {
    let mut env = Environment::new();
    let coro = Coroutine::spawn(&mut env, vec![Op::Fail(1)]);
    assert!(coro.join(&mut env).is_err());
}

#[test]
fn test_coroutine_child_panic() {
    let mut env = Environment::new();
    Coroutine::spawn(&mut env, vec![Op::SpawnJoin(vec![ChildOp::Fail(2)])])
        .join(&mut env)
        .ok()
        .expect("Failed to join");
}

#[test]
fn test_coroutine_resume_after_finished() {
    let mut env = Environment::new();
    let coro = Coroutine::spawn(&mut env, vec![]);

    // It is already finished after the first resume, but we try again.
    assert!(coro.resume(&mut env).is_ok());

    // Again?
    assert!(coro.resume(&mut env).is_ok());
}

#[test]
fn test_coroutine_yield_in_main() {
    let mut env = Environment::new();
    sched(&mut env);
}

#[test]
fn test_builder_basic() {
    let mut env = Environment::new();
    let (_tx, mut rx) = channel();
    Builder::new()
        .name("Test builder".to_string())
        .spawn(&mut env, vec![Op::Send(1)])
        .join(&mut env)
        .ok()
        .expect("Failed to join");
    assert_eq!(rx.recv(&env).unwrap(), 1);
}

#[test]
fn state() {
    let mut env = Environment::new();
    let coro = Coroutine::spawn(&mut env, vec![Op::Yield, Op::Park]);

    assert_eq!(coro.state(&env), State::Suspended);
    let _ = coro.resume(&mut env);
    assert_eq!(coro.state(&env), State::Suspended);
    let _ = coro.resume(&mut env);
    assert_eq!(coro.state(&env), State::Blocked);
    let _ = coro.resume(&mut env);
    assert_eq!(coro.state(&env), State::Finished);
}

#[test]
fn force_unwinding() {
    let mut env = Environment::new();
    let coro = Coroutine::spawn(&mut env, vec![Op::Acquire, Op::Yield, Op::Acquire]);

    let _ = coro.resume(&mut env);
    // One destructor-bearing local is live at the suspension point; the
    // teardown must run it.
    let dropped = coro.force_unwind(&mut env);

    assert_eq!(dropped, 1);
}

#[test]
fn panicking() {
    let mut env = Environment::new();
    let coro = Coroutine::spawn(&mut env, vec![Op::Fail(1010)]);

    let result = coro.resume(&mut env);
    assert!(result.is_err());

    let err = result.unwrap_err();
    match err {
        coroutine::Error::Panicking(p) => {
            assert_eq!(p, 1010);
        }
        _ => unreachable!(),
    }
    assert_eq!(coro.state(&env), State::Panicked);
}
