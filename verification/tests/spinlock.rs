use coroutine::spinlock::SpinLock;

#[test]
fn test_spinlock_basic() {
    let mut lock = SpinLock::new();

    assert!(lock.try_lock());

    assert!(!lock.try_lock());

    lock.unlock();
}

#[test]
fn spinlock_lock_then_unlock() {
    let mut lock = SpinLock::new();
    lock.lock();
    assert!(!lock.try_lock());
    lock.unlock();
    assert!(lock.try_lock());
}
