use coroutine::stack::{round_up, Stack, PAGE_SIZE};
use coroutine::stack_pool::StackPool;

#[test]
fn stack_pool_caches() {
    let mut p = StackPool::new();
    let s = p.take_stack(10);
    p.give_stack(s);
    let s = p.take_stack(4);
    assert_eq!(s.min_size(), 10);
    p.give_stack(s);
    let s = p.take_stack(14);
    assert_eq!(s.min_size(), 14);
    p.give_stack(s);
}

#[test]
fn stack_pool_caches_exact() {
    let mut p = StackPool::new();
    let s = p.take_stack(10);
    p.give_stack(s);

    let s = p.take_stack(10);
    assert_eq!(s.min_size(), 10);
}

#[test]
fn stack_pool_reuses_same_region() {
    let mut p = StackPool::new();
    let s = p.take_stack(4096);
    let region = s.id();
    p.give_stack(s);

    // Asking for no more than the cached capacity hands back the very
    // same region: no new mapping.
    let s = p.take_stack(1024);
    assert_eq!(s.id(), region);

    // Once the cache is drained, a take maps a fresh region.
    let s2 = p.take_stack(1024);
    assert_ne!(s2.id(), region);
}

#[test]
fn stack_pool_retains_at_most_max() {
    let mut p = StackPool::with_max_cached(2);
    let a = p.take_stack(10);
    let b = p.take_stack(10);
    let c = p.take_stack(10);
    p.give_stack(a);
    p.give_stack(b);
    // The cache is full: the third stack is freed on the spot.
    p.give_stack(c);
    let x = p.take_stack(1);
    let y = p.take_stack(1);
    assert_eq!(x.min_size(), 10);
    assert_eq!(y.min_size(), 10);
    // Nothing cached is left: this one is freshly mapped.
    let z = p.take_stack(1);
    assert_eq!(z.min_size(), 1);
}

#[test]
fn round_up_rounds_to_pages() {
    assert_eq!(round_up(0, PAGE_SIZE), PAGE_SIZE);
    assert_eq!(round_up(1, PAGE_SIZE), PAGE_SIZE);
    assert_eq!(round_up(PAGE_SIZE, PAGE_SIZE), PAGE_SIZE);
    assert_eq!(round_up(PAGE_SIZE + 1, PAGE_SIZE), 2 * PAGE_SIZE);
    assert_eq!(round_up(10, 4), 12);
}

#[test]
fn dummy_stack_is_empty() {
    let d = Stack::dummy_stack();
    assert_eq!(d.min_size(), 0);
    assert_eq!(d.id(), 0);
}
