use haneng::sync::InjectionLock;

#[test]
fn second_acquire_fails_until_guard_drops() {
    let lock: &'static InjectionLock = Box::leak(Box::new(InjectionLock::new()));
    let guard = lock.try_acquire().expect("first acquire");
    assert!(lock.try_acquire().is_none(), "재진입은 거부돼야 한다");
    drop(guard);
    assert!(lock.try_acquire().is_some(), "드롭 후에는 다시 잠글 수 있다");
}

#[test]
fn separate_locks_do_not_block_each_other() {
    let a: &'static InjectionLock = Box::leak(Box::new(InjectionLock::new()));
    let b: &'static InjectionLock = Box::leak(Box::new(InjectionLock::new()));
    let _held = a.try_acquire().expect("a is free");
    assert!(b.try_acquire().is_some());
    assert!(a.try_acquire().is_none());
}

#[test]
fn guard_follows_the_previous_flag() {
    let lock: &'static InjectionLock = Box::leak(Box::new(InjectionLock::new()));
    assert!(lock.guard_unless_held(true).is_none());
    assert!(lock.guard_unless_held(false).is_some());
}
