use tifflin_kernel::arch::amd64::sync::SpinlockInner;
use tifflin_kernel::arch::hosted::sync::SpinlockInner as HostedSpinlock;

#[test]
fn try_lock_acquires_a_free_lock_once() {
    let mut lock = SpinlockInner::new();
    assert!(!lock.held());
    assert!(lock.try_inner_lock_cpu());
    assert!(lock.held());
    assert!(!lock.try_inner_lock_cpu());
    assert!(lock.held());
    lock.inner_release();
    assert!(!lock.held());
    assert!(lock.try_inner_lock_cpu());
}

#[test]
fn blocking_lock_takes_a_free_lock() {
    let mut lock = SpinlockInner::new();
    lock.inner_lock();
    assert!(lock.held());
    assert!(!lock.try_inner_lock_cpu());
    lock.inner_release();
    assert!(!lock.held());
    lock.inner_lock();
    assert!(lock.held());
}

/// Callers that all try, enter on success and leave again: the number inside never exceeds one.
#[test]
fn counter_of_callers_inside_never_exceeds_one() {
    let mut lock = SpinlockInner::new();
    let mut inside = [false; 4];
    let script = [0usize, 1, 2, 0, 3, 1, 1, 2, 3, 3, 0, 2, 1, 0];
    let mut most = 0;
    for caller in script {
        if inside[caller] {
            lock.inner_release();
            inside[caller] = false;
        } else if lock.try_inner_lock_cpu() {
            inside[caller] = true;
        }
        let n = inside.iter().filter(|b| **b).count();
        assert!(n <= 1);
        assert_eq!(n == 1, lock.held());
        most = most.max(n);
    }
    assert_eq!(most, 1);
}

#[test]
fn hosted_lock_records_its_holder() {
    let mut lock = HostedSpinlock::new();
    assert_eq!(lock.held_by(), None);
    assert!(lock.try_inner_lock_cpu(7));
    assert_eq!(lock.held_by(), Some(7));
    assert!(!lock.try_inner_lock_cpu(9));
    assert_eq!(lock.held_by(), Some(7));
    assert!(!lock.try_inner_lock_cpu(7));
    lock.inner_release(7);
    assert_eq!(lock.held_by(), None);
    lock.inner_lock(9);
    assert_eq!(lock.held_by(), Some(9));
    lock.inner_release(9);
    assert_eq!(lock.held_by(), None);
}

#[test]
fn hosted_lock_default_is_free() {
    let lock = HostedSpinlock::default();
    assert_eq!(lock.held_by(), None);
}

#[test]
fn hosted_lock_admits_one_thread_at_a_time() {
    let mut lock = HostedSpinlock::new();
    let mut inside: Vec<u32> = Vec::new();
    let script = [1u32, 2, 3, 1, 2, 2, 3, 3, 1, 1];
    for tid in script {
        if inside.contains(&tid) {
            lock.inner_release(tid);
            inside.retain(|t| *t != tid);
        } else if lock.try_inner_lock_cpu(tid) {
            inside.push(tid);
        }
        assert!(inside.len() <= 1);
        assert_eq!(inside.first().copied(), lock.held_by());
    }
}
