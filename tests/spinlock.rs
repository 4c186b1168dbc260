use spinning_top::{Acquire, RawSpinlock};

#[test]
fn new_lock_is_unlocked() {
    let lock = RawSpinlock::new();
    assert!(!lock.is_locked());
    assert!(lock.try_lock());
    assert!(lock.is_locked());
}

#[test]
fn lock_unlock_relock() {
    let lock = RawSpinlock::new();
    assert_eq!(lock.try_lock(), true);
    assert_eq!(lock.try_lock(), false);
    lock.unlock();
    assert_eq!(lock.try_lock(), true);
}

#[test]
fn mutual_exclusion() {
    let lock = RawSpinlock::new();
    let data = lock.try_lock();
    assert!(data);
    assert!(!lock.try_lock());
    assert!(!lock.try_lock()); // still refused
    lock.unlock();
    assert!(lock.try_lock());
}

#[test]
fn three_locks() {
    let lock1 = RawSpinlock::new();
    let lock2 = RawSpinlock::new();
    let lock3 = RawSpinlock::new();
    let data1 = lock1.try_lock();
    let data2 = lock2.try_lock();
    let data3 = lock3.try_lock();
    assert!(data1);
    assert!(data2);
    assert!(data3);
    assert!(!lock1.try_lock());
    assert!(!lock1.try_lock()); // still refused
    assert!(!lock2.try_lock());
    assert!(!lock3.try_lock());
    lock3.unlock();
    assert!(lock3.try_lock());
    assert!(!lock1.try_lock());
    assert!(!lock2.try_lock());
}

#[test]
fn locking_one_leaves_another_free() {
    let a = RawSpinlock::new();
    let b = RawSpinlock::new();
    assert!(a.try_lock());
    assert!(!b.is_locked());
    assert!(b.try_lock());
    a.unlock();
    assert!(b.is_locked());
    assert!(!b.try_lock());
    assert!(a.try_lock());
}

#[test]
fn failed_attempt_keeps_lock_held() {
    let lock = RawSpinlock::new();
    assert!(lock.try_lock());
    assert!(!lock.try_lock());
    assert!(lock.is_locked());
    lock.unlock();
    assert!(!lock.is_locked());
}

#[test]
fn acquire_starts_with_exchange() {
    assert_eq!(Acquire::start(), Acquire::Exchange);
    assert!(!Acquire::start().is_held());
    assert!(Acquire::Held.is_held());
}

#[test]
fn acquire_step_table() {
    assert_eq!(Acquire::Exchange.next(true), Acquire::Held);
    assert_eq!(Acquire::Exchange.next(false), Acquire::Poll);
    assert_eq!(Acquire::Poll.next(true), Acquire::Poll);
    assert_eq!(Acquire::Poll.next(false), Acquire::Exchange);
    assert_eq!(Acquire::Held.next(true), Acquire::Held);
    assert_eq!(Acquire::Held.next(false), Acquire::Held);
}

#[test]
fn acquire_spins_only_while_polling_a_locked_flag() {
    assert!(Acquire::Poll.should_spin(true));
    assert!(!Acquire::Poll.should_spin(false));
    assert!(!Acquire::Exchange.should_spin(true));
    assert!(!Acquire::Exchange.should_spin(false));
    assert!(!Acquire::Held.should_spin(true));
}

fn perform(lock: &RawSpinlock, step: Acquire) -> bool {
    match step {
        Acquire::Exchange => lock.try_lock(),
        Acquire::Poll => lock.is_locked(),
        Acquire::Held => true,
    }
}

#[test]
fn acquire_on_free_lock_takes_one_exchange() {
    let lock = RawSpinlock::new();
    let mut step = Acquire::start();
    let mut exchanges = 0;
    while !step.is_held() {
        if step == Acquire::Exchange {
            exchanges += 1;
        }
        let report = perform(&lock, step);
        step = step.next(report);
    }
    assert_eq!(exchanges, 1);
    assert!(lock.is_locked());
    assert!(!lock.try_lock());
}

#[test]
fn acquire_waits_while_held_then_takes_lock() {
    let lock = RawSpinlock::new();
    assert!(lock.try_lock());
    let mut step = Acquire::start();
    step = step.next(perform(&lock, step));
    assert_eq!(step, Acquire::Poll);
    let report = perform(&lock, step);
    assert!(step.should_spin(report));
    step = step.next(report);
    assert_eq!(step, Acquire::Poll);
    lock.unlock();
    step = step.next(perform(&lock, step));
    assert_eq!(step, Acquire::Exchange);
    step = step.next(perform(&lock, step));
    assert_eq!(step, Acquire::Held);
    assert!(!lock.try_lock());
}
