use tokio_lab::lock::{
    lock_order, rw_lock, single_thread_deadlock, single_thread_mutex, single_thread_mutex_deadlock,
    CanIncrement, Lock, LockState, MutexId, Notifier, NotifierAction, Waiter, WaiterAction,
};

#[test]
fn rw_lock_runs() {
    rw_lock();
}

#[test]
fn readers_share_and_writer_excludes() {
    let mut l = Lock::new(3);
    assert_eq!(l.try_read(), Some(3));
    assert_eq!(l.try_read(), Some(3));
    assert!(!l.try_write());
    l.release_read();
    l.release_read();
    assert!(l.try_write());
    assert_eq!(l.try_read(), None);
    l.set(4);
    assert_eq!(l.get(), 4);
    l.release_write();
    assert_eq!(l.try_read(), Some(4));
    l.release_read();
    assert_eq!(l.into_inner(), 4);
}

#[test]
fn mutex_demos() {
    assert_eq!(single_thread_mutex(), 33);
    let m = single_thread_mutex_deadlock();
    assert_eq!(m.get(), 11);
    assert_eq!(m.lock_state(), LockState::Exclusive);
    assert!(single_thread_deadlock());
}

#[test]
fn counter_increments() {
    let mut c = CanIncrement::new(0);
    for _ in 0..10 {
        c.increment();
    }
    assert_eq!(c.get(), 10);
}

#[test]
fn counter_near_limit() {
    let mut c = CanIncrement::new(i32::MAX - 1);
    c.increment();
    assert_eq!(c.get(), i32::MAX);
}

#[test]
fn opposite_lock_orders() {
    assert_eq!(lock_order(0), (MutexId::First, MutexId::Second));
    assert_eq!(lock_order(1), (MutexId::Second, MutexId::First));
    assert_eq!(lock_order(7), (MutexId::Second, MutexId::First));
}

#[test]
fn notifier_notifies_three_times() {
    let mut n = Notifier::new();
    assert_eq!(n.step(), NotifierAction::Notify(1));
    assert_eq!(n.step(), NotifierAction::Notify(2));
    assert_eq!(n.step(), NotifierAction::Notify(3));
    assert_eq!(n.step(), NotifierAction::Finish);
    assert_eq!(n.counter, 4);
}

#[test]
fn waiter_consumes_three_flags() {
    let mut w = Waiter::new(false);
    assert_eq!(w.step(), WaiterAction::Wait);
    w.observe(true);
    assert_eq!(w.step(), WaiterAction::Consumed(1));
    assert_eq!(w.step(), WaiterAction::Wait);
    w.observe(true);
    assert_eq!(w.step(), WaiterAction::Consumed(2));
    w.observe(true);
    assert_eq!(w.step(), WaiterAction::Consumed(3));
    assert_eq!(w.step(), WaiterAction::Done);
    w.observe(true);
    assert_eq!(w.step(), WaiterAction::Done);
}
