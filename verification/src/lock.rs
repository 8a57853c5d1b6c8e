//! The lock protocols that the synchronisation programs exercise, as a
//! single-owner state machine: a lock is free, read-held by some number of
//! readers, or write-held by one writer.  An acquisition that the protocol
//! forbids reports that it would block (in a single thread: a deadlock)
//! instead of blocking.

use vstd::prelude::*;

verus! {

/// How a lock is held.
#[derive(Debug, Clone, Copy, PartialEq, Eq)]
pub enum LockState {
    Free,
    /// Held by this many readers (at least one).
    Shared(u32),
    Exclusive,
}

impl LockState {
    /// A reader is let in: the lock is not write-held.
    pub open spec fn read_granted(self) -> bool {
        !(self is Exclusive)
    }

    /// The state once a reader has asked for the lock.
    pub open spec fn after_read(self) -> LockState {
        match self {
            LockState::Free => LockState::Shared(1),
            LockState::Shared(n) => LockState::Shared((n + 1) as u32),
            LockState::Exclusive => LockState::Exclusive,
        }
    }

    /// The state once a reader has given its lock back.
    pub open spec fn after_read_release(self) -> LockState {
        match self {
            LockState::Shared(n) => if n <= 1 {
                LockState::Free
            } else {
                LockState::Shared((n - 1) as u32)
            },
            _ => self,
        }
    }

    /// A writer is let in: nobody holds the lock.
    pub open spec fn write_granted(self) -> bool {
        self is Free
    }

    /// The state once a writer has asked for the lock.
    pub open spec fn after_write(self) -> LockState {
        if self is Free {
            LockState::Exclusive
        } else {
            self
        }
    }
}

/// A value guarded by a reader/writer lock.  A mutex is the same lock used
/// with exclusive acquisitions only.
pub struct Lock<T> {
    value: T,
    state: LockState,
}

impl<T: Copy> Lock<T> {
    /// The guarded value.
    pub closed spec fn value(&self) -> T {
        self.value
    }

    /// How the lock is held.
    pub closed spec fn state(&self) -> LockState {
        self.state
    }

    /// A read-held lock has at least one reader.
    pub closed spec fn wf(&self) -> bool {
        self.state matches LockState::Shared(n) ==> n > 0
    }

    /// A free lock guarding `value`.
    pub fn new(value: T) -> (l: Lock<T>)
        ensures
            l.wf(),
            l.value() == value,
            l.state() == LockState::Free,
    {
        Lock { value, state: LockState::Free }
    }

    /// Take a read lock: granted, with the guarded value, unless a writer
    /// holds the lock (then the reader would block, and nothing changes).
    pub fn try_read(&mut self) -> (r: Option<T>)
        requires
            old(self).wf(),
            old(self).state() matches LockState::Shared(n) ==> n < u32::MAX,
        ensures
            final(self).wf(),
            final(self).value() == old(self).value(),
            final(self).state() == old(self).state().after_read(),
            old(self).state() == LockState::Exclusive ==> r == None::<T> && final(self).state()
                == LockState::Exclusive,
            r == (if old(self).state().read_granted() {
                Some(old(self).value())
            } else {
                None
            }),
    {
        match self.state {
            LockState::Exclusive => None,
            LockState::Free => {
                self.state = LockState::Shared(1);
                Some(self.value)
            },
            LockState::Shared(n) => {
                self.state = LockState::Shared(n + 1);
                Some(self.value)
            },
        }
    }

    /// Give back one read lock.
    pub fn release_read(&mut self)
        requires
            old(self).wf(),
            old(self).state() is Shared,
        ensures
            final(self).wf(),
            final(self).value() == old(self).value(),
            final(self).state() == old(self).state().after_read_release(),
    {
        if let LockState::Shared(n) = self.state {
            if n == 1 {
                self.state = LockState::Free;
            } else {
                self.state = LockState::Shared(n - 1);
            }
        }
    }

    /// Take the write lock: granted only when the lock is free; otherwise the
    /// writer would block, and nothing changes.
    pub fn try_write(&mut self) -> (granted: bool)
        requires
            old(self).wf(),
        ensures
            final(self).wf(),
            final(self).value() == old(self).value(),
            granted == old(self).state().write_granted(),
            granted == (old(self).state() == LockState::Free),
            final(self).state() == old(self).state().after_write(),
            !granted ==> final(self).state() == old(self).state(),
    {
        match self.state {
            LockState::Free => {
                self.state = LockState::Exclusive;
                true
            },
            _ => false,
        }
    }

    /// How the lock is held now.
    pub fn lock_state(&self) -> (s: LockState)
        ensures
            s == self.state(),
    {
        self.state
    }

    /// Read the value through a held lock.
    pub fn get(&self) -> (v: T)
        requires
            self.state() != LockState::Free,
        ensures
            v == self.value(),
    {
        self.value
    }

    /// Replace the value through the write lock.
    pub fn set(&mut self, value: T)
        requires
            old(self).wf(),
            old(self).state() == LockState::Exclusive,
        ensures
            final(self).wf(),
            final(self).value() == value,
            final(self).state() == LockState::Exclusive,
    {
        self.value = value;
    }

    /// Give back the write lock.
    pub fn release_write(&mut self)
        requires
            old(self).wf(),
            old(self).state() == LockState::Exclusive,
        ensures
            final(self).wf(),
            final(self).value() == old(self).value(),
            final(self).state() == LockState::Free,
    {
        self.state = LockState::Free;
    }

    /// The guarded value, the lock being dropped.
    pub fn into_inner(self) -> (v: T)
        ensures
            v == self.value(),
    {
        self.value
    }
}

/// Readers and a writer exclude each other: a writer is refused while
/// readers hold the lock, a reader while the writer holds it.
pub proof fn law_readers_and_writer_exclude(s: LockState)
    ensures
        s is Shared ==> !s.write_granted(),
        s is Exclusive ==> !s.read_granted(),
{
}

/// Writers exclude each other, and a refused writer changes nothing: a
/// write-held or read-held lock refuses a writer and stays as it was; only a
/// free lock lets one in, and then it is write-held.
pub proof fn law_writers_exclude(s: LockState)
    ensures
        s.write_granted() == (s == LockState::Free),
        !s.write_granted() ==> s.after_write() == s,
        s.write_granted() ==> s.after_write() == LockState::Exclusive,
        !LockState::Exclusive.after_write().write_granted(),
{
}

/// A refused reader changes nothing: only a write-held lock refuses a
/// reader, and it stays write-held; a granted reader adds one to the count.
pub proof fn law_refused_read_changes_nothing(s: LockState)
    ensures
        s.read_granted() == (s != LockState::Exclusive),
        !s.read_granted() ==> s.after_read() == s,
        s == LockState::Free ==> s.after_read() == LockState::Shared(1),
        s matches LockState::Shared(n) ==> (n < u32::MAX ==> s.after_read() == LockState::Shared(
            (n + 1) as u32,
        )),
{
}

/// Readers do not exclude each other: once a reader is in, the next reader is
/// let in too.
pub proof fn law_readers_share(s: LockState)
    requires
        s.read_granted(),
    ensures
        s.after_read().read_granted(),
{
}

/// Giving back a read lock undoes taking it.
pub proof fn law_read_release_undoes_read(s: LockState)
    requires
        s.read_granted(),
        s matches LockState::Shared(n) ==> n > 0 && n < u32::MAX,
    ensures
        s.after_read().after_read_release() == s,
{
}

/// Several readers may hold the lock at once and both see the value; a writer
/// then updates it, and no reader is let in while it writes.
pub fn rw_lock() {
    let mut lock = Lock::new(3i32);
    let r1 = lock.try_read();
    let r2 = lock.try_read();
    assert(r1 == Some(3i32));
    assert(r2 == Some(3i32));
    lock.release_read();
    lock.release_read();

    let granted = lock.try_write();
    assert(granted);
    let w = lock.get();
    lock.set(w + 1);
    assert(lock.value() == 4);
    let blocked_reader = lock.try_read();
    assert(blocked_reader == None::<i32>);
    lock.release_write();
}

/// A counter behind a mutex that is free between increments.
pub struct CanIncrement {
    mutex: Lock<i32>,
}

impl CanIncrement {
    /// The counter's value.
    pub closed spec fn value(&self) -> i32 {
        self.mutex.value()
    }

    /// The mutex is free and well formed.
    pub closed spec fn wf(&self) -> bool {
        self.mutex.wf() && self.mutex.state() == LockState::Free
    }

    /// A counter starting at `start`.
    pub fn new(start: i32) -> (c: CanIncrement)
        ensures
            c.wf(),
            c.value() == start,
    {
        CanIncrement { mutex: Lock::new(start) }
    }

    /// Lock the mutex, add one, unlock.  The addition must not overflow.
    pub fn increment(&mut self)
        requires
            old(self).wf(),
            old(self).value() < i32::MAX,
        ensures
            final(self).wf(),
            final(self).value() == old(self).value() + 1,
    {
        let _granted = self.mutex.try_write();
        let v = self.mutex.get();
        self.mutex.set(v + 1);
        self.mutex.release_write();
    }

    /// The counter's value, read under the mutex.
    pub fn get(&mut self) -> (v: i32)
        requires
            old(self).wf(),
        ensures
            final(self).wf(),
            final(self).value() == old(self).value(),
            v == old(self).value(),
    {
        let _granted = self.mutex.try_write();
        let v = self.mutex.get();
        self.mutex.release_write();
        v
    }
}

/// Lock a mutex holding 3, set it to 33, unlock: the mutex then holds 33.
pub fn single_thread_mutex() -> (v: i32)
    ensures
        v == 33,
{
    let mut m = Lock::new(3i32);
    let _granted = m.try_write();
    m.set(33);
    m.release_write();
    m.into_inner()
}

/// Lock, set 33 and release the lock by hand, then lock again and set 11:
/// the second lock is granted because the first was released.  The mutex is
/// handed back still locked by that second lock, holding 11.
pub fn single_thread_mutex_deadlock() -> (m: Lock<i32>)
    ensures
        m.wf(),
        m.value() == 11,
        m.state() == LockState::Exclusive,
{
    let mut m = Lock::new(3i32);
    let _granted = m.try_write();
    m.set(33);
    m.release_write();
    let granted_again = m.try_write();
    assert(granted_again);
    m.set(11);
    m
}

/// Lock a mutex twice from one thread without releasing it: whether the
/// second lock would block, which for a single thread is a deadlock.
pub fn single_thread_deadlock() -> (blocked: bool)
    ensures
        blocked,
{
    let mut data = Lock::new(0i32);
    let _first = data.try_write();
    let second = data.try_write();
    !second
}

/// One of the two global mutexes of the lock-ordering program.
#[derive(Debug, Clone, Copy, PartialEq, Eq)]
pub enum MutexId {
    First,
    Second,
}

/// The order in which worker `i_thread` takes the two mutexes: even workers
/// take the first then the second, odd workers the reverse.
pub fn lock_order(i_thread: u32) -> (order: (MutexId, MutexId))
    ensures
        i_thread % 2 == 0 ==> order == (MutexId::First, MutexId::Second),
        i_thread % 2 == 1 ==> order == (MutexId::Second, MutexId::First),
{
    if i_thread % 2 == 0 {
        (MutexId::First, MutexId::Second)
    } else {
        (MutexId::Second, MutexId::First)
    }
}

/// How many flags the waiting thread consumes, and how many notifications the
/// signalling thread sends.
pub const ROUNDS: u32 = 3;

/// What the signalling thread does after setting the shared flag.
#[derive(Debug, Clone, Copy, PartialEq, Eq)]
pub enum NotifierAction {
    /// Print `outer counter: <n>` and notify the waiting thread.
    Notify(u32),
    /// Stop signalling.
    Finish,
}

/// The signalling side of the condition-variable program: each round it
/// sleeps, sets the flag and counts; past `ROUNDS` it stops, otherwise it
/// notifies.
#[derive(Debug, Clone, Copy, PartialEq, Eq)]
pub struct Notifier {
    pub counter: u32,
}

impl Notifier {
    /// A notifier that has not signalled yet.
    pub fn new() -> (n: Notifier)
        ensures
            n.counter == 0,
    {
        Notifier { counter: 0 }
    }

    /// One round, after the flag has been set.
    pub fn step(&mut self) -> (a: NotifierAction)
        requires
            old(self).counter <= ROUNDS,
        ensures
            final(self).counter == old(self).counter + 1,
            final(self).counter > ROUNDS ==> a == NotifierAction::Finish,
            final(self).counter <= ROUNDS ==> a == NotifierAction::Notify(final(self).counter),
    {
        self.counter = self.counter + 1;
        if self.counter > ROUNDS {
            NotifierAction::Finish
        } else {
            NotifierAction::Notify(self.counter)
        }
    }
}

/// What the waiting thread does next.
#[derive(Debug, Clone, Copy, PartialEq, Eq)]
pub enum WaiterAction {
    /// The flag it last saw is not set: wait on the condition variable and
    /// report the flag it then reads.
    Wait,
    /// It took a set flag: reset the shared flag and print
    /// `inner counter: <n>`.
    Consumed(u32),
    /// It has consumed `ROUNDS` flags and finishes.
    Done,
}

/// The waiting side of the condition-variable program.
#[derive(Debug, Clone, Copy, PartialEq, Eq)]
pub struct Waiter {
    pub counter: u32,
    /// The value of the flag it last read.
    pub seen: bool,
}

impl Waiter {
    /// A waiter that has read the flag once, seeing `seen`.
    pub fn new(seen: bool) -> (w: Waiter)
        ensures
            w.counter == 0,
            w.seen == seen,
    {
        Waiter { counter: 0, seen }
    }

    /// Note the flag read after a wake-up.
    pub fn observe(&mut self, flag: bool)
        ensures
            final(self).counter == old(self).counter,
            final(self).seen == flag,
    {
        self.seen = flag;
    }

    /// Decide the next move: done after `ROUNDS` flags, wait while the flag is
    /// not set, otherwise consume it.
    pub fn step(&mut self) -> (a: WaiterAction)
        requires
            old(self).counter <= ROUNDS,
        ensures
            final(self).counter <= ROUNDS,
            old(self).counter >= ROUNDS ==> a == WaiterAction::Done && *final(self) == *old(self),
            old(self).counter < ROUNDS && !old(self).seen ==> a == WaiterAction::Wait
                && *final(self) == *old(self),
            old(self).counter < ROUNDS && old(self).seen ==> a == WaiterAction::Consumed(
                (old(self).counter + 1) as u32,
            ) && final(self).counter == old(self).counter + 1 && !final(self).seen,
    {
        if self.counter >= ROUNDS {
            WaiterAction::Done
        } else if !self.seen {
            WaiterAction::Wait
        } else {
            self.seen = false;
            self.counter = self.counter + 1;
            WaiterAction::Consumed(self.counter)
        }
    }
}

} // verus!
