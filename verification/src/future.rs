//! A hand-rolled future: a `Delay` that becomes ready once a deadline has
//! passed, and `MainFuture`, the state machine that an `async` block awaiting
//! such a delay compiles into.
//!
//! Time is a monotone millisecond counter supplied by the caller (the reading
//! of the clock is I/O and stays with the caller); each step decides what the
//! executor-facing code must do next.

use vstd::prelude::*;

verus! {

/// How long `MainFuture` and `delay_future_test` wait, in milliseconds.
pub const DELAY_MILLIS: u64 = 3000;

/// What polling a [`Delay`] yields.
///
/// `Ready` carries the future's output (`"done"`); the poller prints
/// `Hello World` at that moment.  `Pending` means the poller must wake its
/// waker so that it is polled again.
#[derive(Debug, PartialEq, Eq)]
pub enum DelayPoll {
    Ready(&'static str),
    Pending,
}

/// A future that completes once the clock reaches `when`.
#[derive(Debug, Clone, Copy, PartialEq, Eq)]
pub struct Delay {
    pub when: u64,
}

impl Delay {
    /// Whether the delay is over at time `now`.
    pub open spec fn is_due(self, now: u64) -> bool {
        now >= self.when
    }

    /// A delay that ends `DELAY_MILLIS` after `now`.
    ///
    /// Adding to an instant panics when the result cannot be represented, so
    /// `now` must leave room for the delay.
    pub fn starting_at(now: u64) -> (d: Delay)
        requires
            now + DELAY_MILLIS <= u64::MAX,
        ensures
            d.when == now + DELAY_MILLIS,
    {
        Delay { when: now + DELAY_MILLIS }
    }

    /// Poll the delay at time `now`: ready with `"done"` exactly when the
    /// deadline has been reached, pending before it.
    pub fn poll(&self, now: u64) -> (r: DelayPoll)
        ensures
            now >= self.when ==> r == DelayPoll::Ready("done"),
            now < self.when ==> r == DelayPoll::Pending,
    {
        if now >= self.when {
            DelayPoll::Ready("done")
        } else {
            DelayPoll::Pending
        }
    }
}

/// The states of the future that `async { Delay::starting_at(now).await }`
/// becomes.
#[derive(Debug, Clone, Copy, PartialEq, Eq)]
pub enum MainFuture {
    /// Created, never polled.
    State0,
    /// Waiting on the inner `Delay`.
    State1(Delay),
    /// Completed; polling again is a bug.
    Terminated,
}

/// What one step of [`MainFuture::poll_step`] asks of its caller.
#[derive(Debug, Clone, Copy, PartialEq, Eq)]
pub enum MainStep {
    /// The state changed without completing: read the clock and step again.
    Again,
    /// The inner delay completed (print `Hello World`); the future returns
    /// `Poll::Ready(())`.
    Ready,
    /// The inner delay is not due (wake the waker); the future returns
    /// `Poll::Pending`.
    Pending,
}

impl MainFuture {
    /// A freshly created, never polled future.
    pub fn new() -> (f: MainFuture)
        ensures
            f == MainFuture::State0,
    {
        MainFuture::State0
    }

    /// The state that one step at time `now` leads to, and what it asks of
    /// the caller.
    pub open spec fn step_spec(self, now: u64) -> (MainFuture, MainStep) {
        match self {
            MainFuture::State0 => (
                MainFuture::State1(Delay { when: (now + DELAY_MILLIS) as u64 }),
                MainStep::Again,
            ),
            MainFuture::State1(d) => if d.is_due(now) {
                (MainFuture::Terminated, MainStep::Ready)
            } else {
                (MainFuture::State1(d), MainStep::Pending)
            },
            MainFuture::Terminated => (MainFuture::Terminated, MainStep::Again),
        }
    }

    /// One pass of the future's `poll` loop at time `now`.
    ///
    /// From `State0` it starts a delay of `DELAY_MILLIS` and asks to be
    /// stepped again; from `State1` it polls the delay, terminating when it is
    /// ready.  A terminated future must not be polled: a future polled after
    /// completion panics.
    pub fn poll_step(&mut self, now: u64) -> (r: MainStep)
        requires
            !(*old(self) is Terminated),
            *old(self) is State0 ==> now + DELAY_MILLIS <= u64::MAX,
        ensures
            (*final(self), r) == old(self).step_spec(now),
    {
        match *self {
            MainFuture::State0 => {
                let fut = Delay::starting_at(now);
                *self = MainFuture::State1(fut);
                MainStep::Again
            },
            MainFuture::State1(d) => {
                match d.poll(now) {
                    DelayPoll::Ready(_) => {
                        *self = MainFuture::Terminated;
                        MainStep::Ready
                    },
                    DelayPoll::Pending => MainStep::Pending,
                }
            },
            MainFuture::Terminated => MainStep::Again,
        }
    }
}

/// A delay is due exactly from its deadline on: at every reading before
/// `when` it is not, at `when` and after it is.
pub proof fn law_delay_due_from_deadline(d: Delay, now: u64)
    ensures
        d.is_due(now) == (now >= d.when),
        d.is_due(d.when),
        d.when > 0 ==> !d.is_due((d.when - 1) as u64),
{
}

/// A delay started at `start` is pending at every reading before
/// `start + DELAY_MILLIS` and due from then on, whatever `start` is.
pub proof fn law_delay_started_at(start: u64, now: u64)
    requires
        start + DELAY_MILLIS <= u64::MAX,
    ensures
        (Delay { when: (start + DELAY_MILLIS) as u64 }).is_due(now) == (now - start >= DELAY_MILLIS),
{
}

/// A delay that is due stays due: polling later than a ready poll is ready
/// too.
pub proof fn law_delay_stays_ready(d: Delay, t1: u64, t2: u64)
    requires
        d.is_due(t1),
        t1 <= t2,
    ensures
        d.is_due(t2),
{
}

/// A fresh future started at `t0` and stepped again at `t1` completes exactly
/// when `t1` is at least `DELAY_MILLIS` after `t0`; completing terminates it,
/// and a pending step leaves it waiting on the same deadline.
pub proof fn law_main_future_completes_after_delay(t0: u64, t1: u64)
    requires
        t0 + DELAY_MILLIS <= u64::MAX,
    ensures
        ({
            let (s1, a1) = MainFuture::State0.step_spec(t0);
            let (s2, a2) = s1.step_spec(t1);
            &&& a1 == MainStep::Again
            &&& s1 == MainFuture::State1(Delay { when: (t0 + DELAY_MILLIS) as u64 })
            &&& (a2 == MainStep::Ready) == (t1 >= t0 + DELAY_MILLIS)
            &&& a2 == MainStep::Ready ==> s2 == MainFuture::Terminated
            &&& a2 != MainStep::Ready ==> a2 == MainStep::Pending && s2 == s1
        }),
{
}

/// Polling a waiting future never moves it back: it stays waiting on the same
/// deadline or terminates.
pub proof fn law_waiting_future_only_terminates(d: Delay, now: u64)
    ensures
        ({
            let (s, a) = MainFuture::State1(d).step_spec(now);
            (s == MainFuture::State1(d) && a == MainStep::Pending) || (s == MainFuture::Terminated
                && a == MainStep::Ready)
        }),
{
}

impl MainFuture {
    /// How far the future has come: fresh, waiting, terminated.
    pub open spec fn progress(self) -> int {
        match self {
            MainFuture::State0 => 0,
            MainFuture::State1(_) => 1,
            MainFuture::Terminated => 2,
        }
    }
}

/// The state after stepping `s` at each of `times` in turn.
pub open spec fn run(s: MainFuture, times: Seq<u64>) -> MainFuture
    decreases times.len(),
{
    if times.len() == 0 {
        s
    } else {
        run(s, times.drop_last()).step_spec(times.last()).0
    }
}

/// What the `i`-th of the steps of `s` at `times` asks of its caller.
pub open spec fn step_result(s: MainFuture, times: Seq<u64>, i: int) -> MainStep {
    run(s, times.take(i)).step_spec(times[i]).1
}

proof fn lemma_run_take_next(s: MainFuture, times: Seq<u64>, i: int)
    requires
        0 <= i < times.len(),
    ensures
        run(s, times.take(i + 1)) == run(s, times.take(i)).step_spec(times[i]).0,
{
    assert(times.take(i + 1).drop_last() =~= times.take(i));
    assert(times.take(i + 1).last() == times[i]);
}

/// A fresh future stepped at the clock readings `times`, never stepped once
/// terminated: the first step starts the delay, ending `DELAY_MILLIS` after
/// the first reading; every later step before that deadline is pending and
/// leaves the future waiting on it; a step at or after the deadline is ready
/// and terminates the future, so ready comes at most once, on the last step.
/// The future never moves back.
pub proof fn law_main_future_polls(times: Seq<u64>)
    requires
        times.len() > 0,
        times[0] + DELAY_MILLIS <= u64::MAX,
        forall|j: int|
            0 <= j < times.len() ==> !(#[trigger] run(MainFuture::State0, times.take(j)) is Terminated),
    ensures
        step_result(MainFuture::State0, times, 0) == MainStep::Again,
        forall|j: int|
            1 <= j < times.len() ==> #[trigger] run(MainFuture::State0, times.take(j))
                == MainFuture::State1(Delay { when: (times[0] + DELAY_MILLIS) as u64 }),
        forall|j: int|
            1 <= j < times.len() ==> ((#[trigger] step_result(MainFuture::State0, times, j)
                == MainStep::Ready) == (times[j] >= times[0] + DELAY_MILLIS)) && (step_result(
                MainFuture::State0,
                times,
                j,
            ) != MainStep::Ready ==> step_result(MainFuture::State0, times, j) == MainStep::Pending),
        forall|j: int|
            0 <= j < times.len() && #[trigger] step_result(MainFuture::State0, times, j)
                == MainStep::Ready ==> j == times.len() - 1 && run(MainFuture::State0, times)
                is Terminated,
        forall|j: int|
            0 <= j < times.len() ==> run(MainFuture::State0, times.take(j)).progress() <= #[trigger] run(
                MainFuture::State0,
                times.take(j + 1),
            ).progress(),
{
    let d = Delay { when: (times[0] + DELAY_MILLIS) as u64 };
    let w = MainFuture::State1(d);
    assert(times.take(0) =~= Seq::<u64>::empty());
    lemma_run_take_next(MainFuture::State0, times, 0);
    assert forall|j: int| 1 <= j < times.len() implies #[trigger] run(
        MainFuture::State0,
        times.take(j),
    ) == w by {
        lemma_waiting_until(times, j);
    }
    assert forall|j: int| 0 <= j < times.len() implies run(
        MainFuture::State0,
        times.take(j),
    ).progress() <= #[trigger] run(MainFuture::State0, times.take(j + 1)).progress() by {
        lemma_run_take_next(MainFuture::State0, times, j);
        if j >= 1 {
            lemma_waiting_until(times, j);
        }
    }
    assert forall|j: int|
        0 <= j < times.len() && #[trigger] step_result(MainFuture::State0, times, j)
            == MainStep::Ready implies j == times.len() - 1 && run(MainFuture::State0, times)
        is Terminated by {
        lemma_run_take_next(MainFuture::State0, times, j);
        if j >= 1 {
            lemma_waiting_until(times, j);
        }
        if j + 1 < times.len() {
            assert(run(MainFuture::State0, times.take(j + 1)) is Terminated);
        }
        assert(times.take(j + 1) =~= times);
    }
}

proof fn lemma_waiting_until(times: Seq<u64>, i: int)
    requires
        1 <= i < times.len(),
        times[0] + DELAY_MILLIS <= u64::MAX,
        forall|j: int|
            0 <= j < times.len() ==> !(#[trigger] run(MainFuture::State0, times.take(j)) is Terminated),
    ensures
        run(MainFuture::State0, times.take(i)) == MainFuture::State1(
            Delay { when: (times[0] + DELAY_MILLIS) as u64 },
        ),
    decreases i,
{
    assert(times.take(0) =~= Seq::<u64>::empty());
    lemma_run_take_next(MainFuture::State0, times, i - 1);
    if i > 1 {
        lemma_waiting_until(times, i - 1);
        assert(!(run(MainFuture::State0, times.take(i)) is Terminated));
    }
}

} // verus!
