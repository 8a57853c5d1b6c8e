use tokio_lab::future::{Delay, DelayPoll, MainFuture, MainStep, DELAY_MILLIS};

#[test]
fn delay_ends_three_seconds_later() {
    assert_eq!(DELAY_MILLIS, 3000);
    assert_eq!(Delay::starting_at(100).when, 3100);
}

#[test]
fn delay_is_pending_before_and_ready_at_deadline() {
    let d = Delay::starting_at(0);
    assert_eq!(d.poll(0), DelayPoll::Pending);
    assert_eq!(d.poll(2999), DelayPoll::Pending);
    assert_eq!(d.poll(3000), DelayPoll::Ready("done"));
    assert_eq!(d.poll(10_000), DelayPoll::Ready("done"));
}

#[test]
fn main_future_runs_through_its_states() {
    let mut f = MainFuture::new();
    assert_eq!(f, MainFuture::State0);
    assert_eq!(f.poll_step(1000), MainStep::Again);
    assert_eq!(f, MainFuture::State1(Delay { when: 4000 }));
    assert_eq!(f.poll_step(1000), MainStep::Pending);
    assert_eq!(f.poll_step(3999), MainStep::Pending);
    assert_eq!(f, MainFuture::State1(Delay { when: 4000 }));
    assert_eq!(f.poll_step(4000), MainStep::Ready);
    assert_eq!(f, MainFuture::Terminated);
}

#[test]
fn main_future_completes_on_late_second_step() {
    let mut f = MainFuture::new();
    assert_eq!(f.poll_step(5), MainStep::Again);
    assert_eq!(f.poll_step(9000), MainStep::Ready);
    assert_eq!(f, MainFuture::Terminated);
}
