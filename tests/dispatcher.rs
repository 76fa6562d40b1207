use pi_os::camera::{stamp_frame_duration, Camera, CameraError, Sample};
use pi_os::dispatcher::{Action, Dispatcher, Event, Poll, StopCause};
use pi_os::lifecycle::State;

struct CountingCamera {
    calls: usize,
    fail_on: usize,
}

impl Camera for CountingCamera {
    fn next_sample(&mut self) -> Result<Sample, CameraError> {
        self.calls += 1;
        if self.calls == self.fail_on {
            Err(CameraError::Disconnected)
        } else {
            Ok(Sample::new(vec![self.calls as u8]))
        }
    }
}

struct Run {
    pulls: usize,
    submitted: usize,
    submit_attempts: usize,
    stats_iterations: Vec<usize>,
    iterations: usize,
    cause: StopCause,
}

/// Drives a dispatcher: `signals` feed the waits and polls (an empty list reads
/// as a closed channel on wait and as empty on poll), the camera gives samples,
/// `submit_fails_on` makes that submission attempt fail, and the run stops
/// after `max_iterations` iterations at the latest.
fn drive(
    first: Option<State>,
    polls: &[(usize, Poll)],
    camera: &mut dyn Camera,
    submit_fails_on: usize,
    max_iterations: usize,
) -> Run {
    let mut d = Dispatcher::new();
    let mut run = Run {
        pulls: 0,
        submitted: 0,
        submit_attempts: 0,
        stats_iterations: vec![],
        iterations: 0,
        cause: StopCause::Disconnected,
    };
    let mut sample = None;
    let mut action = d.action();
    loop {
        let event = match action {
            Action::AwaitLifecycle => Event::Lifecycle(first),
            Action::QueryStats => {
                run.stats_iterations.push(run.iterations);
                Event::StatsQueried
            }
            Action::Tick => Event::Ticked,
            Action::PollLifecycle => {
                let p = polls
                    .iter()
                    .find(|(i, _)| *i == run.iterations)
                    .map(|(_, p)| *p)
                    .unwrap_or(Poll::Empty);
                if run.iterations > max_iterations {
                    Event::Polled(Poll::Closed)
                } else {
                    Event::Polled(p)
                }
            }
            Action::PullSample => {
                run.pulls += 1;
                match camera.next_sample() {
                    Ok(s) => {
                        sample = Some(s);
                        Event::SamplePulled(true)
                    }
                    Err(_) => Event::SamplePulled(false),
                }
            }
            Action::Submit => {
                let mut s = sample.take().unwrap();
                stamp_frame_duration(&mut s);
                assert_eq!(s.duration_nanos, 33_000_000);
                run.submit_attempts += 1;
                if run.submit_attempts == submit_fails_on {
                    Event::Submitted(false)
                } else {
                    run.submitted += 1;
                    Event::Submitted(true)
                }
            }
            Action::Stop(cause) => {
                run.cause = cause;
                return run;
            }
        };
        let was = action;
        action = d.step(event);
        if matches!(action, Action::QueryStats | Action::Tick)
            && matches!(was, Action::AwaitLifecycle | Action::Submit)
        {
            run.iterations += 1;
        }
    }
}

#[test]
fn connected_signal_starts_pulling_frames() {
    let mut cam = CountingCamera { calls: 0, fail_on: 0 };
    let run = drive(Some(State::Connected), &[], &mut cam, 0, 3);
    assert_eq!(run.pulls, 3);
    assert_eq!(run.submitted, 3);
    assert_eq!(run.cause, StopCause::ChannelClosed);
}

#[test]
fn disconnected_or_closed_before_connecting_pulls_nothing() {
    let mut cam = CountingCamera { calls: 0, fail_on: 0 };
    let run = drive(Some(State::Disconnected), &[], &mut cam, 0, 3);
    assert_eq!(run.pulls, 0);
    assert_eq!(run.submitted, 0);
    assert_eq!(run.cause, StopCause::Disconnected);

    let run = drive(None, &[], &mut cam, 0, 3);
    assert_eq!(run.pulls, 0);
    assert_eq!(run.cause, StopCause::ChannelClosed);
    assert_eq!(cam.calls, 0);
}

#[test]
fn camera_failing_on_fifth_call_gives_four_samples() {
    let mut cam = CountingCamera { calls: 0, fail_on: 5 };
    let run = drive(Some(State::Connected), &[], &mut cam, 0, 100);
    assert_eq!(run.pulls, 5);
    assert_eq!(run.submitted, 4);
    assert_eq!(run.cause, StopCause::CameraDisconnected);
}

#[test]
fn submission_failing_on_third_call_stops_without_fourth_pull() {
    let mut cam = CountingCamera { calls: 0, fail_on: 0 };
    let run = drive(Some(State::Connected), &[], &mut cam, 3, 100);
    assert_eq!(run.submitted, 2);
    assert_eq!(run.submit_attempts, 3);
    assert_eq!(run.pulls, 3);
    assert_eq!(cam.calls, 3);
    assert_eq!(run.cause, StopCause::SubmitFailed);
}

#[test]
fn disconnect_seen_on_poll_stops_before_pulling() {
    let mut cam = CountingCamera { calls: 0, fail_on: 0 };
    let run = drive(Some(State::Connected), &[(3, Poll::Message(State::Disconnected))], &mut cam, 0, 100);
    assert_eq!(run.pulls, 2);
    assert_eq!(run.cause, StopCause::Disconnected);

    // a repeated connected signal does not stop the loop
    let run = drive(Some(State::Connected), &[(2, Poll::Message(State::Connected))], &mut cam, 0, 4);
    assert_eq!(run.pulls, 4);
    assert_eq!(run.cause, StopCause::ChannelClosed);
}

#[test]
fn stats_are_queried_once_every_fifteen_iterations() {
    let mut cam = CountingCamera { calls: 0, fail_on: 0 };
    let run = drive(Some(State::Connected), &[], &mut cam, 0, 44);
    assert_eq!(run.iterations, 45);
    assert_eq!(run.stats_iterations, vec![1, 16, 31]);
}

#[test]
fn unexpected_events_change_nothing_and_stop_is_final() {
    let mut d = Dispatcher::new();
    assert_eq!(d.step(Event::Ticked), Action::AwaitLifecycle);
    assert_eq!(d.step(Event::Lifecycle(Some(State::Connected))), Action::QueryStats);
    assert_eq!(d.step(Event::SamplePulled(true)), Action::QueryStats);
    assert_eq!(d.step(Event::StatsQueried), Action::Tick);
    assert_eq!(d.step(Event::Ticked), Action::PollLifecycle);
    assert_eq!(d.step(Event::Polled(Poll::Closed)), Action::Stop(StopCause::ChannelClosed));
    assert!(d.is_stopped());
    assert_eq!(d.step(Event::Lifecycle(Some(State::Connected))), Action::Stop(StopCause::ChannelClosed));
    assert_eq!(d.step(Event::Submitted(true)), Action::Stop(StopCause::ChannelClosed));
    assert_eq!(d.action(), Action::Stop(StopCause::ChannelClosed));
}
