//! Waiting for a device: it is looked for again and again until a time limit,
//! and from time to time the device manager is asked to announce block devices
//! again.
use vstd::prelude::*;

use crate::script::{log_step, no_steps, push_step, Step};
#[allow(unused_imports)]
use crate::script::{log, StepView};
use crate::text::{cat2, cat3};

verus! {

/// How long a wait pauses between two looks, in milliseconds.
pub const PAUSE_MILLIS: u64 = 100;

/// How often a wait for a device has block devices announced again, in
/// milliseconds.
pub const DEVICE_RETRIGGER_MILLIS: u64 = 5000;

/// Where a wait stands.
#[derive(Debug, Clone, Copy, PartialEq, Eq, Structural)]
pub enum PollState {
    /// The time since the beginning is asked for.
    Timing,
    /// The device is looked for.
    Probing,
    /// The time since block devices were last announced is asked for.
    Checking,
    /// Block devices are announced again.
    Retriggering,
    /// It pauses.
    Pausing,
    /// The device was found.
    Ready,
    /// The time is up.
    TimedOut,
}

/// What a wait learns.
#[derive(Debug, Clone, Copy, PartialEq, Eq, Structural)]
pub enum PollEvent {
    /// The time that was asked for, in whole milliseconds.
    Time(u64),
    /// Whether the device was found.
    Found(bool),
    /// What was to be done is done.
    Done,
}

/// Where a wait stands after an event, given its limit and the time between two
/// announcements in milliseconds. What does not belong to a state changes
/// nothing.
pub open spec fn poll_next(
    state: PollState,
    limit: u64,
    interval: u64,
    event: PollEvent,
) -> PollState {
    match (state, event) {
        (PollState::Timing, PollEvent::Time(elapsed)) => if elapsed < limit {
            PollState::Probing
        } else {
            PollState::TimedOut
        },
        (PollState::Probing, PollEvent::Found(found)) => if found {
            PollState::Ready
        } else {
            PollState::Checking
        },
        (PollState::Checking, PollEvent::Time(since)) => if since >= interval {
            PollState::Retriggering
        } else {
            PollState::Pausing
        },
        (PollState::Retriggering, PollEvent::Done) => PollState::Pausing,
        (PollState::Pausing, PollEvent::Done) => PollState::Timing,
        _ => state,
    }
}

/// A wait.
#[derive(Debug, PartialEq, Eq)]
pub struct Poll {
    pub state: PollState,
    pub limit: u64,
    pub interval: u64,
}

/// The limit of a wait of so many seconds, in milliseconds, or as many as fit.
pub open spec fn poll_limit(seconds: u64) -> u64 {
    if seconds * 1000 <= u64::MAX {
        (seconds * 1000) as u64
    } else {
        u64::MAX
    }
}

/// The steps that announce the wait for a device.
pub open spec fn wait_steps(device: Seq<char>) -> Seq<StepView> {
    seq![log("Waiting for device: "@ + device)]
}

/// How a wait for a device ends: with steps, or with a message that it fails with.
pub open spec fn wait_end(device: Seq<char>, state: PollState) -> Result<
    Seq<StepView>,
    Seq<char>,
> {
    if state == PollState::Ready {
        Ok(seq![log("Device "@ + device + " is ready"@)])
    } else {
        Err("Failed to wait for root device"@)
    }
}

impl Poll {
    /// Whether this is the beginning of a wait for a device.
    pub open spec fn begins(self, seconds: u64) -> bool {
        &&& self.state == PollState::Timing
        &&& self.limit == poll_limit(seconds)
        &&& self.interval == DEVICE_RETRIGGER_MILLIS
    }

    /// A wait of at most `seconds`, or of as many as fit in a count of
    /// milliseconds, with `interval` milliseconds between two announcements.
    pub fn new(seconds: u64, interval: u64) -> (r: Self)
        ensures
            r.state == PollState::Timing,
            r.limit == poll_limit(seconds),
            r.interval == interval,
    {
        let limit: u64 = match seconds.checked_mul(1000) {
            Some(millis) => millis,
            None => u64::MAX,
        };
        Poll { state: PollState::Timing, limit, interval }
    }

    /// Goes on after an event.
    pub fn step(&mut self, event: PollEvent)
        ensures
            final(self).limit == old(self).limit,
            final(self).interval == old(self).interval,
            final(self).state == poll_next(
                old(self).state,
                old(self).limit,
                old(self).interval,
                event,
            ),
    {
        self.state = match (self.state, event) {
            (PollState::Timing, PollEvent::Time(elapsed)) => if elapsed < self.limit {
                PollState::Probing
            } else {
                PollState::TimedOut
            },
            (PollState::Probing, PollEvent::Found(found)) => if found {
                PollState::Ready
            } else {
                PollState::Checking
            },
            (PollState::Checking, PollEvent::Time(since)) => if since >= self.interval {
                PollState::Retriggering
            } else {
                PollState::Pausing
            },
            (PollState::Retriggering, PollEvent::Done) => PollState::Pausing,
            (PollState::Pausing, PollEvent::Done) => PollState::Timing,
            (state, _) => state,
        };
    }
}

/// The wait for a device, with the steps that announce it.
pub fn wait_for_device(device: &str, timeout_secs: u64) -> (r: (Vec<Step>, Poll))
    ensures
        r.0.deep_view() == wait_steps(device@),
        r.1.begins(timeout_secs),
{
    let mut steps = no_steps();
    push_step(&mut steps, log_step(cat2("Waiting for device: ", device).as_str()));
    assert(steps.deep_view() =~= wait_steps(device@));
    (steps, Poll::new(timeout_secs, DEVICE_RETRIGGER_MILLIS))
}

/// How a wait for a device ends: with steps that log that it is ready, or with
/// the message that it fails with.
pub fn end_of_wait(device: &str, state: PollState) -> (r: Result<Vec<Step>, String>)
    ensures
        match r {
            Ok(steps) => wait_end(device@, state) == Ok::<Seq<StepView>, Seq<char>>(
                steps.deep_view(),
            ),
            Err(message) => wait_end(device@, state) == Err::<Seq<StepView>, Seq<char>>(message@),
        },
{
    if state == PollState::Ready {
        let mut steps = no_steps();
        push_step(&mut steps, log_step(cat3("Device ", device, " is ready").as_str()));
        assert(steps.deep_view() =~= seq![log("Device "@ + device@ + " is ready"@)]);
        Ok(steps)
    } else {
        Err("Failed to wait for root device".to_owned())
    }
}

// ---------------------------------------------------------------------------
// Laws
// ---------------------------------------------------------------------------
/// Where a wait stands after a row of events.
pub open spec fn poll_after(limit: u64, interval: u64, events: Seq<PollEvent>) -> PollState
    decreases events.len(),
{
    if events.len() == 0 {
        PollState::Timing
    } else {
        poll_next(
            poll_after(limit, interval, events.drop_last()),
            limit,
            interval,
            events.last(),
        )
    }
}

/// A wait ends well only where the device was found, and in vain only where the
/// limit was reached.
pub proof fn lemma_poll_ends(limit: u64, interval: u64, events: Seq<PollEvent>)
    ensures
        poll_after(limit, interval, events) == PollState::Ready ==> events.contains(
            PollEvent::Found(true),
        ),
        poll_after(limit, interval, events) == PollState::TimedOut ==> exists|t: u64|
            t >= limit && #[trigger] events.contains(PollEvent::Time(t)),
    decreases events.len(),
{
    if events.len() > 0 {
        let front = events.drop_last();
        lemma_poll_ends(limit, interval, front);
        assert(events[events.len() - 1] == events.last());
        if poll_after(limit, interval, front) == PollState::Ready {
            let e = PollEvent::Found(true);
            let i = choose|i: int| 0 <= i < front.len() && front[i] == e;
            assert(events[i] == e);
        }
        if poll_after(limit, interval, front) == PollState::TimedOut {
            let t = choose|t: u64| t >= limit && #[trigger] front.contains(PollEvent::Time(t));
            let e = PollEvent::Time(t);
            let i = choose|i: int| 0 <= i < front.len() && front[i] == e;
            assert(events[i] == e);
            assert(events.contains(PollEvent::Time(t)));
        } else if poll_after(limit, interval, events) == PollState::TimedOut {
            let t = events.last()->Time_0;
            assert(events.contains(PollEvent::Time(t)));
        }
    }
}

/// As long as the limit is not reached, a wait that has not found its device
/// looks again after it paused.
pub proof fn lemma_poll_looks_again(
    limit: u64,
    interval: u64,
    since: u64,
    elapsed: u64,
)
    requires
        elapsed < limit,
    ensures
        ({
            let missed = poll_next(PollState::Probing, limit, interval, PollEvent::Found(false));
            let checked = poll_next(missed, limit, interval, PollEvent::Time(since));
            let announced = if since >= interval {
                poll_next(checked, limit, interval, PollEvent::Done)
            } else {
                checked
            };
            let paused = poll_next(announced, limit, interval, PollEvent::Done);
            poll_next(paused, limit, interval, PollEvent::Time(elapsed)) == PollState::Probing
        }),
{
}

/// A wait looks for its device as long as the time that it was given is not up, and
/// fails when it is. Between two looks it has block devices announced again where
/// that was five seconds ago or more, and pauses in any case.
pub proof fn lemma_wait_takes_its_time(poll: Poll, seconds: u64, elapsed: u64, since: u64)
    requires
        poll.begins(seconds),
        seconds * 1000 <= u64::MAX,
    ensures
        ({
            let next = |state: PollState, event: PollEvent|
                poll_next(state, poll.limit, poll.interval, event);
            let timed = next(poll.state, PollEvent::Time(elapsed));
            let missed = next(PollState::Probing, PollEvent::Found(false));
            let checked = next(missed, PollEvent::Time(since));
            &&& elapsed < seconds * 1000 ==> timed == PollState::Probing
            &&& elapsed >= seconds * 1000 ==> timed == PollState::TimedOut
            &&& next(PollState::Probing, PollEvent::Found(true)) == PollState::Ready
            &&& since >= 5000 ==> checked == PollState::Retriggering && next(
                checked,
                PollEvent::Done,
            ) == PollState::Pausing
            &&& since < 5000 ==> checked == PollState::Pausing
            &&& next(PollState::Pausing, PollEvent::Done) == poll.state
        }),
{
}

/// A wait ends well exactly where its device was found.
pub proof fn lemma_wait_ends_as_it_went(device: Seq<char>, state: PollState)
    ensures
        wait_end(device, state) is Ok <==> state == PollState::Ready,
        wait_end(device, PollState::TimedOut) == Err::<Seq<StepView>, Seq<char>>(
            "Failed to wait for root device"@,
        ),
{
}

/// A wait that found its device, or ran out of time, is over.
pub proof fn lemma_wait_is_over(limit: u64, interval: u64, event: PollEvent)
    ensures
        poll_next(PollState::Ready, limit, interval, event) == PollState::Ready,
        poll_next(PollState::TimedOut, limit, interval, event) == PollState::TimedOut,
{
}

/// A device is looked for about ten times a second.
pub proof fn lemma_pause()
    ensures
        10 * PAUSE_MILLIS == 1000,
{
}

} // verus!
