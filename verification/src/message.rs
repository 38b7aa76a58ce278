//! The messages the lock state machine consumes, and the dispatcher that
//! turns every outside occurrence into at most one of them.

use crate::registry::{Output, SurfaceId};
use vstd::prelude::*;

verus! {

/// What the compositor reports of one output.
#[derive(Clone, Copy, Debug, PartialEq, Eq, Structural)]
pub enum OutputEvent {
    /// The output was connected.
    Created,
    /// The output went away.
    Removed,
    /// The output's description changed.
    InfoUpdate,
}

/// What the compositor reports of the session lock.
#[derive(Clone, Copy, Debug, PartialEq, Eq, Structural)]
pub enum SessionLockEvent {
    /// A cover surface got the keyboard focus.
    Focused(SurfaceId),
    /// The compositor confirms that the session is locked.
    Locked,
    /// The compositor confirms that the session is unlocked.
    Unlocked,
    /// The compositor is done with the lock and will not use it again.
    Finished,
    /// The compositor has no session lock to offer.
    NotSupported,
    /// A cover surface lost the keyboard focus.
    Unfocused(SurfaceId),
}

/// One message to the lock state machine.
#[derive(Clone, Copy, Debug, PartialEq, Eq, Structural)]
pub enum Message {
    /// Nothing happened.
    Nothing,
    /// Something happened to an output.
    OutputEvent(OutputEvent, Output),
    /// Something happened to the session lock.
    SessionLockEvent(SessionLockEvent),
    /// The session is to be unlocked.
    Unlock,
    /// The displayed clock is due for a refresh.
    Tick,
}

/// The two periodic wake-ups.
#[derive(Clone, Copy, Debug, PartialEq, Eq, Structural)]
pub enum Timer {
    /// Unlocks the session by itself after a short while. It defeats the
    /// purpose of a lock and exists for trying the client out.
    AutoUnlock,
    /// Refreshes the displayed clock.
    Clock,
}

/// Seconds between two wake-ups of [`Timer::AutoUnlock`].
pub const AUTO_UNLOCK_SECS: u64 = 10;

/// Seconds between two wake-ups of [`Timer::Clock`].
pub const CLOCK_SECS: u64 = 60;

/// One occurrence outside the state machine, as the dispatcher receives it.
#[derive(Clone, Copy, Debug, PartialEq, Eq, Structural)]
pub enum Event {
    /// The compositor reports on an output.
    Output(OutputEvent, Output),
    /// The compositor reports on the session lock.
    SessionLock(SessionLockEvent),
    /// A timer fired.
    Timer(Timer),
    /// Anything else: input, window and other events that do not concern the
    /// lock.
    Other,
}

/// One source of events that the client listens to.
#[derive(Clone, Copy, Debug, PartialEq, Eq, Structural)]
pub enum Subscription {
    /// The compositor's output and session lock events.
    Events,
    /// A wake-up of `timer` every `secs` seconds.
    Every { secs: u64, timer: Timer },
}

/// The message that stands for `event`, if it concerns the lock at all.
pub open spec fn dispatched(event: Event) -> Option<Message> {
    match event {
        Event::Output(output_event, output) => Some(Message::OutputEvent(output_event, output)),
        Event::SessionLock(lock_event) => Some(Message::SessionLockEvent(lock_event)),
        Event::Timer(Timer::AutoUnlock) => Some(Message::Unlock),
        Event::Timer(Timer::Clock) => Some(Message::Tick),
        Event::Other => None,
    }
}

/// Turns one occurrence into the message for the state machine. Events that
/// do not concern the lock are dropped; nothing else is filtered, and every
/// output and session lock event is handed on as it came.
pub fn dispatch(event: Event) -> (message: Option<Message>)
    ensures
        message == dispatched(event),
        message is None <==> event is Other,
{
    match event {
        Event::Output(output_event, output) => Some(Message::OutputEvent(output_event, output)),
        Event::SessionLock(lock_event) => Some(Message::SessionLockEvent(lock_event)),
        Event::Timer(timer) => match timer {
            Timer::AutoUnlock => Some(Message::Unlock),
            Timer::Clock => Some(Message::Tick),
        },
        Event::Other => None,
    }
}

/// A wake-up of `timer` every `secs` seconds.
pub fn time_subscription(secs: u64, timer: Timer) -> (subscription: Subscription)
    ensures
        subscription == (Subscription::Every { secs, timer }),
{
    Subscription::Every { secs, timer }
}

} // verus!
