//! What the lock state machine asks of the world around it.

use crate::registry::{Output, SurfaceId};
use vstd::prelude::*;

verus! {

/// The exit status of a client whose session was unlocked.
pub const EXIT_UNLOCKED: i32 = 0;

/// The exit status of a client that cannot get a lock.
pub const EXIT_NO_LOCK: i32 = 1;

/// One request that the state machine issues. The caller carries it out.
#[derive(Clone, Copy, Debug, PartialEq, Eq, Structural)]
pub enum Command {
    /// Ask the compositor to lock the session.
    RequestLock,
    /// Ask the compositor to unlock the session.
    RequestUnlock,
    /// Put the cover surface with this handle on this output.
    CreateSurface(SurfaceId, Output),
    /// Take the cover surface with this handle away.
    DestroySurface(SurfaceId),
    /// End the process with this exit status.
    Terminate(i32),
}

/// A condition that the state machine lived through and that is worth a line
/// in the log.
#[derive(Clone, Copy, Debug, PartialEq, Eq, Structural)]
pub enum Warning {
    /// The output was reported as created while it was registered with this
    /// surface. It keeps that surface.
    OutputAlreadyRegistered(Output, SurfaceId),
    /// The output was reported as removed, but was never registered.
    OutputNotRegistered(Output),
    /// The lock was confirmed while the session was locked already.
    AlreadyLocked,
    /// The compositor gave the lock up.
    LockFinished,
    /// The compositor cannot lock the session.
    LockNotSupported,
}

/// All that one message led to, besides the new state.
#[derive(Debug, PartialEq, Eq)]
pub struct Outcome {
    /// The requests to carry out before the next message is taken. Their
    /// order carries no meaning.
    pub commands: Vec<Command>,
    /// What to log, if anything.
    pub warning: Option<Warning>,
}

} // verus!
