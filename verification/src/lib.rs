//! Control logic of a session-lock client: it tracks the connected displays,
//! follows the compositor's lock protocol, and says which cover surfaces to
//! create and destroy and when the process has to end.
//!
//! The client is driven from outside. Every occurrence goes through
//! [`message::dispatch`]; what comes out goes to [`locker::App::update`], one
//! message at a time, and the commands that come back are carried out before
//! the next message is taken. The library reads no clock and touches no
//! display: readings are handed in, requests are handed out.
//!
//! - [`registry`]: the connected outputs and the surface handle of each.
//! - [`message`]: the messages, and the dispatcher that makes them.
//! - [`command`]: what the state machine asks for.
//! - [`machine`]: the state machine as mathematics.
//! - [`lifecycle`]: the requests that create and destroy cover surfaces.
//! - [`clock`]: the clock value that the cover surfaces display, and its
//!   text.
//! - [`locker`]: the client that holds it all.
//! - [`laws`]: what holds over whole runs of messages.

pub mod clock;
pub mod command;
pub mod laws;
pub mod lifecycle;
pub mod locker;
pub mod machine;
pub mod message;
pub mod registry;
