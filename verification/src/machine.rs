//! The lock state machine as mathematics: what each message does to the
//! session state and the registry, and which commands it sets off.

use crate::command::{Command, Warning, EXIT_NO_LOCK, EXIT_UNLOCKED};
use crate::message::{Message, OutputEvent, SessionLockEvent};
use crate::registry::{Output, RegistryView, SurfaceId};
use vstd::prelude::*;

verus! {

/// Where the session stands. Only a confirmation of the compositor makes it
/// `Locked` or takes it from there to `Unlocked`.
#[derive(Clone, Copy, Debug, PartialEq, Eq, Structural)]
pub enum SessionState {
    /// Not locked: the state at the start, and after a confirmed unlock.
    Unlocked,
    /// The lock is requested and not yet confirmed.
    Locking,
    /// The compositor confirmed the lock.
    Locked,
    /// An unlock is requested and not yet confirmed. The machine never
    /// lingers here: a confirmed unlock ends the process.
    Unlocking,
}

/// The state machine's whole state.
pub struct Model {
    pub state: SessionState,
    pub registry: RegistryView,
}

/// One request for a cover surface for each registered output.
pub open spec fn cover_requests(registry: RegistryView) -> Set<Command> {
    Set::new(
        |command: Command|
            command matches Command::CreateSurface(id, output) && registry.surfaces.contains_pair(
                output,
                id,
            ),
    )
}

/// Whether `commands` cover the outputs of `registry`: one request for each
/// registered output, none twice, and nothing else.
pub open spec fn covers(commands: Seq<Command>, registry: RegistryView) -> bool {
    &&& commands.len() == registry.surfaces.len()
    &&& commands.no_duplicates()
    &&& forall|i: int|
        0 <= i < commands.len() ==> cover_requests(registry).contains(#[trigger] commands[i])
    &&& forall|output: Output, id: SurfaceId|
        registry.surfaces.contains_pair(output, id) ==> #[trigger] commands.contains(
            Command::CreateSurface(id, output),
        )
}

/// The exit status with which the process ends on `message`, if it ends.
pub open spec fn exit_status(message: Message) -> Option<i32> {
    match message {
        Message::SessionLockEvent(SessionLockEvent::Unlocked) => Some(EXIT_UNLOCKED),
        Message::SessionLockEvent(SessionLockEvent::Finished) => Some(EXIT_UNLOCKED),
        Message::SessionLockEvent(SessionLockEvent::NotSupported) => Some(EXIT_NO_LOCK),
        _ => None,
    }
}

impl Model {
    /// Whether the registry is in order.
    pub open spec fn wf(self) -> bool {
        self.registry.wf()
    }

    /// The machine before the first message: unlocked, no output known.
    pub open spec fn initial() -> Model {
        Model { state: SessionState::Unlocked, registry: RegistryView::empty() }
    }

    /// Whether a handle is left for the output that `message` may bring.
    pub open spec fn accepts(self, message: Message) -> bool {
        message matches Message::OutputEvent(OutputEvent::Created, output)
            ==> self.registry.surfaces.contains_key(output) || self.registry.handed_out < u64::MAX
    }

    /// Whether `message` is the confirmation that takes the session into
    /// `Locked`.
    pub open spec fn locks(self, message: Message) -> bool {
        message == Message::SessionLockEvent(SessionLockEvent::Locked) && self.state
            != SessionState::Locked
    }

    /// The machine after `message`. An output event reaches the registry and
    /// nothing else. A confirmed lock makes the session `Locked`, a confirmed
    /// unlock `Unlocked`; a lock that the compositor declares finished counts
    /// as a confirmed unlock. Requests, focus changes, ticks and a compositor
    /// without a session lock leave the machine as it is.
    pub open spec fn step(self, message: Message) -> Model {
        match message {
            Message::OutputEvent(OutputEvent::Created, output) => Model {
                registry: self.registry.register(output),
                ..self
            },
            Message::OutputEvent(OutputEvent::Removed, output) => Model {
                registry: self.registry.unregister(output),
                ..self
            },
            Message::SessionLockEvent(SessionLockEvent::Locked) => Model {
                state: SessionState::Locked,
                ..self
            },
            Message::SessionLockEvent(SessionLockEvent::Unlocked) => Model {
                state: SessionState::Unlocked,
                ..self
            },
            Message::SessionLockEvent(SessionLockEvent::Finished) => Model {
                state: SessionState::Unlocked,
                ..self
            },
            _ => self,
        }
    }

    /// The commands that `message` sets off, for every message but the
    /// confirmation that locks the session: at most one, so their order is
    /// settled. An output that goes away while the session is locked has its
    /// surface destroyed. An unlock request goes to the compositor in every
    /// state. A confirmed unlock, and a finished lock with it, ends the
    /// process with [`EXIT_UNLOCKED`]; a compositor without a session lock
    /// ends it with [`EXIT_NO_LOCK`], since nothing can be locked there. A
    /// confirmation that finds the session locked already asks for nothing:
    /// the first one asked for every cover surface.
    pub open spec fn replies(self, message: Message) -> Seq<Command> {
        match message {
            Message::OutputEvent(OutputEvent::Removed, output) => {
                if self.state == SessionState::Locked && self.registry.surfaces.contains_key(
                    output,
                ) {
                    seq![Command::DestroySurface(self.registry.surfaces[output])]
                } else {
                    Seq::empty()
                }
            },
            Message::SessionLockEvent(SessionLockEvent::Unlocked) => seq![
                Command::Terminate(EXIT_UNLOCKED),
            ],
            Message::SessionLockEvent(SessionLockEvent::Finished) => seq![
                Command::Terminate(EXIT_UNLOCKED),
            ],
            Message::SessionLockEvent(SessionLockEvent::NotSupported) => seq![
                Command::Terminate(EXIT_NO_LOCK),
            ],
            Message::Unlock => seq![Command::RequestUnlock],
            _ => Seq::empty(),
        }
    }

    /// The commands that `message` sets off. The confirmation that locks the
    /// session asks for a cover surface on every registered output, in no
    /// particular order.
    pub open spec fn commands(self, message: Message) -> Set<Command> {
        if self.locks(message) {
            cover_requests(self.registry)
        } else {
            self.replies(message).to_set()
        }
    }

    /// Whether `issued` are the commands that `message` sets off: each once,
    /// and in their order where that is settled.
    pub open spec fn issues(self, message: Message, issued: Seq<Command>) -> bool {
        if self.locks(message) {
            covers(issued, self.registry)
        } else {
            issued == self.replies(message)
        }
    }

    /// What `message` gives to log.
    pub open spec fn warning(self, message: Message) -> Option<Warning> {
        match message {
            Message::OutputEvent(OutputEvent::Created, output) => {
                if self.registry.surfaces.contains_key(output) {
                    Some(Warning::OutputAlreadyRegistered(output, self.registry.surfaces[output]))
                } else {
                    None
                }
            },
            Message::OutputEvent(OutputEvent::Removed, output) => {
                if self.registry.surfaces.contains_key(output) {
                    None
                } else {
                    Some(Warning::OutputNotRegistered(output))
                }
            },
            Message::SessionLockEvent(SessionLockEvent::Locked) => {
                if self.state == SessionState::Locked {
                    Some(Warning::AlreadyLocked)
                } else {
                    None
                }
            },
            Message::SessionLockEvent(SessionLockEvent::Finished) => Some(Warning::LockFinished),
            Message::SessionLockEvent(SessionLockEvent::NotSupported) => Some(
                Warning::LockNotSupported,
            ),
            _ => None,
        }
    }

    /// The machine after all of `messages`, taken in order.
    pub open spec fn run(self, messages: Seq<Message>) -> Model
        decreases messages.len(),
    {
        if messages.len() == 0 {
            self
        } else {
            self.run(messages.drop_last()).step(messages.last())
        }
    }

    /// What is issued for a message holds each of its commands once, and holds
    /// no other command.
    pub proof fn lemma_issues(self, message: Message, issued: Seq<Command>)
        requires
            self.issues(message, issued),
        ensures
            issued.no_duplicates(),
            issued.to_set() == self.commands(message),
    {
        if self.locks(message) {
            assert forall|command: Command|
                issued.to_set().contains(command) <==> cover_requests(self.registry).contains(
                    command,
                ) by {
                if cover_requests(self.registry).contains(command) {
                    assert(issued.contains(
                        Command::CreateSurface(command->CreateSurface_0, command->CreateSurface_1),
                    ));
                }
            }
            assert(issued.to_set() =~= cover_requests(self.registry));
        } else {
            assert(issued.len() <= 1);
        }
    }

    /// A command is among those of a message that does not lock the session
    /// exactly when it is the message's one reply.
    pub proof fn lemma_reply(self, message: Message, command: Command)
        requires
            !self.locks(message),
        ensures
            self.commands(message).contains(command) <==> self.replies(message) == seq![command],
    {
        let replies = self.replies(message);
        if replies.len() == 1 {
            assert(replies =~= seq![replies[0]]);
            assert(replies.contains(replies[0]));
        }
        if replies == seq![command] {
            assert(replies[0] == command);
        }
    }
}

} // verus!
