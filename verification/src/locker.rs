//! The lock client: one value that owns the session state and the output
//! registry and takes the messages one at a time.

use crate::clock::ClockValue;
use crate::command::{Command, Outcome, Warning, EXIT_NO_LOCK, EXIT_UNLOCKED};
use crate::lifecycle::{create, destroy, lemma_create_covers};
use crate::machine::{covers, Model, SessionState};
pub use crate::message::Message;
use crate::message::{
    time_subscription, OutputEvent, SessionLockEvent, Subscription, Timer, AUTO_UNLOCK_SECS,
    CLOCK_SECS,
};
use crate::registry::{Output, OutputRegistry, SurfaceId};
use vstd::prelude::*;

verus! {

/// How the client is set up.
#[derive(Clone, Copy, Debug, PartialEq, Eq, Structural)]
pub struct Flags {
    /// Unlock by a timer, a few seconds after the start. For trying the
    /// client out only: a client that protects a session leaves it off.
    pub auto_unlock: bool,
}

/// The sources of events that a client with `flags` listens to.
pub open spec fn subscriptions(flags: Flags) -> Seq<Subscription> {
    let events = seq![Subscription::Events];
    let clock = seq![Subscription::Every { secs: CLOCK_SECS, timer: Timer::Clock }];
    if flags.auto_unlock {
        events + seq![Subscription::Every { secs: AUTO_UNLOCK_SECS, timer: Timer::AutoUnlock }]
            + clock
    } else {
        events + clock
    }
}

/// The lock client's state.
pub struct App {
    flags: Flags,
    now: ClockValue,
    surface_ids: OutputRegistry,
    state: SessionState,
}

impl View for App {
    type V = Model;

    closed spec fn view(&self) -> Model {
        Model { state: self.state, registry: self.surface_ids@ }
    }
}

impl App {
    /// The flags the client was made with.
    pub closed spec fn spec_flags(&self) -> Flags {
        self.flags
    }

    /// The clock value on display: the reading that came with the last tick,
    /// or with the start where no tick has come.
    pub closed spec fn spec_now(&self) -> ClockValue {
        self.now
    }

    /// A client that has asked for nothing yet: unlocked, no output known,
    /// showing the clock value `now`.
    pub fn new(flags: Flags, now: ClockValue) -> (app: App)
        ensures
            app@ == Model::initial(),
            app@.wf(),
            app.spec_flags() == flags,
            app.spec_now() == now,
    {
        App { flags, now, surface_ids: OutputRegistry::new(), state: SessionState::Unlocked }
    }

    /// Starts the client: it asks the compositor for the lock and waits for
    /// the confirmation. `now` is the clock's reading at the start.
    pub fn init(flags: Flags, now: ClockValue) -> (started: (App, Vec<Command>))
        ensures
            started.0@ == (Model { state: SessionState::Locking, ..Model::initial() }),
            started.0@.wf(),
            started.0.spec_flags() == flags,
            started.0.spec_now() == now,
            started.1@ == seq![Command::RequestLock],
    {
        let mut app = App::new(flags, now);
        app.state = SessionState::Locking;
        let mut commands: Vec<Command> = Vec::new();
        commands.push(Command::RequestLock);
        (app, commands)
    }

    /// Takes one message: moves to the next state, and says what is to be
    /// done and logged on its account. `now` is the clock's reading: a tick
    /// makes it the clock value, and no other message looks at it. The client
    /// must have a handle left for the output that the message may bring,
    /// which [`App::accepts`] tells.
    pub fn update(&mut self, message: Message, now: ClockValue) -> (outcome: Outcome)
        requires
            old(self)@.accepts(message),
        ensures
            final(self)@ == old(self)@.step(message),
            old(self)@.wf() ==> final(self)@.wf(),
            final(self).spec_flags() == old(self).spec_flags(),
            old(self)@.issues(message, outcome.commands@),
            outcome.commands@.no_duplicates(),
            outcome.commands@.to_set() == old(self)@.commands(message),
            outcome.warning == old(self)@.warning(message),
            final(self).spec_now() == if message == Message::Tick {
                now
            } else {
                old(self).spec_now()
            },
    {
        let mut commands: Vec<Command> = Vec::new();
        let mut warning: Option<Warning> = None;
        match message {
            Message::OutputEvent(output_event, output) => match output_event {
                OutputEvent::Created => {
                    match self.surface_ids.get(output) {
                        Some(surface_id) => {
                            warning = Some(Warning::OutputAlreadyRegistered(output, surface_id));
                        },
                        None => {
                            self.surface_ids.register(output);
                        },
                    }
                },
                OutputEvent::Removed => {
                    match self.surface_ids.unregister(output) {
                        Some(surface_id) => {
                            if self.state == SessionState::Locked {
                                commands.push(destroy(surface_id));
                            }
                        },
                        None => {
                            warning = Some(Warning::OutputNotRegistered(output));
                        },
                    }
                },
                OutputEvent::InfoUpdate => {},
            },
            Message::SessionLockEvent(lock_event) => match lock_event {
                SessionLockEvent::Focused(_) => {},
                SessionLockEvent::Locked => {
                    if self.state == SessionState::Locked {
                        warning = Some(Warning::AlreadyLocked);
                    } else {
                        self.state = SessionState::Locked;
                        let outputs = self.surface_ids.iter();
                        commands = create(&outputs);
                        proof {
                            lemma_create_covers(outputs@, self.surface_ids@);
                        }
                        assert(covers(commands@, self.surface_ids@));
                    }
                },
                SessionLockEvent::Unlocked => {
                    self.state = SessionState::Unlocked;
                    commands.push(Command::Terminate(EXIT_UNLOCKED));
                },
                SessionLockEvent::Finished => {
                    warning = Some(Warning::LockFinished);
                    self.state = SessionState::Unlocked;
                    commands.push(Command::Terminate(EXIT_UNLOCKED));
                },
                SessionLockEvent::NotSupported => {
                    warning = Some(Warning::LockNotSupported);
                    commands.push(Command::Terminate(EXIT_NO_LOCK));
                },
                SessionLockEvent::Unfocused(_) => {},
            },
            Message::Nothing => {},
            Message::Unlock => {
                commands.push(Command::RequestUnlock);
            },
            Message::Tick => {
                self.now = now;
            },
        }
        proof {
            if !old(self)@.locks(message) {
                assert(commands@ =~= old(self)@.replies(message));
            }
            old(self)@.lemma_issues(message, commands@);
        }
        Outcome { commands, warning }
    }

    /// Whether the client can take `message`. It cannot where the message
    /// brings a new output and the surface handles have run out.
    pub fn accepts(&self, message: &Message) -> (ok: bool)
        ensures
            ok == self@.accepts(*message),
    {
        match message {
            Message::OutputEvent(OutputEvent::Created, output) => {
                self.surface_ids.get(*output).is_some() || self.surface_ids.has_room()
            },
            _ => true,
        }
    }

    /// The sources of events that this client listens to: the compositor's
    /// events, the clock's tick, and, where the flags ask for it, the timer
    /// that unlocks by itself.
    pub fn subscription(&self) -> (sources: Vec<Subscription>)
        ensures
            sources@ == subscriptions(self.spec_flags()),
    {
        let mut sources: Vec<Subscription> = Vec::with_capacity(3);
        sources.push(Subscription::Events);
        if self.flags.auto_unlock {
            sources.push(time_subscription(AUTO_UNLOCK_SECS, Timer::AutoUnlock));
        }
        sources.push(time_subscription(CLOCK_SECS, Timer::Clock));
        assert(sources@ =~= subscriptions(self.spec_flags()));
        sources
    }

    /// Where the session stands.
    pub fn state(&self) -> (state: SessionState)
        ensures
            state == self@.state,
    {
        self.state
    }

    /// The flags the client was made with.
    pub fn flags(&self) -> (flags: Flags)
        ensures
            flags == self.spec_flags(),
    {
        self.flags
    }

    /// The clock value on display: the reading that came with the last tick,
    /// or with the start where no tick has come.
    pub fn now(&self) -> (now: ClockValue)
        ensures
            now == self.spec_now(),
    {
        self.now
    }

    /// The cover surface of `output`, if the output is registered.
    pub fn surface_id(&self, output: Output) -> (found: Option<SurfaceId>)
        ensures
            found == if self@.registry.surfaces.contains_key(output) {
                Some(self@.registry.surfaces[output])
            } else {
                None::<SurfaceId>
            },
    {
        self.surface_ids.get(output)
    }

    /// The registered outputs with their cover surfaces, each pair once, in
    /// no particular order.
    pub fn surfaces(&self) -> (entries: Vec<(Output, SurfaceId)>)
        ensures
            self@.registry.listed_by(entries@),
    {
        self.surface_ids.iter()
    }
}

} // verus!
