use zero_lock::clock::ClockValue;
use zero_lock::command::{Command, Outcome, Warning, EXIT_NO_LOCK, EXIT_UNLOCKED};
use zero_lock::locker::{App, Flags};
use zero_lock::machine::SessionState;
use zero_lock::message::{Message, OutputEvent, SessionLockEvent};
use zero_lock::registry::{Output, SurfaceId};

const A: Output = Output(11);
const B: Output = Output(12);
const C: Output = Output(13);
const START: ClockValue = ClockValue { secs: 1_700_000_000, nanos: 0, offset: 3_600 };
const LATER: ClockValue = ClockValue { secs: 1_700_000_060, nanos: 9, offset: 3_600 };

fn flags() -> Flags {
    Flags { auto_unlock: false }
}

fn created(output: Output) -> Message {
    Message::OutputEvent(OutputEvent::Created, output)
}

fn removed(output: Output) -> Message {
    Message::OutputEvent(OutputEvent::Removed, output)
}

fn lock_event(event: SessionLockEvent) -> Message {
    Message::SessionLockEvent(event)
}

fn send(app: &mut App, message: Message) -> Outcome {
    assert!(app.accepts(&message));
    app.update(message, LATER)
}

fn sorted(mut entries: Vec<(Output, SurfaceId)>) -> Vec<(Output, SurfaceId)> {
    entries.sort_by_key(|entry| (entry.0).0);
    entries
}

fn locked_with_a_and_b() -> (App, SurfaceId, SurfaceId) {
    let mut app = App::new(flags(), START);
    send(&mut app, created(A));
    send(&mut app, created(B));
    send(&mut app, lock_event(SessionLockEvent::Locked));
    let a = app.surface_id(A).unwrap();
    let b = app.surface_id(B).unwrap();
    (app, a, b)
}

#[test]
fn new_client_is_unlocked_and_knows_no_output() {
    let app = App::new(flags(), START);
    assert_eq!(app.state(), SessionState::Unlocked);
    assert_eq!(app.surfaces(), vec![]);
    assert_eq!(app.flags(), flags());
}

#[test]
fn init_requests_the_lock_and_waits() {
    let (app, commands) = App::init(Flags { auto_unlock: true }, START);
    assert_eq!(commands, vec![Command::RequestLock]);
    assert_eq!(app.now(), START);
    assert_eq!(app.state(), SessionState::Locking);
    assert_eq!(app.surfaces(), vec![]);
    assert_eq!(app.flags(), Flags { auto_unlock: true });
}

#[test]
fn lock_confirmation_covers_both_outputs() {
    let mut app = App::new(flags(), START);
    assert_eq!(app.state(), SessionState::Unlocked);

    let first = send(&mut app, created(A));
    assert_eq!(first, Outcome { commands: vec![], warning: None });
    let second = send(&mut app, created(B));
    assert_eq!(second, Outcome { commands: vec![], warning: None });
    assert_eq!(app.state(), SessionState::Unlocked);

    let a = app.surface_id(A).unwrap();
    let b = app.surface_id(B).unwrap();
    assert_ne!(a, b);

    let outcome = send(&mut app, lock_event(SessionLockEvent::Locked));
    assert_eq!(outcome.warning, None);
    assert_eq!(outcome.commands.len(), 2);
    assert!(outcome.commands.contains(&Command::CreateSurface(a, A)));
    assert!(outcome.commands.contains(&Command::CreateSurface(b, B)));
    assert_eq!(app.state(), SessionState::Locked);
    assert_eq!(sorted(app.surfaces()), vec![(A, a), (B, b)]);
}

#[test]
fn lock_confirmation_after_init_covers_the_outputs() {
    let (mut app, _) = App::init(flags(), START);
    send(&mut app, created(A));
    let a = app.surface_id(A).unwrap();
    let outcome = send(&mut app, lock_event(SessionLockEvent::Locked));
    assert_eq!(outcome, Outcome { commands: vec![Command::CreateSurface(a, A)], warning: None });
    assert_eq!(app.state(), SessionState::Locked);
}

#[test]
fn lock_confirmation_without_outputs_asks_for_nothing() {
    let (mut app, _) = App::init(flags(), START);
    let outcome = send(&mut app, lock_event(SessionLockEvent::Locked));
    assert_eq!(outcome, Outcome { commands: vec![], warning: None });
    assert_eq!(app.state(), SessionState::Locked);
}

#[test]
fn removal_while_locked_destroys_that_surface() {
    let (mut app, a, b) = locked_with_a_and_b();
    let outcome = send(&mut app, removed(A));
    assert_eq!(outcome, Outcome { commands: vec![Command::DestroySurface(a)], warning: None });
    assert_eq!(app.surfaces(), vec![(B, b)]);
    assert_eq!(app.surface_id(A), None);
    assert_eq!(app.surface_id(B), Some(b));
    assert_eq!(app.state(), SessionState::Locked);
}

#[test]
fn confirmed_unlock_while_locked_ends_the_process() {
    let (mut app, a, b) = locked_with_a_and_b();
    let outcome = send(&mut app, lock_event(SessionLockEvent::Unlocked));
    assert_eq!(outcome, Outcome { commands: vec![Command::Terminate(0)], warning: None });
    assert_eq!(EXIT_UNLOCKED, 0);
    assert_eq!(app.state(), SessionState::Unlocked);
    assert_eq!(sorted(app.surfaces()), vec![(A, a), (B, b)]);
}

#[test]
fn confirmed_unlock_ends_the_process_from_every_state() {
    let mut unlocked = App::new(flags(), START);
    let (mut locking, _) = App::init(flags(), START);
    let (mut locked, _, _) = locked_with_a_and_b();
    for app in [&mut unlocked, &mut locking, &mut locked] {
        let outcome = send(app, lock_event(SessionLockEvent::Unlocked));
        assert_eq!(outcome, Outcome { commands: vec![Command::Terminate(0)], warning: None });
        assert_eq!(app.state(), SessionState::Unlocked);
    }
}

#[test]
fn removal_of_unknown_output_only_warns() {
    let (mut app, a, b) = locked_with_a_and_b();
    let outcome = send(&mut app, removed(C));
    assert_eq!(
        outcome,
        Outcome { commands: vec![], warning: Some(Warning::OutputNotRegistered(C)) }
    );
    assert_eq!(app.state(), SessionState::Locked);
    assert_eq!(sorted(app.surfaces()), vec![(A, a), (B, b)]);

    let mut fresh = App::new(flags(), START);
    let outcome = send(&mut fresh, removed(A));
    assert_eq!(
        outcome,
        Outcome { commands: vec![], warning: Some(Warning::OutputNotRegistered(A)) }
    );
    assert_eq!(fresh.state(), SessionState::Unlocked);
    assert_eq!(fresh.surfaces(), vec![]);
}

#[test]
fn repeated_creation_keeps_the_first_surface() {
    let mut app = App::new(flags(), START);
    send(&mut app, created(A));
    let a = app.surface_id(A).unwrap();
    let outcome = send(&mut app, created(A));
    assert_eq!(
        outcome,
        Outcome { commands: vec![], warning: Some(Warning::OutputAlreadyRegistered(A, a)) }
    );
    assert_eq!(app.surfaces(), vec![(A, a)]);
    assert_eq!(app.state(), SessionState::Unlocked);

    // The repeated creation used no handle up: the next output gets the next one.
    send(&mut app, created(B));
    assert_eq!(app.surface_id(B), Some(SurfaceId(a.0 + 1)));
}

#[test]
fn registry_follows_creations_and_removals() {
    let mut app = App::new(flags(), START);
    let run = [
        created(A),
        created(B),
        removed(A),
        created(C),
        removed(C),
        created(C),
        removed(B),
        created(A),
        Message::OutputEvent(OutputEvent::InfoUpdate, B),
    ];
    let mut handed_out: Vec<SurfaceId> = vec![];
    for message in run {
        let outcome = send(&mut app, message);
        assert_eq!(outcome.commands, vec![]);
        for (_, id) in app.surfaces() {
            if !handed_out.contains(&id) {
                handed_out.push(id);
            }
        }
    }
    // Created and not removed afterwards: A and C.
    let left = sorted(app.surfaces());
    assert_eq!(left.len(), 2);
    assert_eq!(left[0].0, A);
    assert_eq!(left[1].0, C);
    assert_ne!(left[0].1, left[1].1);
    assert_eq!(app.surface_id(B), None);
    // Five creations of an unregistered output: five handles, none twice.
    assert_eq!(handed_out.len(), 5);
    assert_eq!(
        handed_out,
        vec![SurfaceId(0), SurfaceId(1), SurfaceId(2), SurfaceId(3), SurfaceId(4)]
    );
    assert_eq!(left, vec![(A, SurfaceId(4)), (C, SurfaceId(3))]);
}

#[test]
fn cover_surface_is_requested_exactly_once() {
    let mut app = App::new(flags(), START);
    let run = [
        created(A),
        Message::Tick,
        created(B),
        Message::Unlock,
        lock_event(SessionLockEvent::Locked),
        lock_event(SessionLockEvent::Focused(SurfaceId(0))),
        created(C),
        lock_event(SessionLockEvent::Locked),
        removed(B),
        Message::Tick,
        lock_event(SessionLockEvent::Locked),
    ];
    let mut issued: Vec<Command> = vec![];
    for message in run {
        issued.extend(send(&mut app, message).commands);
    }
    assert_eq!(app.state(), SessionState::Locked);
    let creates = |output: Output| {
        issued
            .iter()
            .filter(|command| matches!(command, Command::CreateSurface(_, o) if *o == output))
            .count()
    };
    assert_eq!(creates(A), 1);
    assert_eq!(creates(B), 1);
    // C came after the confirmation: no request is made for it.
    assert_eq!(creates(C), 0);
    assert!(issued.contains(&Command::CreateSurface(SurfaceId(0), A)));
    assert!(issued.contains(&Command::CreateSurface(SurfaceId(1), B)));
}

#[test]
fn repeated_lock_confirmation_only_warns() {
    let (mut app, a, b) = locked_with_a_and_b();
    let outcome = send(&mut app, lock_event(SessionLockEvent::Locked));
    assert_eq!(outcome, Outcome { commands: vec![], warning: Some(Warning::AlreadyLocked) });
    assert_eq!(app.state(), SessionState::Locked);
    assert_eq!(sorted(app.surfaces()), vec![(A, a), (B, b)]);
}

#[test]
fn removal_destroys_only_while_locked() {
    let mut unlocked = App::new(flags(), START);
    send(&mut unlocked, created(A));
    let outcome = send(&mut unlocked, removed(A));
    assert_eq!(outcome, Outcome { commands: vec![], warning: None });
    assert_eq!(unlocked.surfaces(), vec![]);

    let (mut locking, _) = App::init(flags(), START);
    send(&mut locking, created(A));
    let outcome = send(&mut locking, removed(A));
    assert_eq!(outcome, Outcome { commands: vec![], warning: None });
    assert_eq!(locking.surfaces(), vec![]);
    assert_eq!(locking.state(), SessionState::Locking);

    let (mut locked, _, b) = locked_with_a_and_b();
    let outcome = send(&mut locked, removed(B));
    assert_eq!(outcome, Outcome { commands: vec![Command::DestroySurface(b)], warning: None });
}

#[test]
fn output_created_while_locked_is_registered_without_a_request() {
    let (mut app, a, b) = locked_with_a_and_b();
    let outcome = send(&mut app, created(C));
    assert_eq!(outcome, Outcome { commands: vec![], warning: None });
    let c = app.surface_id(C).unwrap();
    assert_ne!(c, a);
    assert_ne!(c, b);
    assert_eq!(app.state(), SessionState::Locked);
    // Its removal while locked asks for the destruction of its surface.
    let outcome = send(&mut app, removed(C));
    assert_eq!(outcome, Outcome { commands: vec![Command::DestroySurface(c)], warning: None });
}

#[test]
fn unlock_request_is_forwarded_in_every_state() {
    let mut unlocked = App::new(flags(), START);
    let (mut locking, _) = App::init(flags(), START);
    let (mut locked, _, _) = locked_with_a_and_b();
    for (app, state) in [
        (&mut unlocked, SessionState::Unlocked),
        (&mut locking, SessionState::Locking),
        (&mut locked, SessionState::Locked),
    ] {
        let outcome = send(app, Message::Unlock);
        assert_eq!(outcome, Outcome { commands: vec![Command::RequestUnlock], warning: None });
        assert_eq!(app.state(), state);
    }
}

#[test]
fn finished_lock_ends_the_process_like_an_unlock() {
    let (mut app, _, _) = locked_with_a_and_b();
    let outcome = send(&mut app, lock_event(SessionLockEvent::Finished));
    assert_eq!(
        outcome,
        Outcome { commands: vec![Command::Terminate(0)], warning: Some(Warning::LockFinished) }
    );
    assert_eq!(app.state(), SessionState::Unlocked);
}

#[test]
fn unsupported_lock_ends_the_process_with_a_failure() {
    let (mut app, _) = App::init(flags(), START);
    let outcome = send(&mut app, lock_event(SessionLockEvent::NotSupported));
    assert_eq!(
        outcome,
        Outcome { commands: vec![Command::Terminate(1)], warning: Some(Warning::LockNotSupported) }
    );
    assert_eq!(EXIT_NO_LOCK, 1);
    assert_eq!(app.state(), SessionState::Locking);
}

#[test]
fn informational_messages_change_nothing() {
    let (mut app, a, b) = locked_with_a_and_b();
    for message in [
        Message::Nothing,
        lock_event(SessionLockEvent::Focused(a)),
        lock_event(SessionLockEvent::Unfocused(a)),
        Message::OutputEvent(OutputEvent::InfoUpdate, A),
        Message::OutputEvent(OutputEvent::InfoUpdate, C),
    ] {
        let outcome = send(&mut app, message);
        assert_eq!(outcome, Outcome { commands: vec![], warning: None });
        assert_eq!(app.state(), SessionState::Locked);
        assert_eq!(sorted(app.surfaces()), vec![(A, a), (B, b)]);
    }
}

#[test]
fn tick_refreshes_the_clock_and_nothing_else() {
    let (mut app, a, b) = locked_with_a_and_b();
    assert_eq!(app.now(), START);
    let outcome = send(&mut app, Message::Unlock);
    assert_eq!(outcome.commands, vec![Command::RequestUnlock]);
    assert_eq!(app.now(), START);

    let outcome = send(&mut app, Message::Tick);
    assert_eq!(outcome, Outcome { commands: vec![], warning: None });
    assert_eq!(app.state(), SessionState::Locked);
    assert_eq!(sorted(app.surfaces()), vec![(A, a), (B, b)]);
    assert_eq!(app.now(), LATER);
}
