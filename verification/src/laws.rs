//! What holds of the lock state machine over whole runs of messages.

use crate::command::{Command, Warning};
use crate::machine::{cover_requests, exit_status, Model, SessionState};
use crate::message::{Message, OutputEvent, SessionLockEvent};
use crate::registry::{Output, RegistryView, SurfaceId};
use vstd::prelude::*;

verus! {

/// The machine as it is when it takes `messages[i]`.
pub open spec fn before(start: Model, messages: Seq<Message>, i: int) -> Model {
    start.run(messages.take(i))
}

/// The commands that `messages[i]` sets off in a run from `start`.
pub open spec fn issued_at(start: Model, messages: Seq<Message>, i: int) -> Set<Command> {
    before(start, messages, i).commands(messages[i])
}

/// Whether the machine could take every message of the run: whenever a new
/// output came, a handle was left for it.
pub open spec fn accepted(start: Model, messages: Seq<Message>) -> bool {
    forall|i: int|
        0 <= i < messages.len() ==> (#[trigger] before(start, messages, i)).accepts(messages[i])
}

/// The message by which the compositor confirms the lock.
pub open spec fn confirmation() -> Message {
    Message::SessionLockEvent(SessionLockEvent::Locked)
}

/// Whether `output` was created and not removed afterwards: its creation is
/// among `messages` with no removal behind it, or it was in `registry` from
/// the start and no removal came at all.
pub open spec fn connected_after(
    registry: RegistryView,
    messages: Seq<Message>,
    output: Output,
) -> bool {
    let created = Message::OutputEvent(OutputEvent::Created, output);
    let removed = Message::OutputEvent(OutputEvent::Removed, output);
    ||| exists|i: int|
        0 <= i < messages.len() && #[trigger] messages[i] == created && forall|j: int|
            i < j < messages.len() ==> #[trigger] messages[j] != removed
    ||| registry.surfaces.contains_key(output) && forall|j: int|
        0 <= j < messages.len() ==> #[trigger] messages[j] != removed
}

/// One step keeps the registry in order and hands out at most one handle.
pub proof fn lemma_step_wf(model: Model, message: Message)
    requires
        model.wf(),
        model.accepts(message),
    ensures
        model.step(message).wf(),
        model.registry.handed_out <= model.step(message).registry.handed_out,
        model.step(message).registry.handed_out <= model.registry.handed_out + 1,
{
}

/// A run is its steps, one after the other.
pub proof fn lemma_run_step(start: Model, messages: Seq<Message>, i: int)
    requires
        0 <= i < messages.len(),
    ensures
        before(start, messages, i + 1) == before(start, messages, i).step(messages[i]),
        before(start, messages, messages.len() as int) == start.run(messages),
{
    assert(messages.take(i + 1).drop_last() =~= messages.take(i));
    assert(messages.take(i + 1).last() == messages[i]);
    assert(messages.take(messages.len() as int) =~= messages);
}

/// A run that was accepted was accepted up to each of its messages.
pub proof fn lemma_accepted_prefix(start: Model, messages: Seq<Message>, n: int)
    requires
        accepted(start, messages),
        0 <= n <= messages.len(),
    ensures
        accepted(start, messages.take(n)),
{
    let prefix = messages.take(n);
    assert forall|i: int| 0 <= i < prefix.len() implies (#[trigger] before(
        start,
        prefix,
        i,
    )).accepts(prefix[i]) by {
        assert(prefix.take(i) =~= messages.take(i));
        assert(before(start, messages, i).accepts(messages[i]));
    }
}

/// The machine takes every message but one that brings a new output when all
/// handles are handed out: nothing else is asked of a message.
pub proof fn law_only_a_new_output_needs_a_handle(model: Model, message: Message)
    ensures
        model.accepts(message) <==> !(hands_out(model, message) && model.registry.handed_out
            >= u64::MAX),
{
}

/// A run that fits the handles that are left is a run that the machine could
/// take: each message hands out one handle at most.
pub proof fn law_room_suffices(start: Model, messages: Seq<Message>)
    requires
        start.wf(),
        start.registry.handed_out + messages.len() <= u64::MAX,
    ensures
        accepted(start, messages),
        start.run(messages).wf(),
        start.run(messages).registry.handed_out <= start.registry.handed_out + messages.len(),
    decreases messages.len(),
{
    if messages.len() == 0 {
        assert(messages.take(0) =~= messages);
    } else {
        let n = messages.len() - 1;
        let earlier = messages.drop_last();
        law_room_suffices(start, earlier);
        assert(earlier =~= messages.take(n));
        lemma_run_step(start, messages, n);
        lemma_step_wf(before(start, messages, n), messages[n]);
        assert forall|i: int| 0 <= i < messages.len() implies (#[trigger] before(
            start,
            messages,
            i,
        )).accepts(messages[i]) by {
            if i < n {
                assert(earlier.take(i) =~= messages.take(i));
                assert(before(start, earlier, i).accepts(earlier[i]));
            }
        }
    }
}

/// After any run of output creations and removals, mixed with whatever other
/// messages, the registry holds exactly the outputs that were created and not
/// removed afterwards, and no two of them share a surface handle. This is
/// said of the runs that the machine could take.
pub proof fn law_registry_holds_connected_outputs(start: Model, messages: Seq<Message>)
    requires
        start.wf(),
        accepted(start, messages),
    ensures
        start.run(messages).wf(),
        start.run(messages).registry.surfaces.is_injective(),
        forall|output: Output|
            start.run(messages).registry.surfaces.contains_key(output) <==> connected_after(
                start.registry,
                messages,
                output,
            ),
    decreases messages.len(),
{
    if messages.len() > 0 {
        let earlier = messages.drop_last();
        let last = messages.last();
        let model = start.run(earlier);
        assert(earlier =~= messages.take(earlier.len() as int));
        lemma_accepted_prefix(start, messages, earlier.len() as int);
        law_registry_holds_connected_outputs(start, earlier);
        assert(before(start, messages, earlier.len() as int).accepts(last));
        lemma_step_wf(model, last);
        assert forall|output: Output|
            model.step(last).registry.surfaces.contains_key(output) <==> connected_after(
                start.registry,
                messages,
                output,
            ) by {
            let created = Message::OutputEvent(OutputEvent::Created, output);
            let removed = Message::OutputEvent(OutputEvent::Removed, output);
            let n = earlier.len() as int;
            assert(messages[n] == last);
            assert(forall|j: int| 0 <= j < n ==> earlier[j] == messages[j]);
            if connected_after(start.registry, earlier, output) && last != removed {
                if exists|i: int|
                    0 <= i < earlier.len() && #[trigger] earlier[i] == created && forall|j: int|
                        i < j < earlier.len() ==> #[trigger] earlier[j] != removed {
                    let i = choose|i: int|
                        0 <= i < earlier.len() && #[trigger] earlier[i] == created && forall|
                            j: int,
                        |
                            i < j < earlier.len() ==> #[trigger] earlier[j] != removed;
                    assert(messages[i] == created);
                    assert forall|j: int| i < j < messages.len() implies #[trigger] messages[j]
                        != removed by {
                        if j < n {
                            assert(earlier[j] != removed);
                        }
                    }
                } else {
                    assert forall|j: int| 0 <= j < messages.len() implies #[trigger] messages[j]
                        != removed by {
                        if j < n {
                            assert(earlier[j] != removed);
                        }
                    }
                }
            }
            if connected_after(start.registry, messages, output) && last != created {
                if exists|i: int|
                    0 <= i < messages.len() && #[trigger] messages[i] == created && forall|
                        j: int,
                    |
                        i < j < messages.len() ==> #[trigger] messages[j] != removed {
                    let i = choose|i: int|
                        0 <= i < messages.len() && #[trigger] messages[i] == created && forall|
                            j: int,
                        |
                            i < j < messages.len() ==> #[trigger] messages[j] != removed;
                    assert(i < n);
                    assert(earlier[i] == created);
                    assert forall|j: int| i < j < earlier.len() implies #[trigger] earlier[j]
                        != removed by {
                        assert(messages[j] != removed);
                    }
                } else {
                    assert forall|j: int| 0 <= j < earlier.len() implies #[trigger] earlier[j]
                        != removed by {
                        assert(messages[j] != removed);
                    }
                }
            }
            if last == created {
                assert(messages[n] == created);
            }
            if last == removed {
                assert(messages[n] == removed);
            }
        }
    }
}

/// Whether `message` brings an output that `model` does not hold, so that a
/// handle is handed out for it.
pub open spec fn hands_out(model: Model, message: Message) -> bool {
    message matches Message::OutputEvent(OutputEvent::Created, output)
        && !model.registry.surfaces.contains_key(output)
}

/// A registry that starts empty and follows any run of output creations and
/// removals, in whatever session state and mixed with whatever other
/// messages, holds in the end exactly the outputs that were created and not
/// removed afterwards, each with a surface handle of its own. This is said of
/// every run that is no longer than there are handles.
pub proof fn law_registry_after_replay(state: SessionState, messages: Seq<Message>)
    requires
        messages.len() <= u64::MAX,
    ensures
        ({
            let start = Model { state, registry: RegistryView::empty() };
            let registry = start.run(messages).registry;
            &&& forall|output: Output|
                registry.surfaces.contains_key(output) <==> exists|i: int|
                    0 <= i < messages.len() && #[trigger] messages[i] == Message::OutputEvent(
                        OutputEvent::Created,
                        output,
                    ) && forall|j: int|
                        i < j < messages.len() ==> #[trigger] messages[j] != Message::OutputEvent(
                            OutputEvent::Removed,
                            output,
                        )
            &&& forall|a: Output, b: Output|
                registry.surfaces.contains_key(a) && registry.surfaces.contains_key(b) && a != b
                    ==> registry.surfaces[a] != registry.surfaces[b]
        }),
{
    let start = Model { state, registry: RegistryView::empty() };
    assert(start.registry.surfaces.dom() =~= Set::<Output>::empty());
    law_room_suffices(start, messages);
    law_registry_holds_connected_outputs(start, messages);
    let registry = start.run(messages).registry;
    assert forall|output: Output|
        registry.surfaces.contains_key(output) <==> exists|i: int|
            0 <= i < messages.len() && #[trigger] messages[i] == Message::OutputEvent(
                OutputEvent::Created,
                output,
            ) && forall|j: int|
                i < j < messages.len() ==> #[trigger] messages[j] != Message::OutputEvent(
                    OutputEvent::Removed,
                    output,
                ) by {
        assert(registry.surfaces.contains_key(output) <==> connected_after(
            start.registry,
            messages,
            output,
        ));
    }
}

/// Along a run the count of handles handed out never falls.
pub proof fn lemma_handed_out_grows(start: Model, messages: Seq<Message>, i: int, j: int)
    requires
        start.wf(),
        accepted(start, messages),
        0 <= i <= j <= messages.len(),
    ensures
        before(start, messages, j).wf(),
        before(start, messages, i).registry.handed_out <= before(
            start,
            messages,
            j,
        ).registry.handed_out,
    decreases j - i,
{
    lemma_accepted_prefix(start, messages, j);
    law_registry_holds_connected_outputs(start, messages.take(j));
    if i < j {
        lemma_handed_out_grows(start, messages, i, j - 1);
        lemma_run_step(start, messages, j - 1);
        assert(before(start, messages, j - 1).accepts(messages[j - 1]));
        lemma_step_wf(before(start, messages, j - 1), messages[j - 1]);
    }
}

/// No surface handle is handed out twice in the life of a process: of two
/// messages of a run that each bring a new output, the later one gets a handle
/// that differs from the earlier one's, whatever was removed in between. This
/// is said of the runs that the machine could take.
pub proof fn law_handles_are_never_reused(start: Model, messages: Seq<Message>, i: int, j: int)
    requires
        start.wf(),
        accepted(start, messages),
        0 <= i < j < messages.len(),
        hands_out(before(start, messages, i), messages[i]),
        hands_out(before(start, messages, j), messages[j]),
    ensures
        before(start, messages, i + 1).registry.surfaces[messages[i]->OutputEvent_1] == before(
            start,
            messages,
            i,
        ).registry.next_id(),
        before(start, messages, j + 1).registry.surfaces[messages[j]->OutputEvent_1] == before(
            start,
            messages,
            j,
        ).registry.next_id(),
        before(start, messages, i).registry.next_id() != before(
            start,
            messages,
            j,
        ).registry.next_id(),
{
    lemma_run_step(start, messages, i);
    lemma_run_step(start, messages, j);
    lemma_handed_out_grows(start, messages, i, i);
    lemma_handed_out_grows(start, messages, i + 1, j);
}

/// Whether `messages` can be what one process took: once a message ends the
/// process, none follows it.
pub open spec fn uninterrupted(messages: Seq<Message>) -> bool {
    forall|j: int| 0 <= j < messages.len() - 1 ==> exit_status(#[trigger] messages[j]) is None
}

/// Until the lock is confirmed, a session that was not locked stays so.
pub proof fn lemma_not_locked_before_confirmation(start: Model, messages: Seq<Message>, i: int)
    requires
        start.state != SessionState::Locked,
        0 <= i <= messages.len(),
        forall|j: int| 0 <= j < i ==> #[trigger] messages[j] != confirmation(),
    ensures
        before(start, messages, i).state != SessionState::Locked,
    decreases i,
{
    if i > 0 {
        lemma_not_locked_before_confirmation(start, messages, i - 1);
        lemma_run_step(start, messages, i - 1);
        assert(messages[i - 1] != confirmation());
    } else {
        assert(messages.take(0) =~= Seq::<Message>::empty());
    }
}

/// While the process lives, a locked session stays locked.
pub proof fn lemma_locked_until_exit(start: Model, messages: Seq<Message>, k: int, i: int)
    requires
        0 <= k < i < messages.len(),
        messages[k] == confirmation(),
        uninterrupted(messages),
    ensures
        before(start, messages, i).state == SessionState::Locked,
    decreases i,
{
    lemma_run_step(start, messages, i - 1);
    if i - 1 > k {
        lemma_locked_until_exit(start, messages, k, i - 1);
        assert(exit_status(messages[i - 1]) is None);
    }
}

/// Whenever the session is locked, each output that was registered when the
/// lock was confirmed has had its cover surface requested exactly once: by the
/// confirmation, and by no message before or after it. This is said of a
/// process that started out not locked and that took no message after one
/// that ended it.
pub proof fn law_cover_requested_once(start: Model, messages: Seq<Message>)
    requires
        start.state != SessionState::Locked,
        uninterrupted(messages),
        start.run(messages).state == SessionState::Locked,
    ensures
        messages.index_of_first(confirmation()) is Some,
        ({
            let k = messages.index_of_first(confirmation())->0;
            let registry = before(start, messages, k).registry;
            &&& 0 <= k < messages.len()
            &&& messages[k] == confirmation()
            &&& issued_at(start, messages, k) == cover_requests(registry)
            &&& forall|output: Output, i: int|
                #![trigger issued_at(start, messages, i), registry.surfaces[output]]
                registry.surfaces.contains_key(output) && 0 <= i < messages.len() ==> (issued_at(
                    start,
                    messages,
                    i,
                ).contains(Command::CreateSurface(registry.surfaces[output], output)) <==> i
                    == k)
        }),
{
    messages.index_of_first_ensures(confirmation());
    if messages.index_of_first(confirmation()) is None {
        assert forall|j: int| 0 <= j < messages.len() implies #[trigger] messages[j]
            != confirmation() by {
            assert(messages.contains(messages[j]));
        }
        lemma_not_locked_before_confirmation(start, messages, messages.len() as int);
        assert(messages.take(messages.len() as int) =~= messages);
    }
    let k = messages.index_of_first(confirmation())->0;
    let registry = before(start, messages, k).registry;
    lemma_not_locked_before_confirmation(start, messages, k);
    assert forall|output: Output, i: int|
        #![trigger issued_at(start, messages, i), registry.surfaces[output]]
        registry.surfaces.contains_key(output) && 0 <= i < messages.len() implies (issued_at(
            start,
            messages,
            i,
        ).contains(Command::CreateSurface(registry.surfaces[output], output)) <==> i == k) by {
        if i < k {
            assert(messages[i] != confirmation());
        } else if i > k {
            lemma_locked_until_exit(start, messages, k, i);
        }
    }
}

/// A request to destroy a surface is issued if and only if the output that
/// the surface belongs to is removed while the session is locked.
pub proof fn law_destroy_iff_removed_while_locked(
    model: Model,
    message: Message,
    surface_id: SurfaceId,
)
    ensures
        model.commands(message).contains(Command::DestroySurface(surface_id)) <==> (
        message matches Message::OutputEvent(OutputEvent::Removed, output) && model.state
            == SessionState::Locked && model.registry.surfaces.contains_pair(output, surface_id)),
{
    if !model.locks(message) {
        model.lemma_reply(message, Command::DestroySurface(surface_id));
    }
}

/// Whatever sequence of commands a message sets off, it holds a request to
/// destroy a surface exactly for the surface of an output that is removed
/// while the session is locked, and it holds one such request at most.
pub proof fn law_destroy_requests_issued(
    model: Model,
    message: Message,
    issued: Seq<Command>,
    surface_id: SurfaceId,
)
    requires
        model.issues(message, issued),
    ensures
        issued.contains(Command::DestroySurface(surface_id)) <==> (
        message matches Message::OutputEvent(OutputEvent::Removed, output) && model.state
            == SessionState::Locked && model.registry.surfaces.contains_pair(output, surface_id)),
        forall|i: int, j: int|
            0 <= i < issued.len() && 0 <= j < issued.len() && issued[i] is DestroySurface
                && issued[j] is DestroySurface ==> i == j,
{
    model.lemma_issues(message, issued);
    law_destroy_iff_removed_while_locked(model, message, surface_id);
    assert(issued.to_set().contains(Command::DestroySurface(surface_id)) <==> issued.contains(
        Command::DestroySurface(surface_id),
    ));
    if model.locks(message) {
        assert forall|i: int| 0 <= i < issued.len() implies !(issued[i] is DestroySurface) by {
            assert(cover_requests(model.registry).contains(issued[i]));
        }
    }
}

/// A confirmed unlock ends the process with status 0, whatever state the
/// machine was in, and asks for nothing else.
pub proof fn law_confirmed_unlock_terminates(model: Model, issued: Seq<Command>)
    requires
        model.issues(Message::SessionLockEvent(SessionLockEvent::Unlocked), issued),
    ensures
        issued == seq![Command::Terminate(0)],
        model.commands(Message::SessionLockEvent(SessionLockEvent::Unlocked)) == set![
            Command::Terminate(0),
        ],
        exit_status(Message::SessionLockEvent(SessionLockEvent::Unlocked)) == Some(0i32),
        model.step(Message::SessionLockEvent(SessionLockEvent::Unlocked)).state
            == SessionState::Unlocked,
        model.step(Message::SessionLockEvent(SessionLockEvent::Unlocked)).registry
            == model.registry,
{
    let unlocked = Message::SessionLockEvent(SessionLockEvent::Unlocked);
    assert forall|command: Command|
        model.commands(unlocked).contains(command) <==> command == Command::Terminate(0) by {
        model.lemma_reply(unlocked, command);
        if command == Command::Terminate(0) {
            assert(model.replies(unlocked) =~= seq![command]);
        }
    }
    assert(model.commands(unlocked) =~= set![Command::Terminate(0)]);
}

/// The process is told to end exactly by the messages that have an exit
/// status, and with that status.
pub proof fn law_process_ends_with_exit_status(model: Model, message: Message, status: i32)
    ensures
        model.commands(message).contains(Command::Terminate(status)) <==> exit_status(message)
            == Some(status),
{
    if !model.locks(message) {
        model.lemma_reply(message, Command::Terminate(status));
        if exit_status(message) == Some(status) {
            assert(model.replies(message) =~= seq![Command::Terminate(status)]);
        }
    }
}

/// Whether `message` is the compositor's word on the lock: a confirmed lock, a
/// confirmed unlock, or a lock declared finished.
pub open spec fn settles_lock(message: Message) -> bool {
    message == Message::SessionLockEvent(SessionLockEvent::Locked) || message
        == Message::SessionLockEvent(SessionLockEvent::Unlocked) || message
        == Message::SessionLockEvent(SessionLockEvent::Finished)
}

/// Whether `message` reports that an output came or went.
pub open spec fn connects_or_disconnects(message: Message) -> bool {
    message matches Message::OutputEvent(event, _) && (event == OutputEvent::Created || event
        == OutputEvent::Removed)
}

/// Only the compositor's word moves the session state, and only an output
/// that comes or goes reaches the registry. Requests, focus changes, ticks
/// and changed output descriptions leave both alone.
pub proof fn law_messages_change_only_their_part(model: Model, message: Message)
    ensures
        !settles_lock(message) ==> model.step(message).state == model.state,
        !connects_or_disconnects(message) ==> model.step(message).registry == model.registry,
{
}

/// The removal of an output that is not registered changes nothing and asks
/// for nothing; it is worth a warning and that is all.
pub proof fn law_unknown_removal_is_ignored(model: Model, output: Output)
    requires
        !model.registry.surfaces.contains_key(output),
    ensures
        model.step(Message::OutputEvent(OutputEvent::Removed, output)) == model,
        model.commands(Message::OutputEvent(OutputEvent::Removed, output)).is_empty(),
        model.warning(Message::OutputEvent(OutputEvent::Removed, output)) == Some(
            Warning::OutputNotRegistered(output),
        ),
{
    assert(model.registry.surfaces.remove(output) =~= model.registry.surfaces);
}

/// The creation of an output that is registered already changes nothing and
/// asks for nothing: the output keeps the surface it has, and no handle is
/// used up. It is worth a warning and that is all.
pub proof fn law_repeated_creation_is_ignored(model: Model, output: Output)
    requires
        model.registry.surfaces.contains_key(output),
    ensures
        model.step(Message::OutputEvent(OutputEvent::Created, output)) == model,
        model.commands(Message::OutputEvent(OutputEvent::Created, output)).is_empty(),
        model.warning(Message::OutputEvent(OutputEvent::Created, output)) == Some(
            Warning::OutputAlreadyRegistered(output, model.registry.surfaces[output]),
        ),
{
}

} // verus!
