//! The surface lifecycle: the requests that put cover surfaces on outputs and
//! take them away. It keeps no state; what it needs is handed to it.

use crate::command::Command;
use crate::machine::{cover_requests, covers};
use crate::registry::{Output, RegistryView, SurfaceId};
use vstd::prelude::*;

verus! {

/// The request that covers the output of `entry` with the surface of `entry`.
pub open spec fn cover_request(entry: (Output, SurfaceId)) -> Command {
    Command::CreateSurface(entry.1, entry.0)
}

/// The requests that cover `outputs`: one for each entry, in their order.
pub open spec fn cover_requests_for(outputs: Seq<(Output, SurfaceId)>) -> Seq<Command> {
    outputs.map_values(|entry: (Output, SurfaceId)| cover_request(entry))
}

/// One create request for each entry of `outputs`, in their order.
pub fn create(outputs: &Vec<(Output, SurfaceId)>) -> (commands: Vec<Command>)
    ensures
        commands@ == cover_requests_for(outputs@),
{
    let mut commands: Vec<Command> = Vec::with_capacity(outputs.len());
    let mut i: usize = 0;
    while i < outputs.len()
        invariant
            i <= outputs.len(),
            commands@.len() == i,
            forall|j: int| 0 <= j < i ==> commands@[j] == cover_request(outputs@[j]),
        decreases outputs.len() - i,
    {
        let (output, surface_id) = outputs[i];
        commands.push(Command::CreateSurface(surface_id, output));
        i = i + 1;
    }
    assert(commands@ =~= cover_requests_for(outputs@));
    commands
}

/// The request that takes exactly the surface `surface_id` away.
pub fn destroy(surface_id: SurfaceId) -> (command: Command)
    ensures
        command == Command::DestroySurface(surface_id),
{
    Command::DestroySurface(surface_id)
}

/// Requests made from all entries of a registry, each entry once, cover the
/// registry's outputs.
pub proof fn lemma_create_covers(entries: Seq<(Output, SurfaceId)>, registry: RegistryView)
    requires
        registry.listed_by(entries),
    ensures
        covers(cover_requests_for(entries), registry),
{
    let requests = cover_requests_for(entries);
    assert forall|i: int, j: int|
        0 <= i < requests.len() && 0 <= j < requests.len() && i != j implies requests[i]
        != requests[j] by {
        assert(entries[i] != entries[j]);
    }
    assert forall|i: int| 0 <= i < requests.len() implies cover_requests(registry).contains(
        #[trigger] requests[i],
    ) by {
        assert(registry.surfaces.contains_pair(entries[i].0, entries[i].1));
    }
    assert forall|output: Output, id: SurfaceId|
        registry.surfaces.contains_pair(output, id) implies #[trigger] requests.contains(
        Command::CreateSurface(id, output),
    ) by {
        assert(entries.contains((output, id)));
        let i = choose|i: int| 0 <= i < entries.len() && entries[i] == (output, id);
        assert(requests[i] == cover_request((output, id)));
    }
}

} // verus!
