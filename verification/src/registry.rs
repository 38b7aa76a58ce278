//! The output registry: the displays that are connected, and the handle of the
//! cover surface that belongs to each.

use std::collections::HashMap;
use vstd::prelude::*;
use vstd::set_lib::lemma_map_size;
use vstd::std_specs::hash::spec_hash_map_iter;
use vstd::std_specs::iter::IteratorSpec;

verus! {

broadcast use vstd::std_specs::hash::group_hash_axioms;

/// One display of the compositor, named by a number. Two values stand for
/// the same display exactly when their numbers agree, so the caller gives
/// every display a number of its own and never gives a number out again,
/// not even after its display is gone.
#[derive(Clone, Copy, Debug, PartialEq, Eq, Structural, Hash)]
pub struct Output(pub u32);

/// The handle of one cover surface. The registry hands each number out once.
#[derive(Clone, Copy, Debug, PartialEq, Eq, Structural, Hash)]
pub struct SurfaceId(pub u64);

/// What a registry holds: the surface of each registered output, and how many
/// handles it has handed out so far.
pub struct RegistryView {
    pub surfaces: Map<Output, SurfaceId>,
    pub handed_out: nat,
}

impl RegistryView {
    /// No handle is in use twice, and every handle in use was handed out.
    pub open spec fn wf(self) -> bool {
        &&& self.surfaces.dom().finite()
        &&& self.handed_out <= u64::MAX
        &&& forall|o: Output| #[trigger]
            self.surfaces.contains_key(o) ==> self.surfaces[o].0 < self.handed_out
        &&& self.surfaces.is_injective()
    }

    /// The registry of a process that has seen no output yet.
    pub open spec fn empty() -> RegistryView {
        RegistryView { surfaces: Map::empty(), handed_out: 0 }
    }

    /// The handle that the next new output gets.
    pub open spec fn next_id(self) -> SurfaceId {
        SurfaceId(self.handed_out as u64)
    }

    /// A known output keeps its surface; a new one gets the next handle.
    pub open spec fn register(self, output: Output) -> RegistryView {
        if self.surfaces.contains_key(output) {
            self
        } else {
            RegistryView {
                surfaces: self.surfaces.insert(output, self.next_id()),
                handed_out: self.handed_out + 1,
            }
        }
    }

    /// Whether `entries` list what is registered: each output with its
    /// surface, each pair once, and nothing else.
    pub open spec fn listed_by(self, entries: Seq<(Output, SurfaceId)>) -> bool {
        &&& entries.len() == self.surfaces.len()
        &&& entries.no_duplicates()
        &&& forall|i: int|
            0 <= i < entries.len() ==> self.surfaces.contains_pair(
                (#[trigger] entries[i]).0,
                entries[i].1,
            )
        &&& forall|output: Output, id: SurfaceId|
            self.surfaces.contains_pair(output, id) ==> #[trigger] entries.contains((output, id))
    }

    /// The output leaves; the handles that were handed out stay spent.
    pub open spec fn unregister(self, output: Output) -> RegistryView {
        RegistryView { surfaces: self.surfaces.remove(output), handed_out: self.handed_out }
    }
}

/// The connected outputs and the cover surface handle of each.
pub struct OutputRegistry {
    surfaces: HashMap<u32, SurfaceId>,
    handed_out: u64,
}

impl View for OutputRegistry {
    type V = RegistryView;

    closed spec fn view(&self) -> RegistryView {
        RegistryView {
            surfaces: Map::new(
                |o: Output| self.surfaces@.contains_key(o.0),
                |o: Output| self.surfaces@[o.0],
            ),
            handed_out: self.handed_out as nat,
        }
    }
}

impl OutputRegistry {
    /// A registry without outputs.
    pub fn new() -> (registry: OutputRegistry)
        ensures
            registry@ == RegistryView::empty(),
            registry@.wf(),
    {
        let registry = OutputRegistry { surfaces: HashMap::new(), handed_out: 0 };
        assert(registry@.surfaces =~= Map::<Output, SurfaceId>::empty());
        assert(registry@.surfaces.dom() =~= Set::<Output>::empty());
        registry
    }

    /// The surface of `output`, if it is registered.
    pub fn get(&self, output: Output) -> (found: Option<SurfaceId>)
        ensures
            found == if self@.surfaces.contains_key(output) {
                Some(self@.surfaces[output])
            } else {
                None::<SurfaceId>
            },
    {
        match self.surfaces.get(&output.0) {
            Some(id) => Some(*id),
            None => None,
        }
    }

    /// Registers `output`. A new output gets a handle that was never handed
    /// out before; one that is already registered keeps the surface it has.
    /// Either way the result is the surface of `output`.
    pub fn register(&mut self, output: Output) -> (id: SurfaceId)
        requires
            !old(self)@.surfaces.contains_key(output) ==> old(self)@.handed_out < u64::MAX,
        ensures
            final(self)@ == old(self)@.register(output),
            old(self)@.wf() ==> final(self)@.wf(),
            id == final(self)@.surfaces[output],
    {
        match self.surfaces.get(&output.0) {
            Some(id) => *id,
            None => {
                let id = SurfaceId(self.handed_out);
                self.handed_out = self.handed_out + 1;
                self.surfaces.insert(output.0, id);
                assert(self@.surfaces =~= old(self)@.surfaces.insert(output, id));
                id
            },
        }
    }

    /// Takes `output` out of the registry and gives back the surface it had;
    /// `None`, and nothing changes, where the output was not registered.
    pub fn unregister(&mut self, output: Output) -> (removed: Option<SurfaceId>)
        ensures
            final(self)@ == old(self)@.unregister(output),
            old(self)@.wf() ==> final(self)@.wf(),
            removed == if old(self)@.surfaces.contains_key(output) {
                Some(old(self)@.surfaces[output])
            } else {
                None::<SurfaceId>
            },
    {
        let removed = self.surfaces.remove(&output.0);
        assert(self@.surfaces =~= old(self)@.surfaces.remove(output));
        removed
    }

    /// Every registered output with its surface, each pair once, in no
    /// particular order.
    pub fn iter(&self) -> (entries: Vec<(Output, SurfaceId)>)
        ensures
            self@.listed_by(entries@),
    {
        let ghost all = spec_hash_map_iter(&self.surfaces).remaining();
        let mut entries: Vec<(Output, SurfaceId)> = Vec::new();
        for (key, id) in it: self.surfaces.iter()
            invariant
                it.seq() == all,
                entries@.len() == it.index(),
                forall|i: int|
                    0 <= i < entries@.len() ==> entries@[i] == (
                        Output(*all[i].0),
                        *all[i].1,
                    ),
        {
            entries.push((Output(*key), *id));
        }
        proof {
            let map = self.surfaces@;
            assert(entries@.len() == all.len());
            assert forall|i: int, j: int|
                0 <= i < entries@.len() && 0 <= j < entries@.len() && i != j implies entries@[i]
                != entries@[j] by {
                assert(all[i] != all[j]);
                assert(map.contains_key(*all[i].0) && map[*all[i].0] == *all[i].1);
                assert(map.contains_key(*all[j].0) && map[*all[j].0] == *all[j].1);
            }
            assert forall|i: int| 0 <= i < entries@.len() implies self@.surfaces.contains_pair(
                (#[trigger] entries@[i]).0,
                entries@[i].1,
            ) by {
                assert(map.contains_key(*all[i].0) && map[*all[i].0] == *all[i].1);
            }
            assert forall|output: Output, id: SurfaceId|
                self@.surfaces.contains_pair(output, id) implies #[trigger] entries@.contains(
                (output, id),
            ) by {
                let key = output.0;
                assert(map.contains_key(key));
                assert(all.contains((&key, &map[key])));
                let i = choose|i: int| 0 <= i < all.len() && all[i] == (&key, &map[key]);
                assert(entries@[i] == (output, id));
            }
            self.lemma_len();
        }
        entries
    }

    /// The view has as many outputs as the table has keys.
    proof fn lemma_len(&self)
        ensures
            self@.surfaces.dom().finite(),
            self@.surfaces.len() == self.surfaces@.len(),
    {
        let wrap = |key: u32| Output(key);
        assert(self.surfaces@.dom().map(wrap) =~= self@.surfaces.dom()) by {
            assert forall|o: Output|
                self.surfaces@.dom().map(wrap).contains(o) <==> self@.surfaces.dom().contains(
                    o,
                ) by {
                if self@.surfaces.dom().contains(o) {
                    assert(self.surfaces@.dom().contains(o.0) && wrap(o.0) == o);
                }
            }
        }
        lemma_map_size(self.surfaces@.dom(), self@.surfaces.dom(), wrap);
    }

    /// How many outputs are registered.
    pub fn len(&self) -> (n: usize)
        ensures
            n == self@.surfaces.len(),
    {
        proof {
            self.lemma_len();
        }
        self.surfaces.len()
    }

    /// Whether a handle is left for one more new output.
    pub fn has_room(&self) -> (room: bool)
        ensures
            room == (self@.handed_out < u64::MAX),
    {
        self.handed_out < u64::MAX
    }
}

} // verus!
