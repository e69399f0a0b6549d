//! The regeneration controller. It keeps the handles of every live terrain
//! object, and replaces the whole board on a trigger: the new noise field is
//! built first, and the old objects are removed only once it has been.
//!
//! One regeneration runs `trigger`, then `replace` (or `abandon` when the
//! field could not be built), then `commit` with the handles the host gave
//! the spawned objects.

use crate::board::{draws_allowed, materialize, board_objects, CellDraw, Placement, TreeChance};
use crate::field::NoiseField;
use crate::random::draw_seed;
use vstd::prelude::*;

verus! {

/// Where the controller stands in a regeneration.
#[derive(Clone, Copy, Debug, PartialEq, Eq, Structural)]
pub enum Phase {
    /// No regeneration is under way.
    Idle,
    /// Triggered: waiting for the noise field of the drawn seed.
    BuildingField,
    /// The old board is handed out for removal: waiting for the handles of
    /// the `expected` new objects.
    Spawning { expected: usize },
}

/// The commands of one regeneration: remove `despawn` with all their
/// descendants, then spawn `spawn`, each tagged as terrain.
pub struct Replacement {
    pub despawn: Vec<u64>,
    pub spawn: Vec<Placement>,
}

/// The controller, with the handles of the live terrain objects.
pub struct Regenerator {
    phase: Phase,
    live: Vec<u64>,
}

/// The host's terrain objects after it applies a regeneration's commands:
/// the removed handles are gone and the spawned ones are added.
pub open spec fn apply_commands(world: Set<u64>, despawn: Seq<u64>, spawned: Seq<u64>) -> Set<u64> {
    world.difference(despawn.to_set()).union(spawned.to_set())
}

/// The host's terrain objects after each generation in turn has been
/// committed, from `world` and a controller that holds `live`: every cycle
/// removes what the controller holds (`replace`) and spawns the generation,
/// whose handles the controller then holds (`commit`).
pub open spec fn after_regenerations(world: Set<u64>, live: Seq<u64>, generations: Seq<Seq<u64>>) -> Set<u64>
    decreases generations.len(),
{
    if generations.len() == 0 {
        world
    } else {
        after_regenerations(
            apply_commands(world, live, generations[0]),
            generations[0],
            generations.drop_first(),
        )
    }
}

/// Regeneration cleanliness: when the controller holds exactly the live
/// terrain objects, then after any number of regenerations the host holds
/// exactly the objects of the last one, as many as it spawned.
pub proof fn lemma_regeneration_cleanliness(world: Set<u64>, live: Seq<u64>, generations: Seq<Seq<u64>>)
    requires
        live.to_set() == world,
        generations.len() > 0,
        forall|i: int| 0 <= i < generations.len() ==> (#[trigger] generations[i]).no_duplicates(),
    ensures
        after_regenerations(world, live, generations) == generations.last().to_set(),
        after_regenerations(world, live, generations).len() == generations.last().len(),
    decreases generations.len(),
{
    let g = generations[0];
    let next = apply_commands(world, live, g);
    assert(next =~= g.to_set());
    assert(after_regenerations(world, live, generations)
        == after_regenerations(next, g, generations.drop_first()));
    if generations.len() == 1 {
        assert(generations.drop_first() =~= Seq::<Seq<u64>>::empty());
        assert(after_regenerations(next, g, generations.drop_first()) == next);
        assert(generations.last() == g);
        g.unique_seq_to_set();
    } else {
        let rest = generations.drop_first();
        assert forall|i: int| 0 <= i < rest.len() implies (#[trigger] rest[i]).no_duplicates() by {
            assert(rest[i] == generations[i + 1]);
        }
        lemma_regeneration_cleanliness(next, g, rest);
        assert(rest.last() == generations.last());
    }
}

impl Regenerator {
    /// The current phase.
    pub closed spec fn spec_phase(&self) -> Phase {
        self.phase
    }

    /// The handles of the live terrain objects, as far as committed.
    pub closed spec fn spec_live(&self) -> Seq<u64> {
        self.live@
    }

    /// An idle controller that holds no terrain.
    pub fn new() -> (r: Regenerator)
        ensures
            r.spec_phase() == Phase::Idle,
            r.spec_live() == Seq::<u64>::empty(),
    {
        Regenerator { phase: Phase::Idle, live: Vec::new() }
    }

    /// The current phase.
    pub fn phase(&self) -> (r: Phase)
        ensures
            r == self.spec_phase(),
    {
        self.phase
    }

    /// How many live terrain objects the controller holds.
    pub fn live_count(&self) -> (r: usize)
        ensures
            r == self.spec_live().len(),
    {
        self.live.len()
    }

    /// Starts a regeneration when idle: returns a freshly drawn seed for the
    /// new noise field. Returns `None`, changing nothing, while one is under
    /// way.
    pub fn trigger(&mut self) -> (r: Option<u32>)
        ensures
            r.is_some() <==> old(self).spec_phase() == Phase::Idle,
            r.is_some() ==> final(self).spec_phase() == Phase::BuildingField
                && final(self).spec_live() == old(self).spec_live(),
            r.is_none() ==> final(self).spec_phase() == old(self).spec_phase()
                && final(self).spec_live() == old(self).spec_live(),
    {
        match self.phase {
            Phase::Idle => {
                self.phase = Phase::BuildingField;
                Some(draw_seed())
            },
            _ => None,
        }
    }

    /// The noise field could not be built: the regeneration ends and the old
    /// board stays. Returns whether a field was awaited; changes nothing
    /// otherwise.
    pub fn abandon(&mut self) -> (r: bool)
        ensures
            r <==> old(self).spec_phase() == Phase::BuildingField,
            r ==> final(self).spec_phase() == Phase::Idle,
            !r ==> final(self).spec_phase() == old(self).spec_phase(),
            final(self).spec_live() == old(self).spec_live(),
    {
        match self.phase {
            Phase::BuildingField => {
                self.phase = Phase::Idle;
                true
            },
            _ => false,
        }
    }

    /// The new noise field is built: hands out every live terrain handle for
    /// removal together with the new board (see `materialize`), and waits for
    /// the handles of its objects. Returns `None`, changing nothing, unless a
    /// field was awaited.
    pub fn replace(&mut self, field: &NoiseField, threshold: i64, chance: &TreeChance) -> (r: Option<Replacement>)
        requires
            field.wf(),
            chance.wf(),
        ensures
            r.is_some() <==> old(self).spec_phase() == Phase::BuildingField,
            r matches Some(rep) ==> {
                &&& rep.despawn@ == old(self).spec_live()
                &&& exists|d: Seq<Seq<CellDraw>>| draws_allowed(field, threshold, chance, d)
                    && rep.spawn@ == board_objects(field, threshold, d)
                &&& final(self).spec_live() == Seq::<u64>::empty()
                &&& final(self).spec_phase() == (Phase::Spawning { expected: rep.spawn@.len() as usize })
            },
            r.is_none() ==> final(self).spec_phase() == old(self).spec_phase()
                && final(self).spec_live() == old(self).spec_live(),
    {
        match self.phase {
            Phase::BuildingField => {
                let spawn = materialize(field, threshold, chance);
                let mut despawn: Vec<u64> = Vec::new();
                std::mem::swap(&mut despawn, &mut self.live);
                self.phase = Phase::Spawning { expected: spawn.len() };
                Some(Replacement { despawn, spawn })
            },
            _ => None,
        }
    }

    /// The new objects are spawned: the controller holds their handles and
    /// the regeneration ends. Returns `false`, changing nothing, unless the
    /// controller waits for exactly `spawned.len()` handles.
    pub fn commit(&mut self, spawned: Vec<u64>) -> (r: bool)
        ensures
            r <==> old(self).spec_phase() == (Phase::Spawning { expected: spawned@.len() as usize }),
            r ==> final(self).spec_phase() == Phase::Idle && final(self).spec_live() == spawned@,
            !r ==> final(self).spec_phase() == old(self).spec_phase()
                && final(self).spec_live() == old(self).spec_live(),
    {
        match self.phase {
            Phase::Spawning { expected } => {
                if expected == spawned.len() {
                    self.live = spawned;
                    self.phase = Phase::Idle;
                    true
                } else {
                    false
                }
            },
            _ => false,
        }
    }
}

} // verus!
