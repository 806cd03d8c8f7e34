//! Asset load state and the pickable-entity registry.

use vstd::prelude::*;

verus! {

/// Progress of the requested scene asset. The phase only moves forward:
/// `Unloaded` until a load is requested, `Loaded` once the request was
/// issued, `Parsed` once its triangles were extracted. The combination
/// "parsed but never loaded" is unrepresentable.
#[derive(Clone, Copy, Debug, PartialEq, Eq, Structural)]
pub enum LoadPhase {
    Unloaded,
    Loaded,
    Parsed,
}

/// Readiness of one requested scene asset through its load and extraction
/// phases.
#[derive(Clone, Copy, Debug, PartialEq, Eq, Structural)]
pub struct DataState {
    pub phase: LoadPhase,
}

impl DataState {
    pub fn new() -> (r: Self)
        ensures
            r.phase == LoadPhase::Unloaded,
    {
        DataState { phase: LoadPhase::Unloaded }
    }

    /// Records that a load was requested. This signals only that the request
    /// was issued, not that the asset data is resident; the phase advances
    /// from `Unloaded` and is otherwise left where it stands.
    pub fn set_loaded_true(&mut self)
        ensures
            final(self).phase == (if old(self).phase is Unloaded {
                LoadPhase::Loaded
            } else {
                old(self).phase
            }),
    {
        if self.phase == LoadPhase::Unloaded {
            self.phase = LoadPhase::Loaded;
        }
    }

    /// Records that extraction ran. Guarded: an asset that was never
    /// requested cannot become parsed.
    pub fn set_parsed_true(&mut self)
        ensures
            final(self).phase == (if old(self).phase is Unloaded {
                LoadPhase::Unloaded
            } else {
                LoadPhase::Parsed
            }),
    {
        if self.phase != LoadPhase::Unloaded {
            self.phase = LoadPhase::Parsed;
        }
    }

    /// Explicit restart: both progress marks are cleared.
    pub fn set_false(&mut self)
        ensures
            final(self).phase == LoadPhase::Unloaded,
    {
        self.phase = LoadPhase::Unloaded;
    }

    /// Whether a load was requested (it stays true once the asset is parsed).
    pub fn loaded(&self) -> (r: bool)
        ensures
            r == !(self.phase is Unloaded),
    {
        self.phase != LoadPhase::Unloaded
    }

    /// Whether the asset's triangles were extracted.
    pub fn parsed(&self) -> (r: bool)
        ensures
            r == (self.phase is Parsed),
    {
        self.phase == LoadPhase::Parsed
    }
}

/// Ordered registry of the spawned entities that are eligible for picking.
/// Entities are carried as opaque handles; they are appended when an asset
/// is spawned and never removed.
#[derive(Debug)]
pub struct GlbComponents {
    pub glb_entities: Vec<u64>,
}

impl GlbComponents {
    pub fn new() -> (r: Self)
        ensures
            r.glb_entities@ == Seq::<u64>::empty(),
    {
        GlbComponents { glb_entities: Vec::new() }
    }

    pub fn add_entity(&mut self, entity: u64)
        ensures
            final(self).glb_entities@ == old(self).glb_entities@.push(entity),
    {
        self.glb_entities.push(entity);
    }

    pub fn get_entities(&self) -> (r: &Vec<u64>)
        ensures
            r@ == self.glb_entities@,
    {
        &self.glb_entities
    }

    /// Membership lookup used by extraction to restrict its scan to
    /// registered entities.
    pub fn contains_entity(&self, entity: u64) -> (r: bool)
        ensures
            r == self.glb_entities@.contains(entity),
    {
        let n = self.glb_entities.len();
        let mut i: usize = 0;
        while i < n
            invariant
                n == self.glb_entities@.len(),
                i <= n,
                forall|j: int| 0 <= j < i ==> self.glb_entities@[j] != entity,
            decreases n - i,
        {
            if self.glb_entities[i] == entity {
                assert(self.glb_entities@.contains(entity)) by {
                    assert(self.glb_entities@[i as int] == entity);
                }
                return true;
            }
            i += 1;
        }
        assert(!self.glb_entities@.contains(entity)) by {
            assert(forall|j: int|
                0 <= j < self.glb_entities@.len() ==> self.glb_entities@[j] != entity);
        }
        false
    }
}

/// Registers a freshly spawned entity for picking and records that its
/// asset load was requested. The spawning itself and the load request are
/// the host's work; this is the bookkeeping they leave behind.
pub fn setup_glb(data_state: &mut DataState, glb_components: &mut GlbComponents, entity: u64)
    ensures
        final(glb_components).glb_entities@ == old(glb_components).glb_entities@.push(entity),
        final(data_state).phase == (if old(data_state).phase is Unloaded {
            LoadPhase::Loaded
        } else {
            old(data_state).phase
        }),
{
    glb_components.add_entity(entity);
    data_state.set_loaded_true();
}

} // verus!
