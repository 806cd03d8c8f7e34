//! The picking session: one explicit context object owning the load state,
//! the pickable-entity registry, the triangle set and the latest pick, with
//! the per-frame controller that sequences extraction-if-needed, ray query
//! and result reporting.

use vstd::prelude::*;
use crate::geometry::Triangle;
use crate::geometry::Triangles;
use crate::mesh::MeshData;
use crate::mesh::extracted_triangles;
use crate::mesh::skipped_meshes;
use crate::mesh::unpack_glb_data;
use crate::query::Hit;
use crate::query::Pick;
use crate::query::fire_ray;
use crate::query::nearest;
use crate::state::DataState;
use crate::state::GlbComponents;
use crate::state::LoadPhase;
use crate::state::setup_glb;

verus! {

/// Mathematical state of a session: the load phase, the registered
/// entities, the extracted triangles, the culling choice and the latest
/// reported pick.
#[verifier::ext_equal]
pub ghost struct SessionV {
    pub phase: LoadPhase,
    pub entities: Seq<u64>,
    pub triangles: Seq<Triangle>,
    pub backface_culling: bool,
    pub last_pick: Option<Pick>,
}

/// All picking state of one session, owned by the frame controller and
/// passed explicitly — never ambient.
pub struct Session {
    pub data_state: DataState,
    pub glb_components: GlbComponents,
    pub triangles: Triangles,
    pub backface_culling: bool,
    pub last_pick: Option<Pick>,
}

impl View for Session {
    type V = SessionV;

    open spec fn view(&self) -> SessionV {
        SessionV {
            phase: self.data_state.phase,
            entities: self.glb_components.glb_entities@,
            triangles: self.triangles.triangles@,
            backface_culling: self.backface_culling,
            last_pick: self.last_pick,
        }
    }
}

/// The frame tick's effect on the session: exactly when the asset is loaded
/// but not yet parsed, the extraction pass appends each registered mesh's
/// triangles and the phase advances to parsed; in every other phase the
/// tick changes nothing.
pub open spec fn tick_view(v: SessionV, meshes: Seq<MeshData>) -> SessionV {
    if v.phase is Loaded {
        SessionV {
            phase: LoadPhase::Parsed,
            triangles: v.triangles + extracted_triangles(v.entities, meshes),
            ..v
        }
    } else {
        v
    }
}

impl Session {
    /// A fresh session: nothing requested, nothing registered, no
    /// triangles, no pick; backfaces are culled unless the host chooses
    /// otherwise.
    pub fn new() -> (r: Self)
        ensures
            r@ == (SessionV {
                phase: LoadPhase::Unloaded,
                entities: Seq::<u64>::empty(),
                triangles: Seq::<Triangle>::empty(),
                backface_culling: true,
                last_pick: Option::<Pick>::None,
            }),
    {
        let r = Session {
            data_state: DataState::new(),
            glb_components: GlbComponents::new(),
            triangles: Triangles::new(),
            backface_culling: true,
            last_pick: None,
        };
        proof {
            assert(r@ =~= (SessionV {
                phase: LoadPhase::Unloaded,
                entities: Seq::<u64>::empty(),
                triangles: Seq::<Triangle>::empty(),
                backface_culling: true,
                last_pick: Option::<Pick>::None,
            }));
        }
        r
    }

    /// Registers a freshly spawned entity for picking and records that its
    /// asset load was requested (the host issues the request itself).
    pub fn request_load(&mut self, entity: u64)
        ensures
            final(self)@ == (SessionV {
                phase: if old(self)@.phase is Unloaded {
                    LoadPhase::Loaded
                } else {
                    old(self)@.phase
                },
                entities: old(self)@.entities.push(entity),
                ..old(self)@
            }),
    {
        setup_glb(&mut self.data_state, &mut self.glb_components, entity);
        proof {
            assert(self@ =~= (SessionV {
                phase: if old(self)@.phase is Unloaded {
                    LoadPhase::Loaded
                } else {
                    old(self)@.phase
                },
                entities: old(self)@.entities.push(entity),
                ..old(self)@
            }));
        }
    }

    /// One frame pass of the gated extraction: runs the extraction engine
    /// over the handed-over meshes exactly when the asset is loaded and not
    /// yet parsed, so a parsed asset is never re-scanned. Returns how many
    /// registered meshes the pass skipped for missing vertex positions.
    pub fn tick(&mut self, meshes: &Vec<MeshData>) -> (skipped: usize)
        ensures
            final(self)@ == tick_view(old(self)@, meshes@),
            skipped as int == (if old(self)@.phase is Loaded {
                skipped_meshes(old(self)@.entities, meshes@)
            } else {
                0int
            }),
    {
        if self.data_state.loaded() && !self.data_state.parsed() {
            let skipped = unpack_glb_data(
                &self.glb_components,
                &mut self.data_state,
                &mut self.triangles,
                meshes,
            );
            proof {
                assert(self@ =~= tick_view(old(self)@, meshes@));
            }
            skipped
        } else {
            proof {
                assert(self@ =~= tick_view(old(self)@, meshes@));
            }
            0
        }
    }

    /// Consumes the frame's per-triangle outcomes and stores the result.
    /// An absent ray (no cursor, cursor outside the viewport, degenerate
    /// projection) reports no pick and leaves everything else — the
    /// triangle set included — untouched.
    pub fn report(&mut self, outcomes: &Option<Vec<Option<Hit>>>)
        requires
            *outcomes matches Some(v) ==> v@.len() == old(self)@.triangles.len(),
        ensures
            final(self)@ == (SessionV {
                last_pick: match *outcomes {
                    Option::None => Option::<Pick>::None,
                    Option::Some(v) => nearest(v@),
                },
                ..old(self)@
            }),
    {
        let r = fire_ray(&self.triangles, outcomes);
        self.last_pick = r;
        proof {
            assert(self@ =~= (SessionV {
                last_pick: match *outcomes {
                    Option::None => Option::<Pick>::None,
                    Option::Some(v) => nearest(v@),
                },
                ..old(self)@
            }));
        }
    }

    /// The latest nearest-hit result.
    pub fn pick(&self) -> (r: Option<Pick>)
        ensures
            r == self@.last_pick,
    {
        self.last_pick
    }

    /// Read-only ordered view of the extracted triangles, for diagnostics
    /// and visualization.
    pub fn triangles(&self) -> (r: &Vec<Triangle>)
        ensures
            r@ == self@.triangles,
    {
        &self.triangles.triangles
    }

    /// Whether the host should ask the primitive to cull backfaces.
    pub fn backface_culling(&self) -> (r: bool)
        ensures
            r == self@.backface_culling,
    {
        self.backface_culling
    }
}

/// Law: the frame controller's extraction is idempotent. Ticking twice over
/// the same meshes yields exactly the state of ticking once: extraction is
/// gated to run at most once per asset, so the triangle set neither grows
/// again nor duplicates.
pub proof fn lemma_tick_idempotent(v: SessionV, meshes: Seq<MeshData>)
    ensures
        tick_view(tick_view(v, meshes), meshes) == tick_view(v, meshes),
{
    assert(tick_view(tick_view(v, meshes), meshes) =~= tick_view(v, meshes));
}

/// Law: the triangle set never shrinks. A tick leaves every triangle it
/// already held in place, in order, and only ever appends.
pub proof fn lemma_triangle_set_grows(v: SessionV, meshes: Seq<MeshData>)
    ensures
        tick_view(v, meshes).triangles.len() >= v.triangles.len(),
        tick_view(v, meshes).triangles.take(v.triangles.len() as int) == v.triangles,
{
    assert(tick_view(v, meshes).triangles.take(v.triangles.len() as int) =~= v.triangles);
}

} // verus!
