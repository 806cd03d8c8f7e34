//! Triangle extraction: decoding a mesh's vertex and index buffers into
//! world-space triangles.

use vstd::prelude::*;
use vstd::arithmetic::div_mod::lemma_fundamental_div_mod;
use vstd::arithmetic::div_mod::lemma_mod_bound;
use crate::geometry::Point;
use crate::geometry::Triangle;
use crate::geometry::Triangles;
use crate::state::DataState;
use crate::state::GlbComponents;
use crate::state::LoadPhase;

verus! {

/// A mesh's index buffer with its declared width. The width selects exactly
/// one decode path; an absent buffer selects the implicit triangle-list
/// fallback instead.
#[derive(Debug)]
pub enum Indices {
    U16(Vec<u16>),
    U32(Vec<u32>),
}

/// The geometry of one mesh as handed over by the asset subsystem: the
/// entity it was spawned for, its vertex positions (absent on a defective
/// mesh) and its optional index buffer.
#[derive(Debug)]
pub struct MeshData {
    pub entity: u64,
    pub positions: Option<Vec<Point>>,
    pub indices: Option<Indices>,
}

/// The index buffer as one sequence of integers, whichever width it was
/// declared with.
pub open spec fn index_view(indices: Indices) -> Seq<int> {
    match indices {
        Indices::U16(v) => v@.map_values(|x: u16| x as int),
        Indices::U32(v) => v@.map_values(|x: u32| x as int),
    }
}

/// Triple `k` of the index buffer names three vertices that all lie inside
/// the vertex buffer.
pub open spec fn triple_in_bounds(pos: Seq<Point>, idx: Seq<int>, k: int) -> bool {
    &&& 0 <= idx[3 * k] < pos.len()
    &&& 0 <= idx[3 * k + 1] < pos.len()
    &&& 0 <= idx[3 * k + 2] < pos.len()
}

/// The triangle that triple `k` yields: the three indexed vertex positions,
/// in exactly the order of the indices (the winding is preserved).
pub open spec fn triple_triangle(pos: Seq<Point>, idx: Seq<int>, k: int) -> Triangle {
    Triangle {
        point_a: pos[idx[3 * k]],
        point_b: pos[idx[3 * k + 1]],
        point_c: pos[idx[3 * k + 2]],
    }
}

/// Triangles yielded by the first `k` complete index triples. A triple that
/// names a vertex out of range is rejected by itself; the others still
/// contribute.
pub open spec fn indexed_triangles_upto(pos: Seq<Point>, idx: Seq<int>, k: int) -> Seq<Triangle>
    decreases k,
{
    if k <= 0 {
        Seq::empty()
    } else {
        indexed_triangles_upto(pos, idx, k - 1) + (if triple_in_bounds(pos, idx, k - 1) {
            seq![triple_triangle(pos, idx, k - 1)]
        } else {
            Seq::empty()
        })
    }
}

/// Decoding an index buffer: consecutive non-overlapping triples, a trailing
/// remainder shorter than three discarded, out-of-range triples rejected
/// one by one.
pub open spec fn indexed_triangles(pos: Seq<Point>, idx: Seq<int>) -> Seq<Triangle> {
    indexed_triangles_upto(pos, idx, idx.len() as int / 3)
}

/// Triangles yielded by the first `k` runs of three consecutive vertices.
pub open spec fn implicit_triangles_upto(pos: Seq<Point>, k: int) -> Seq<Triangle>
    decreases k,
{
    if k <= 0 {
        Seq::empty()
    } else {
        implicit_triangles_upto(pos, k - 1) + seq![
            Triangle {
                point_a: pos[3 * (k - 1)],
                point_b: pos[3 * (k - 1) + 1],
                point_c: pos[3 * (k - 1) + 2],
            },
        ]
    }
}

/// The implicit triangle-list fallback for a mesh without an index buffer:
/// every run of three consecutive vertices is one triangle, a trailing
/// remainder discarded.
pub open spec fn implicit_triangles(pos: Seq<Point>) -> Seq<Triangle> {
    implicit_triangles_upto(pos, pos.len() as int / 3)
}

/// What one mesh contributes to the triangle set: its decoded index buffer,
/// or the implicit fallback, or nothing when its vertex positions are
/// missing.
pub open spec fn mesh_triangles(m: MeshData) -> Seq<Triangle> {
    match m.positions {
        Option::None => Seq::empty(),
        Option::Some(pos) => match m.indices {
            Option::None => implicit_triangles(pos@),
            Option::Some(idx) => indexed_triangles(pos@, index_view(idx)),
        },
    }
}

/// What one mesh contributes once the registry is consulted: meshes of
/// unregistered entities are not scanned.
pub open spec fn mesh_contribution(reg: Seq<u64>, m: MeshData) -> Seq<Triangle> {
    if reg.contains(m.entity) {
        mesh_triangles(m)
    } else {
        Seq::empty()
    }
}

/// The whole extraction pass: each mesh's contribution, in mesh order.
pub open spec fn extracted_triangles(reg: Seq<u64>, meshes: Seq<MeshData>) -> Seq<Triangle>
    decreases meshes.len(),
{
    if meshes.len() == 0 {
        Seq::empty()
    } else {
        extracted_triangles(reg, meshes.drop_last()) + mesh_contribution(reg, meshes.last())
    }
}

/// How many registered meshes were skipped for missing vertex positions.
pub open spec fn skipped_meshes(reg: Seq<u64>, meshes: Seq<MeshData>) -> int
    decreases meshes.len(),
{
    if meshes.len() == 0 {
        0
    } else {
        skipped_meshes(reg, meshes.drop_last()) + (if reg.contains(meshes.last().entity)
            && meshes.last().positions is None {
            1int
        } else {
            0int
        })
    }
}

proof fn lemma_indexed_count_upto(pos: Seq<Point>, idx: Seq<int>, k: int)
    requires
        0 <= k,
        3 * k <= idx.len(),
        forall|j: int| 0 <= j < idx.len() ==> 0 <= #[trigger] idx[j] && idx[j] < pos.len(),
    ensures
        indexed_triangles_upto(pos, idx, k).len() == k,
    decreases k,
{
    if k > 0 {
        lemma_indexed_count_upto(pos, idx, k - 1);
        assert(triple_in_bounds(pos, idx, k - 1));
    }
}

/// Law: an index buffer of N indices, all naming vertices in range, yields
/// exactly N / 3 triangles (the trailing remainder is discarded).
pub proof fn lemma_indexed_triangle_count(pos: Seq<Point>, idx: Seq<int>)
    requires
        forall|j: int| 0 <= j < idx.len() ==> 0 <= #[trigger] idx[j] && idx[j] < pos.len(),
    ensures
        indexed_triangles(pos, idx).len() == idx.len() as int / 3,
{
    lemma_fundamental_div_mod(idx.len() as int, 3);
    lemma_mod_bound(idx.len() as int, 3);
    lemma_indexed_count_upto(pos, idx, idx.len() as int / 3);
}

proof fn lemma_indexed_at_upto(pos: Seq<Point>, idx: Seq<int>, n: int, k: int)
    requires
        0 <= k < n,
        3 * n <= idx.len(),
        forall|j: int| 0 <= j < idx.len() ==> 0 <= #[trigger] idx[j] && idx[j] < pos.len(),
    ensures
        indexed_triangles_upto(pos, idx, n)[k] == triple_triangle(pos, idx, k),
    decreases n,
{
    lemma_indexed_count_upto(pos, idx, n - 1);
    assert(triple_in_bounds(pos, idx, n - 1));
    if k < n - 1 {
        lemma_indexed_at_upto(pos, idx, n - 1, k);
    }
}

/// Law: winding preservation. The triangle built from index triple
/// (i0, i1, i2) has corners vertex[i0], vertex[i1], vertex[i2] in exactly
/// that order.
pub proof fn lemma_winding_preserved(pos: Seq<Point>, idx: Seq<int>, k: int)
    requires
        forall|j: int| 0 <= j < idx.len() ==> 0 <= #[trigger] idx[j] && idx[j] < pos.len(),
        0 <= k < idx.len() as int / 3,
    ensures
        indexed_triangles(pos, idx)[k] == (Triangle {
            point_a: pos[idx[3 * k]],
            point_b: pos[idx[3 * k + 1]],
            point_c: pos[idx[3 * k + 2]],
        }),
{
    lemma_fundamental_div_mod(idx.len() as int, 3);
    lemma_mod_bound(idx.len() as int, 3);
    lemma_indexed_at_upto(pos, idx, idx.len() as int / 3, k);
}

/// Converts a width-tagged index buffer to machine indexes, one for one.
fn index_values(indices: &Indices) -> (r: Vec<usize>)
    ensures
        r@.map_values(|x: usize| x as int) == index_view(*indices),
{
    match indices {
        Indices::U16(v) => {
            let mut r: Vec<usize> = Vec::new();
            let mut i: usize = 0;
            while i < v.len()
                invariant
                    i <= v@.len(),
                    r@.len() == i,
                    forall|j: int| 0 <= j < i ==> r@[j] as int == v@[j] as int,
                decreases v@.len() - i,
            {
                let x = v[i];
                r.push(x as usize);
                i += 1;
            }
            proof {
                assert(r@.map_values(|x: usize| x as int) =~= v@.map_values(|x: u16| x as int));
            }
            r
        },
        Indices::U32(v) => {
            let mut r: Vec<usize> = Vec::new();
            let mut i: usize = 0;
            while i < v.len()
                invariant
                    i <= v@.len(),
                    r@.len() == i,
                    forall|j: int| 0 <= j < i ==> r@[j] as int == v@[j] as int,
                decreases v@.len() - i,
            {
                let x = v[i];
                r.push(x as usize);
                i += 1;
            }
            proof {
                assert(r@.map_values(|x: usize| x as int) =~= v@.map_values(|x: u32| x as int));
            }
            r
        },
    }
}

/// Appends the triangles decoded from an index buffer. Each complete triple
/// whose indices are all in range yields one triangle, in triple order; a
/// triple out of range is rejected without aborting the pass.
fn extract_indexed(pos: &Vec<Point>, idx: &Vec<usize>, out: &mut Vec<Triangle>)
    ensures
        final(out)@ == old(out)@ + indexed_triangles(pos@, idx@.map_values(|x: usize| x as int)),
{
    let ghost iv = idx@.map_values(|x: usize| x as int);
    let n_triples: usize = idx.len() / 3;
    proof {
        lemma_fundamental_div_mod(idx@.len() as int, 3);
        lemma_mod_bound(idx@.len() as int, 3);
    }
    let mut k: usize = 0;
    while k < n_triples
        invariant
            iv == idx@.map_values(|x: usize| x as int),
            iv.len() == idx@.len(),
            idx@.len() <= usize::MAX,
            n_triples as int == idx@.len() as int / 3,
            3 * (n_triples as int) <= idx@.len(),
            k <= n_triples,
            out@ == old(out)@ + indexed_triangles_upto(pos@, iv, k as int),
        decreases n_triples - k,
    {
        assert(3 * (k as int) + 2 < idx@.len());
        let base: usize = 3 * k;
        let i0: usize = idx[base];
        let i1: usize = idx[base + 1];
        let i2: usize = idx[base + 2];
        proof {
            assert(iv[3 * (k as int)] == i0 as int);
            assert(iv[3 * (k as int) + 1] == i1 as int);
            assert(iv[3 * (k as int) + 2] == i2 as int);
        }
        if i0 < pos.len() && i1 < pos.len() && i2 < pos.len() {
            let tri = Triangle::new(pos[i0], pos[i1], pos[i2]);
            out.push(tri);
            proof {
                assert(triple_in_bounds(pos@, iv, k as int));
                assert(tri == triple_triangle(pos@, iv, k as int));
                assert(out@ =~= old(out)@ + indexed_triangles_upto(pos@, iv, k as int + 1));
            }
        } else {
            proof {
                assert(!triple_in_bounds(pos@, iv, k as int));
                assert(out@ =~= old(out)@ + indexed_triangles_upto(pos@, iv, k as int + 1));
            }
        }
        k += 1;
    }
}

/// Appends the implicit triangle-list fallback: every run of three
/// consecutive vertices is one triangle.
fn extract_implicit(pos: &Vec<Point>, out: &mut Vec<Triangle>)
    ensures
        final(out)@ == old(out)@ + implicit_triangles(pos@),
{
    let n_triples: usize = pos.len() / 3;
    proof {
        lemma_fundamental_div_mod(pos@.len() as int, 3);
        lemma_mod_bound(pos@.len() as int, 3);
    }
    let mut k: usize = 0;
    while k < n_triples
        invariant
            pos@.len() <= usize::MAX,
            n_triples as int == pos@.len() as int / 3,
            3 * (n_triples as int) <= pos@.len(),
            k <= n_triples,
            out@ == old(out)@ + implicit_triangles_upto(pos@, k as int),
        decreases n_triples - k,
    {
        assert(3 * (k as int) + 2 < pos@.len());
        let base: usize = 3 * k;
        let tri = Triangle::new(pos[base], pos[base + 1], pos[base + 2]);
        out.push(tri);
        proof {
            assert(out@ =~= old(out)@ + implicit_triangles_upto(pos@, k as int + 1));
        }
        k += 1;
    }
}

/// One extraction pass over the handed-over meshes, restricted to meshes of
/// registered entities. Every scanned mesh yields triangles one way or
/// another: through its index buffer or through the implicit fallback; only
/// a mesh without vertex positions is skipped, and the pass goes on. The
/// returned count says how many registered meshes were skipped that way.
/// Afterwards the asset counts as parsed.
pub fn unpack_glb_data(
    glb_components: &GlbComponents,
    data_state: &mut DataState,
    triangles: &mut Triangles,
    meshes: &Vec<MeshData>,
) -> (skipped: usize)
    ensures
        final(triangles).triangles@ == old(triangles).triangles@ + extracted_triangles(
            glb_components.glb_entities@,
            meshes@,
        ),
        skipped as int == skipped_meshes(glb_components.glb_entities@, meshes@),
        final(data_state).phase == (if old(data_state).phase is Unloaded {
            LoadPhase::Unloaded
        } else {
            LoadPhase::Parsed
        }),
{
    let ghost reg = glb_components.glb_entities@;
    let mut skipped: usize = 0;
    let mut m: usize = 0;
    while m < meshes.len()
        invariant
            reg == glb_components.glb_entities@,
            m <= meshes@.len(),
            skipped <= m,
            triangles.triangles@ == old(triangles).triangles@ + extracted_triangles(
                reg,
                meshes@.take(m as int),
            ),
            skipped as int == skipped_meshes(reg, meshes@.take(m as int)),
            data_state == old(data_state),
        decreases meshes@.len() - m,
    {
        let ghost t1 = meshes@.take(m as int + 1);
        proof {
            assert(t1.drop_last() =~= meshes@.take(m as int));
            assert(t1.last() == meshes@[m as int]);
            assert(extracted_triangles(reg, t1) == extracted_triangles(
                reg,
                meshes@.take(m as int),
            ) + mesh_contribution(reg, meshes@[m as int]));
            assert(skipped_meshes(reg, t1) == skipped_meshes(reg, meshes@.take(m as int)) + (
            if reg.contains(meshes@[m as int].entity) && meshes@[m as int].positions is None {
                1int
            } else {
                0int
            }));
        }
        let mesh = &meshes[m];
        if glb_components.contains_entity(mesh.entity) {
            match &mesh.positions {
                Option::None => {
                    skipped = skipped + 1;
                },
                Option::Some(pos) => {
                    match &mesh.indices {
                        Option::None => {
                            extract_implicit(pos, &mut triangles.triangles);
                        },
                        Option::Some(ind) => {
                            let iv = index_values(ind);
                            extract_indexed(pos, &iv, &mut triangles.triangles);
                        },
                    }
                    proof {
                        assert(mesh_contribution(reg, meshes@[m as int]) == mesh_triangles(
                            meshes@[m as int],
                        ));
                    }
                },
            }
        } else {
            proof {
                assert(mesh_contribution(reg, meshes@[m as int]) =~= Seq::<Triangle>::empty());
            }
        }
        proof {
            assert(triangles.triangles@ =~= old(triangles).triangles@ + extracted_triangles(
                reg,
                t1,
            ));
        }
        m += 1;
    }
    proof {
        assert(meshes@.take(meshes@.len() as int) =~= meshes@);
    }
    data_state.set_parsed_true();
    skipped
}

} // verus!
