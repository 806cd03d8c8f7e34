//! Nearest-hit selection over the per-triangle outcomes of the watertight
//! ray-triangle primitive.
//!
//! The primitive itself is an external collaborator run by the host: for
//! each triangle of the set, in index order, the host calls it with the
//! frame's ray and the session's backface-culling flag and hands this core
//! the outcome. Distances and weights are carried as opaque 32-bit words
//! whose unsigned order must agree with the host's numeric order — for the
//! strictly positive finite distances the primitive reports, the bit
//! pattern of a single-precision value does exactly that.

use vstd::prelude::*;
use crate::geometry::Triangles;

verus! {

/// Outcome of one ray-triangle test: the distance `t` along the ray and the
/// barycentric-like weights `(u, v, w)` of the hit point, each carried as an
/// ordered 32-bit word. The primitive only reports hits with `t` strictly
/// positive.
#[derive(Clone, Copy, Debug, PartialEq, Eq, Structural)]
pub struct Hit {
    pub t: u32,
    pub u: u32,
    pub v: u32,
    pub w: u32,
}

impl Hit {
    pub fn new(t: u32, u: u32, v: u32, w: u32) -> (r: Self)
        ensures
            r == (Hit { t, u, v, w }),
    {
        Hit { t, u, v, w }
    }

    pub fn t(&self) -> (r: u32)
        ensures
            r == self.t,
    {
        self.t
    }

    pub fn as_tuple(&self) -> (r: (u32, u32, u32, u32))
        ensures
            r == (self.t, self.u, self.v, self.w),
    {
        (self.t, self.u, self.v, self.w)
    }
}

/// The reported pick of one frame: which triangle lies under the cursor,
/// at which distance and with which weights.
#[derive(Clone, Copy, Debug, PartialEq, Eq, Structural)]
pub struct Pick {
    pub triangle_index: usize,
    pub t: u32,
    pub u: u32,
    pub v: u32,
    pub w: u32,
}

/// The pick reporting hit `h` on triangle `i`.
pub open spec fn pick_of(i: int, h: Hit) -> Pick {
    Pick { triangle_index: i as usize, t: h.t, u: h.u, v: h.v, w: h.w }
}

/// The hit a pick carries.
pub open spec fn hit_of_pick(p: Pick) -> Hit {
    Hit { t: p.t, u: p.u, v: p.v, w: p.w }
}

/// The nearest hit among the first `n` outcomes: the smallest distance
/// wins, and on equal distances the lowest triangle index.
pub open spec fn nearest_upto(outcomes: Seq<Option<Hit>>, n: int) -> Option<Pick>
    decreases n,
{
    if n <= 0 {
        Option::<Pick>::None
    } else {
        let prev = nearest_upto(outcomes, n - 1);
        match outcomes[n - 1] {
            Option::None => prev,
            Option::Some(h) => match prev {
                Option::None => Option::Some(pick_of(n - 1, h)),
                Option::Some(p) => if h.t < p.t {
                    Option::Some(pick_of(n - 1, h))
                } else {
                    prev
                },
            },
        }
    }
}

/// The nearest hit among all outcomes, or none when no triangle was hit.
pub open spec fn nearest(outcomes: Seq<Option<Hit>>) -> Option<Pick> {
    nearest_upto(outcomes, outcomes.len() as int)
}

/// Scans the per-triangle outcomes of the primitive, in index order, and
/// retains only the nearest hit: the smallest distance, ties broken by the
/// lowest triangle index. Returns none when no triangle was hit.
pub fn wrti_test(outcomes: &Vec<Option<Hit>>) -> (r: Option<Pick>)
    ensures
        r == nearest(outcomes@),
{
    let mut best: Option<Pick> = None;
    let mut i: usize = 0;
    while i < outcomes.len()
        invariant
            i <= outcomes@.len(),
            best == nearest_upto(outcomes@, i as int),
        decreases outcomes@.len() - i,
    {
        if let Some(h) = outcomes[i] {
            match best {
                None => {
                    best = Some(Pick { triangle_index: i, t: h.t, u: h.u, v: h.v, w: h.w });
                },
                Some(p) => {
                    if h.t < p.t {
                        best = Some(Pick { triangle_index: i, t: h.t, u: h.u, v: h.v, w: h.w });
                    }
                },
            }
        }
        i += 1;
    }
    best
}

/// One frame's ray-and-query step. `outcomes` is absent when no ray could
/// be produced — the cursor was absent or outside the viewport, or the
/// camera's projection could not be inverted — and the frame reports no
/// pick; that is the normal steady state, not an error. Otherwise it holds
/// the primitive's outcome for each triangle of the set, in index order,
/// and the frame reports the nearest hit.
pub fn fire_ray(triangles: &Triangles, outcomes: &Option<Vec<Option<Hit>>>) -> (r: Option<Pick>)
    requires
        *outcomes matches Some(v) ==> v@.len() == triangles.triangles@.len(),
    ensures
        r == (match *outcomes {
            Option::None => Option::<Pick>::None,
            Option::Some(v) => nearest(v@),
        }),
{
    match outcomes {
        Option::None => None,
        Option::Some(v) => wrti_test(v),
    }
}

/// A shard's pick, re-indexed into the whole set: the shard's first
/// triangle sits at `offset` of the set.
pub open spec fn shift_pick(p: Pick, offset: int) -> Pick {
    Pick { triangle_index: (p.triangle_index + offset) as usize, t: p.t, u: p.u, v: p.v, w: p.w }
}

/// The minimum-distance reduction of two shards' picks, the second shard
/// starting at `offset`: the smaller distance wins, and on equal distances
/// the first shard (the lower indices).
pub open spec fn combine_nearest(first: Option<Pick>, second: Option<Pick>, offset: int) -> Option<
    Pick,
> {
    match second {
        Option::None => first,
        Option::Some(q) => match first {
            Option::None => Option::Some(shift_pick(q, offset)),
            Option::Some(p) => if q.t < p.t {
                Option::Some(shift_pick(q, offset))
            } else {
                first
            },
        },
    }
}

proof fn lemma_nearest_upto_prefix(a: Seq<Option<Hit>>, b: Seq<Option<Hit>>, j: int)
    requires
        0 <= j <= a.len(),
    ensures
        nearest_upto(a + b, j) == nearest_upto(a, j),
    decreases j,
{
    if j > 0 {
        lemma_nearest_upto_prefix(a, b, j - 1);
        assert((a + b)[j - 1] == a[j - 1]);
    }
}

proof fn lemma_nearest_upto_split(a: Seq<Option<Hit>>, b: Seq<Option<Hit>>, k: int)
    requires
        0 <= k <= b.len(),
        a.len() + b.len() <= usize::MAX,
    ensures
        nearest_upto(a + b, a.len() + k) == combine_nearest(
            nearest(a),
            nearest_upto(b, k),
            a.len() as int,
        ),
    decreases k,
{
    if k == 0 {
        lemma_nearest_upto_prefix(a, b, a.len() as int);
    } else {
        lemma_nearest_upto_split(a, b, k - 1);
        assert((a + b)[a.len() + k - 1] == b[k - 1]);
    }
}

/// Law: shard independence. Splitting the triangle sweep anywhere and
/// reducing the two shards' nearest hits with the same minimum-distance,
/// lowest-index rule yields exactly the sequential sweep's result, so a
/// host may shard the per-triangle work arbitrarily.
pub proof fn lemma_nearest_split(a: Seq<Option<Hit>>, b: Seq<Option<Hit>>)
    requires
        a.len() + b.len() <= usize::MAX,
    ensures
        nearest(a + b) == combine_nearest(nearest(a), nearest(b), a.len() as int),
{
    lemma_nearest_upto_split(a, b, b.len() as int);
}

proof fn lemma_nearest_upto_properties(outcomes: Seq<Option<Hit>>, n: int)
    requires
        0 <= n <= outcomes.len(),
        outcomes.len() <= usize::MAX,
    ensures
        nearest_upto(outcomes, n) is None <==> (forall|i: int|
            0 <= i < n ==> outcomes[i] is None),
        nearest_upto(outcomes, n) matches Some(p) ==> {
            &&& 0 <= p.triangle_index < n
            &&& outcomes[p.triangle_index as int] == Option::Some(hit_of_pick(p))
            &&& forall|i: int| 0 <= i < n ==> (#[trigger] outcomes[i] matches Some(h) ==> p.t
                <= h.t)
            &&& forall|i: int| 0 <= i < p.triangle_index ==> (#[trigger] outcomes[i] matches Some(
            h) ==> p.t < h.t)
        },
    decreases n,
{
    if n > 0 {
        lemma_nearest_upto_properties(outcomes, n - 1);
    }
}

/// Law: nearest-hit selection. The engine returns none exactly when no
/// triangle was hit; otherwise it returns a hit of the set whose distance
/// is least among all hits, and no earlier triangle was hit at that same
/// distance (ties go to the lowest index).
pub proof fn lemma_nearest_properties(outcomes: Seq<Option<Hit>>)
    requires
        outcomes.len() <= usize::MAX,
    ensures
        nearest(outcomes) is None <==> (forall|i: int|
            0 <= i < outcomes.len() ==> outcomes[i] is None),
        nearest(outcomes) matches Some(p) ==> {
            &&& 0 <= p.triangle_index < outcomes.len()
            &&& outcomes[p.triangle_index as int] == Option::Some(hit_of_pick(p))
            &&& forall|i: int| 0 <= i < outcomes.len() ==> (#[trigger] outcomes[i] matches Some(
            h) ==> p.t <= h.t)
            &&& forall|i: int| 0 <= i < p.triangle_index ==> (#[trigger] outcomes[i] matches Some(
            h) ==> p.t < h.t)
        },
{
    lemma_nearest_upto_properties(outcomes, outcomes.len() as int);
}

} // verus!
