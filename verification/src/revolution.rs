//! A path swept around the upright axis into a surface.

use crate::matrix::{is_zero, Vec3};
use crate::render::{
    facets_view, lemma_vertex_count_add, lemma_vertex_count_uniform, quad, quad_view, tri,
    tri_view, vertex_count, Facet, FacetView,
};
use vstd::prelude::*;

verus! {

/// The surface that a path sweeps when it turns once around the upright
/// axis in `resolution` equal steps.
#[derive(Debug)]
pub struct Revolution<S> {
    /// The path before it is turned.
    pub path: Vec<Vec3<S>>,
    /// The number of steps of the whole turn.
    pub resolution: u16,
    /// Where the surface starts in the vertex buffer, in scalars.
    pub vert_start: i32,
    /// How many vertices the surface has in the vertex buffer.
    pub num_verts: i32,
    /// Where the surface stands.
    pub translate: Vec3<S>,
}

/// The point of the upright axis that is level with `p`.
pub open spec fn axis_point<S>(p: Vec3<S>, zero: S) -> Vec3<S> {
    Vec3 { x: zero, y: p.y, z: zero }
}

/// The strip between a path and the same path one step further round: a
/// triangle from the first point of both to the axis, a quadrilateral for
/// each edge of the path, and a triangle from the last point of both to the
/// axis.
pub open spec fn slice_view<S>(path: Seq<Vec3<S>>, rotated: Seq<Vec3<S>>, zero: S) -> Seq<
    FacetView<S>,
> {
    let last = path.len() - 1;
    seq![tri_view(path[0], rotated[0], axis_point(path[0], zero))] + Seq::new(
        last as nat,
        |i: int| quad_view(path[i], rotated[i], rotated[i + 1], path[i + 1]),
    ) + seq![tri_view(path[last], rotated[last], axis_point(path[last], zero))]
}

/// A strip along a path of `k` points has `6 k` vertices.
pub proof fn lemma_slice_vertex_count<S>(path: Seq<Vec3<S>>, rotated: Seq<Vec3<S>>, zero: S)
    requires
        path.len() >= 1,
    ensures
        vertex_count(slice_view(path, rotated, zero)) == 6 * path.len(),
{
    let last = path.len() - 1;
    let first = seq![tri_view(path[0], rotated[0], axis_point(path[0], zero))];
    let quads = Seq::new(
        last as nat,
        |i: int| quad_view(path[i], rotated[i], rotated[i + 1], path[i + 1]),
    );
    let end = seq![tri_view(path[last], rotated[last], axis_point(path[last], zero))];
    lemma_vertex_count_uniform(first, 3);
    lemma_vertex_count_uniform(quads, 6);
    lemma_vertex_count_uniform(end, 3);
    lemma_vertex_count_add(first, quads);
    lemma_vertex_count_add(first + quads, end);
}

/// The strip between `path` and `rotated`, which is the path one step
/// further round. `zero` is the scalar 0.
pub fn revolution_slice<S: Copy>(path: &[Vec3<S>], rotated: &[Vec3<S>], zero: S) -> (facets: Vec<
    Facet<S>,
>)
    requires
        path@.len() >= 1,
        rotated@.len() == path@.len(),
    ensures
        facets_view(facets@) == slice_view(path@, rotated@, zero),
        vertex_count(facets_view(facets@)) == 6 * path@.len(),
{
    let k = path.len();
    let mut facets: Vec<Facet<S>> = Vec::new();
    facets.push(tri(path[0], rotated[0], Vec3 { x: zero, y: path[0].y, z: zero }));
    let mut i: usize = 0;
    while i + 1 < k
        invariant
            k == path@.len(),
            k == rotated@.len(),
            k >= 1,
            i <= k - 1,
            facets@.len() == 1 + i,
            facets@[0]@ == tri_view(path@[0], rotated@[0], axis_point(path@[0], zero)),
            forall|m: int|
                1 <= m < 1 + i ==> (#[trigger] facets@[m])@ == quad_view(
                    path@[m - 1],
                    rotated@[m - 1],
                    rotated@[m],
                    path@[m],
                ),
        decreases k - i,
    {
        facets.push(quad(path[i], rotated[i], rotated[i + 1], path[i + 1]));
        i += 1;
    }
    facets.push(
        tri(path[k - 1], rotated[k - 1], Vec3 { x: zero, y: path[k - 1].y, z: zero }),
    );
    proof {
        lemma_slice_vertex_count(path@, rotated@, zero);
    }
    facets
}

/// What each path of `rings` holds.
pub open spec fn rings_view<S>(rings: Seq<Vec<Vec3<S>>>) -> Seq<Seq<Vec3<S>>> {
    rings.map_values(|r: Vec<Vec3<S>>| r@)
}

/// The path after `step` steps: the path itself, and then the entries of
/// `rotated` one after the other.
pub open spec fn ring<S>(path: Seq<Vec3<S>>, rotated: Seq<Seq<Vec3<S>>>, step: int) -> Seq<
    Vec3<S>,
> {
    if step == 0 {
        path
    } else {
        rotated[step - 1]
    }
}

/// The strips of the first `steps` steps, one after the other.
pub open spec fn revolution_view<S>(
    path: Seq<Vec3<S>>,
    rotated: Seq<Seq<Vec3<S>>>,
    steps: nat,
    zero: S,
) -> Seq<FacetView<S>>
    decreases steps,
{
    if steps == 0 {
        Seq::empty()
    } else {
        revolution_view(path, rotated, (steps - 1) as nat, zero) + slice_view(
            ring(path, rotated, steps - 1),
            ring(path, rotated, steps as int),
            zero,
        )
    }
}

impl<S: Copy + Default> Revolution<S> {
    /// The surface of `path` in `resolution` steps, not yet in a vertex
    /// buffer.
    pub fn new(path: Vec<Vec3<S>>, resolution: u16, translate: Vec3<S>) -> (r: Self)
        ensures
            r == (Revolution { path, resolution, vert_start: 0, num_verts: 0, translate }),
    {
        Revolution { path, resolution, vert_start: 0, num_verts: 0, translate }
    }

    /// Lays the surface into the vertex buffer at `vertex_start`: returns
    /// its strips, step after step, and notes where it starts and how many
    /// vertices it has. `rotated` holds the path after one step, after two
    /// steps, and so on, up to the whole turn.
    pub fn buffer_data(&mut self, vertex_start: i32, rotated: &[Vec<Vec3<S>>]) -> (facets: Vec<
        Facet<S>,
    >)
        requires
            old(self).resolution > 0 ==> old(self).path@.len() >= 1,
            rotated@.len() == old(self).resolution,
            forall|s: int|
                0 <= s < rotated@.len() ==> (#[trigger] rotated@[s])@.len() == old(
                    self,
                ).path@.len(),
            6 * old(self).path@.len() * old(self).resolution <= i32::MAX,
        ensures
            exists|zero: S|
                is_zero(zero) && facets_view(facets@) == revolution_view(
                    old(self).path@,
                    rings_view(rotated@),
                    old(self).resolution as nat,
                    zero,
                ),
            vertex_count(facets_view(facets@)) == 6 * old(self).path@.len() * old(
                self,
            ).resolution,
            *final(self) == (Revolution {
                vert_start: vertex_start,
                num_verts: (6 * old(self).path@.len() * old(self).resolution) as i32,
                ..*old(self)
            }),
    {
        self.vert_start = vertex_start;
        let zero = S::default();
        let k = self.path.len();
        let steps = self.resolution as usize;
        let ghost path = self.path@;
        let ghost rings = rings_view(rotated@);
        let mut facets: Vec<Facet<S>> = Vec::new();
        let mut s: usize = 0;
        while s < steps
            invariant
                s <= steps,
                steps == self.resolution,
                steps == rotated@.len(),
                k == self.path@.len(),
                steps > 0 ==> k >= 1,
                path == self.path@,
                rings == rings_view(rotated@),
                is_zero(zero),
                forall|t: int| 0 <= t < rotated@.len() ==> (#[trigger] rotated@[t])@.len() == k,
                facets_view(facets@) == revolution_view(path, rings, s as nat, zero),
                vertex_count(facets_view(facets@)) == 6 * k * s,
            decreases steps - s,
        {
            let mut strip = if s == 0 {
                revolution_slice(self.path.as_slice(), rotated[s].as_slice(), zero)
            } else {
                revolution_slice(rotated[s - 1].as_slice(), rotated[s].as_slice(), zero)
            };
            proof {
                assert(facets_view(facets@ + strip@) =~= facets_view(facets@) + facets_view(
                    strip@,
                ));
                lemma_vertex_count_add(facets_view(facets@), facets_view(strip@));
                assert(6 * k * (s + 1) == 6 * k * s + 6 * k) by (nonlinear_arith);
            }
            facets.append(&mut strip);
            s += 1;
        }
        assert(k * steps <= 6 * k * steps && 6 * (k * steps) == 6 * k * steps)
            by (nonlinear_arith);
        self.num_verts = (6 * (k * steps)) as i32;
        facets
    }
}

} // verus!
