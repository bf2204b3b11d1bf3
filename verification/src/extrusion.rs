//! A polygon drawn out along a vector into a solid.

use crate::matrix::Vec3;
use crate::render::{
    facets_view, lemma_polygon_vertex_count, lemma_vertex_count_add, lemma_vertex_count_uniform,
    polygon, polygon_triangles, polygon_view, quad, quad_view, vertex_count, Facet, FacetView,
};
use vstd::prelude::*;

verus! {

/// A solid between a polygon and a copy of it that is moved along a vector.
#[derive(Debug)]
pub struct Extrusion<S> {
    /// The polygon at the bottom.
    pub points: Vec<Vec3<S>>,
    /// The vector from the bottom to the top.
    pub extrusion: Vec3<S>,
    /// Where the solid starts in the vertex buffer, in scalars.
    pub vert_start: i32,
    /// How many vertices the solid has in the vertex buffer.
    pub num_verts: i32,
    /// Where the solid stands.
    pub translate: Vec3<S>,
}

/// How many quadrilaterals stand around a solid over a polygon of `n`
/// points.
pub open spec fn side_quads(n: nat) -> nat {
    if n >= 2 {
        n
    } else {
        0
    }
}

/// The sides of the solid: a ring of as many quadrilaterals as the polygon
/// has points. Each stands on the edge from a point to the one that follows
/// it, and the last on the edge from the last point back to the first.
pub open spec fn sides_view<S>(base: Seq<Vec3<S>>, top: Seq<Vec3<S>>) -> Seq<FacetView<S>> {
    Seq::new(
        side_quads(base.len()),
        |j: int|
            {
                let next = (j + 1) % (base.len() as int);
                quad_view(top[j], base[j], base[next], top[next])
            },
    )
}

/// The surface of the solid: the bottom, the sides, the top.
pub open spec fn extrusion_view<S>(base: Seq<Vec3<S>>, top: Seq<Vec3<S>>) -> Seq<FacetView<S>> {
    polygon_view(base) + sides_view(base, top) + polygon_view(top)
}

/// The ring is closed: over a polygon of at least two points every side but
/// the last stands on the edge to the next point, and the last side joins
/// the last point to the first.
pub proof fn lemma_sides_ring<S>(base: Seq<Vec3<S>>, top: Seq<Vec3<S>>)
    requires
        base.len() >= 2,
        top.len() == base.len(),
    ensures
        sides_view(base, top).len() == base.len(),
        forall|i: int|
            0 <= i < base.len() - 1 ==> #[trigger] sides_view(base, top)[i] == quad_view(
                top[i],
                base[i],
                base[i + 1],
                top[i + 1],
            ),
        sides_view(base, top)[base.len() - 1] == quad_view(
            top[base.len() - 1],
            base[base.len() - 1],
            base[0],
            top[0],
        ),
{
    let n = base.len() as int;
    assert forall|i: int| 0 <= i < n - 1 implies #[trigger] sides_view(base, top)[i] == quad_view(
        top[i],
        base[i],
        base[i + 1],
        top[i + 1],
    ) by {
        vstd::arithmetic::div_mod::lemma_small_mod((i + 1) as nat, n as nat);
    }
    vstd::arithmetic::div_mod::lemma_mod_self_0(n);
}

/// How many vertices the surface of a solid over a polygon of `n` points
/// has: three for each triangle of the bottom and of the top, six for each
/// side.
pub open spec fn extrusion_vertices(n: nat) -> nat {
    2 * (3 * polygon_triangles(n)) + 6 * side_quads(n)
}

/// Over a polygon of at least two points the surface has `2 · 3 (n - 2)`
/// vertices in its bottom and its top and `6 n` in its sides.
pub proof fn lemma_extrusion_vertices(n: nat)
    requires
        n >= 2,
    ensures
        extrusion_vertices(n) == 2 * (3 * (n - 2)) + 6 * n,
{
}

/// The surface of a solid has the vertices of its bottom, its sides and its
/// top.
pub proof fn lemma_extrusion_vertex_count<S>(base: Seq<Vec3<S>>, top: Seq<Vec3<S>>)
    requires
        base.len() == top.len(),
    ensures
        vertex_count(extrusion_view(base, top)) == extrusion_vertices(base.len()),
{
    lemma_polygon_vertex_count(base);
    lemma_polygon_vertex_count(top);
    lemma_vertex_count_uniform(sides_view(base, top), 6);
    lemma_vertex_count_add(polygon_view(base), sides_view(base, top));
    lemma_vertex_count_add(polygon_view(base) + sides_view(base, top), polygon_view(top));
}

impl<S: Copy> Extrusion<S> {
    /// The solid over `points` along `extrusion`, not yet in a vertex buffer.
    pub fn new(points: Vec<Vec3<S>>, extrusion: Vec3<S>, translate: Vec3<S>) -> (e: Self)
        ensures
            e == (Extrusion { points, extrusion, vert_start: 0, num_verts: 0, translate }),
    {
        Extrusion { points, extrusion, vert_start: 0, num_verts: 0, translate }
    }

    /// Lays the solid into the vertex buffer at `vertex_start`: returns its
    /// surface between the polygon and `top_verts`, which are the points of
    /// the polygon moved along the vector, and notes where it starts and how
    /// many vertices it has.
    pub fn buffer_data(&mut self, vertex_start: i32, top_verts: &[Vec3<S>]) -> (facets: Vec<
        Facet<S>,
    >)
        requires
            top_verts@.len() == old(self).points@.len(),
            extrusion_vertices(old(self).points@.len()) <= i32::MAX,
        ensures
            facets_view(facets@) == extrusion_view(old(self).points@, top_verts@),
            vertex_count(facets_view(facets@)) == extrusion_vertices(old(self).points@.len()),
            *final(self) == (Extrusion {
                vert_start: vertex_start,
                num_verts: extrusion_vertices(old(self).points@.len()) as i32,
                ..*old(self)
            }),
    {
        self.vert_start = vertex_start;
        let n = self.points.len();
        let ghost base = self.points@;
        let ghost bottom = polygon_view(base);
        let ghost sides = sides_view(base, top_verts@);
        let mut facets = polygon(self.points.as_slice());
        if n >= 2 {
            let mut j: usize = 0;
            while j < n
                invariant
                    n >= 2,
                    n == self.points@.len(),
                    n == top_verts@.len(),
                    base == self.points@,
                    bottom == polygon_view(base),
                    sides == sides_view(base, top_verts@),
                    j <= n,
                    facets@.len() == bottom.len() + j,
                    forall|k: int| 0 <= k < bottom.len() ==> (#[trigger] facets@[k])@ == bottom[k],
                    forall|k: int|
                        bottom.len() <= k < bottom.len() + j ==> (#[trigger] facets@[k])@
                            == sides[k - bottom.len()],
                decreases n - j,
            {
                let next: usize = if j + 1 == n {
                    0
                } else {
                    j + 1
                };
                proof {
                    if j + 1 == n {
                        vstd::arithmetic::div_mod::lemma_mod_self_0(n as int);
                    } else {
                        vstd::arithmetic::div_mod::lemma_small_mod((j + 1) as nat, n as nat);
                    }
                }
                facets.push(
                    quad(top_verts[j], self.points[j], self.points[next], top_verts[next]),
                );
                j += 1;
            }
            assert(facets_view(facets@) =~= bottom + sides);
        }
        let mut top = polygon(top_verts);
        proof {
            assert(facets_view(facets@ + top@) =~= facets_view(facets@) + facets_view(top@));
            lemma_extrusion_vertex_count(base, top_verts@);
        }
        facets.append(&mut top);
        let triangles: usize = if n >= 3 {
            n - 2
        } else {
            0
        };
        let quads: usize = if n >= 2 {
            n
        } else {
            0
        };
        self.num_verts = (6 * triangles + 6 * quads) as i32;
        facets
    }
}

} // verus!
