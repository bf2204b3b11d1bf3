//! Vertices, flat-shaded facets, and the builders of the primitive shapes.
//!
//! A builder returns facets. A facet says which points make up its triangles
//! and from which loop of points its one normal is to be taken; the normal
//! itself is the caller's to compute.

use crate::matrix::{Vec2, Vec3};
use vstd::prelude::*;

verus! {

/// How many scalars a vertex takes in a vertex buffer.
pub const VERTEX_SIZE: usize = 8;

/// Where in the scalars of a vertex its position starts.
pub const POSITION_OFFSET: usize = 0;

/// Where in the scalars of a vertex its normal starts.
pub const NORMAL_OFFSET: usize = 3;

/// Where in the scalars of a vertex its texture point starts.
pub const TEXTURE_OFFSET: usize = 6;

/// A vertex of a triangle list.
#[derive(Clone, Copy, Debug)]
pub struct Vertex<S> {
    pub position: Vec3<S>,
    pub normal: Vec3<S>,
    pub texture: Vec2<S>,
}

/// The vertex at `position` with the given normal and no texture point of
/// its own: its texture point is the origin.
pub fn vertex<S: Default>(position: Vec3<S>, normal: Vec3<S>) -> (v: Vertex<S>)
    ensures
        v.position == position,
        v.normal == normal,
        v.texture.is_origin(),
{
    Vertex { position, normal, texture: Vec2::origin() }
}

impl<S: Copy> Vertex<S> {
    /// The scalars of a vertex as a vertex buffer holds them.
    pub open spec fn spec_to_data(&self) -> Seq<S> {
        seq![
            self.position.x,
            self.position.y,
            self.position.z,
            self.normal.x,
            self.normal.y,
            self.normal.z,
            self.texture.x,
            self.texture.y,
        ]
    }

    /// The position, the normal and the texture point of a vertex start at
    /// their offsets in its scalars, and the scalars end with the texture
    /// point.
    pub proof fn lemma_layout(&self)
        ensures
            self.spec_to_data().len() == VERTEX_SIZE,
            self.spec_to_data().subrange(POSITION_OFFSET as int, POSITION_OFFSET + 3) == seq![
                self.position.x,
                self.position.y,
                self.position.z,
            ],
            self.spec_to_data().subrange(NORMAL_OFFSET as int, NORMAL_OFFSET + 3) == seq![
                self.normal.x,
                self.normal.y,
                self.normal.z,
            ],
            self.spec_to_data().subrange(TEXTURE_OFFSET as int, TEXTURE_OFFSET + 2) == seq![
                self.texture.x,
                self.texture.y,
            ],
    {
        let data = self.spec_to_data();
        assert(data.subrange(0, 3) =~= seq![self.position.x, self.position.y, self.position.z]);
        assert(data.subrange(3, 6) =~= seq![self.normal.x, self.normal.y, self.normal.z]);
        assert(data.subrange(6, 8) =~= seq![self.texture.x, self.texture.y]);
    }

    /// The scalars of the vertex as a vertex buffer holds them: position,
    /// then normal, then texture point.
    pub fn to_data(&self) -> (data: [S; 8])
        ensures
            data@ == self.spec_to_data(),
    {
        let data = [
            self.position.x,
            self.position.y,
            self.position.z,
            self.normal.x,
            self.normal.y,
            self.normal.z,
            self.texture.x,
            self.texture.y,
        ];
        data
    }
}

/// A flat piece of a surface: one or more triangles that share one normal.
#[derive(Debug)]
pub struct Facet<S> {
    /// The loop of points around the facet. The facet's normal is that of
    /// this loop.
    pub outline: Vec<Vec3<S>>,
    /// The corners of the facet's triangles, three for each triangle.
    pub corners: Vec<Vec3<S>>,
}

/// What a facet holds.
pub ghost struct FacetView<S> {
    pub outline: Seq<Vec3<S>>,
    pub corners: Seq<Vec3<S>>,
}

impl<S> View for Facet<S> {
    type V = FacetView<S>;

    open spec fn view(&self) -> FacetView<S> {
        FacetView { outline: self.outline@, corners: self.corners@ }
    }
}

/// What each facet of `facets` holds.
pub open spec fn facets_view<S>(facets: Seq<Facet<S>>) -> Seq<FacetView<S>> {
    facets.map_values(|f: Facet<S>| f@)
}

/// How many vertices the triangles of `facets` have.
pub open spec fn vertex_count<S>(facets: Seq<FacetView<S>>) -> nat
    decreases facets.len(),
{
    if facets.len() == 0 {
        0
    } else {
        vertex_count(facets.drop_last()) + facets.last().corners.len()
    }
}

/// The corners of the triangles of `facets`, facet after facet.
pub open spec fn all_corners<S>(facets: Seq<FacetView<S>>) -> Seq<Vec3<S>>
    decreases facets.len(),
{
    if facets.len() == 0 {
        Seq::empty()
    } else {
        all_corners(facets.drop_last()) + facets.last().corners
    }
}

/// There are as many corners as vertices.
pub proof fn lemma_all_corners_len<S>(facets: Seq<FacetView<S>>)
    ensures
        all_corners(facets).len() == vertex_count(facets),
    decreases facets.len(),
{
    if facets.len() > 0 {
        lemma_all_corners_len(facets.drop_last());
    }
}

/// The vertices of facets one after the other are those of the first and
/// those of the second.
pub proof fn lemma_vertex_count_add<S>(a: Seq<FacetView<S>>, b: Seq<FacetView<S>>)
    ensures
        vertex_count(a + b) == vertex_count(a) + vertex_count(b),
    decreases b.len(),
{
    if b.len() == 0 {
    } else {
        assert((a + b).drop_last() =~= a + b.drop_last());
        lemma_vertex_count_add(a, b.drop_last());
    }
}

impl<S: Copy + Default> Facet<S> {
    /// The vertices of the facet's triangles, each with the given normal and
    /// the origin for its texture point.
    pub fn vertices(&self, normal: Vec3<S>) -> (vertices: Vec<Vertex<S>>)
        ensures
            vertices@.len() == self@.corners.len(),
            forall|i: int|
                0 <= i < vertices@.len() ==> {
                    &&& (#[trigger] vertices@[i]).position == self@.corners[i]
                    &&& vertices@[i].normal == normal
                    &&& vertices@[i].texture.is_origin()
                },
    {
        let mut vertices: Vec<Vertex<S>> = Vec::new();
        let mut i: usize = 0;
        while i < self.corners.len()
            invariant
                i <= self.corners.len(),
                vertices@.len() == i,
                forall|k: int|
                    0 <= k < i ==> {
                        &&& (#[trigger] vertices@[k]).position == self@.corners[k]
                        &&& vertices@[k].normal == normal
                        &&& vertices@[k].texture.is_origin()
                    },
            decreases self.corners.len() - i,
        {
            vertices.push(vertex(self.corners[i], normal));
            i += 1;
        }
        vertices
    }
}

/// The triangle `a`, `b`, `c`.
pub open spec fn tri_view<S>(a: Vec3<S>, b: Vec3<S>, c: Vec3<S>) -> FacetView<S> {
    FacetView { outline: seq![a, b, c], corners: seq![a, b, c] }
}

/// The triangle `a`, `b`, `c`.
pub fn tri<S: Copy>(a: Vec3<S>, b: Vec3<S>, c: Vec3<S>) -> (f: Facet<S>)
    ensures
        f@ == tri_view(a, b, c),
{
    let mut outline: Vec<Vec3<S>> = Vec::new();
    outline.push(a);
    outline.push(b);
    outline.push(c);
    let mut corners: Vec<Vec3<S>> = Vec::new();
    corners.push(a);
    corners.push(b);
    corners.push(c);
    let f = Facet { outline, corners };
    assert(f@.corners =~= seq![a, b, c]);
    f
}

/// The quadrilateral `a`, `b`, `c`, `d`, cut along `a`-`c` into the
/// triangles `a`, `b`, `c` and `c`, `d`, `a`.
pub open spec fn quad_view<S>(a: Vec3<S>, b: Vec3<S>, c: Vec3<S>, d: Vec3<S>) -> FacetView<S> {
    FacetView { outline: seq![a, b, c, d], corners: seq![a, b, c, c, d, a] }
}

/// The quadrilateral with the corners `a`, `b`, `c`, `d` in this order
/// around it, as two triangles with one normal: that of the loop of all four.
pub fn quad<S: Copy>(a: Vec3<S>, b: Vec3<S>, c: Vec3<S>, d: Vec3<S>) -> (f: Facet<S>)
    ensures
        f@ == quad_view(a, b, c, d),
{
    let mut outline: Vec<Vec3<S>> = Vec::new();
    outline.push(a);
    outline.push(b);
    outline.push(c);
    outline.push(d);
    let mut corners: Vec<Vec3<S>> = Vec::new();
    corners.push(a);
    corners.push(b);
    corners.push(c);
    corners.push(c);
    corners.push(d);
    corners.push(a);
    let f = Facet { outline, corners };
    assert(f@.outline =~= seq![a, b, c, d]);
    assert(f@.corners =~= seq![a, b, c, c, d, a]);
    f
}

/// How many triangles cover a polygon of `n` points.
pub open spec fn polygon_triangles(n: nat) -> nat {
    if n >= 3 {
        (n - 2) as nat
    } else {
        0
    }
}

/// The triangles of a polygon: one for every three points that follow one
/// another, starting at the first, the second, and so on.
pub open spec fn polygon_view<S>(points: Seq<Vec3<S>>) -> Seq<FacetView<S>> {
    Seq::new(
        polygon_triangles(points.len()),
        |i: int| tri_view(points[i], points[i + 1], points[i + 2]),
    )
}

/// A polygon of `n` points has three vertices for each of its triangles.
pub proof fn lemma_polygon_vertex_count<S>(points: Seq<Vec3<S>>)
    ensures
        vertex_count(polygon_view(points)) == 3 * polygon_triangles(points.len()),
{
    lemma_vertex_count_uniform(polygon_view(points), 3);
}

/// Facets of `k` vertices each have `k` vertices for each facet.
pub proof fn lemma_vertex_count_uniform<S>(facets: Seq<FacetView<S>>, k: nat)
    requires
        forall|i: int| 0 <= i < facets.len() ==> (#[trigger] facets[i]).corners.len() == k,
    ensures
        vertex_count(facets) == k * facets.len(),
    decreases facets.len(),
{
    if facets.len() > 0 {
        let before = facets.drop_last();
        assert forall|i: int| 0 <= i < before.len() implies (#[trigger] before[i]).corners.len()
            == k by {}
        lemma_vertex_count_uniform(before, k);
        assert(k * facets.len() == k * before.len() + k) by (nonlinear_arith)
            requires
                facets.len() == before.len() + 1,
        ;
    }
}

/// Covers a polygon with triangles, one for every three of its points that
/// follow one another. Each triangle has its own normal.
pub fn polygon<S: Copy>(vertices: &[Vec3<S>]) -> (facets: Vec<Facet<S>>)
    ensures
        facets_view(facets@) == polygon_view(vertices@),
        vertex_count(facets_view(facets@)) == 3 * polygon_triangles(vertices@.len()),
{
    let mut facets: Vec<Facet<S>> = Vec::new();
    let n = vertices.len();
    let mut i: usize = 0;
    while i + 2 < n
        invariant
            n == vertices@.len(),
            i <= polygon_triangles(n as nat),
            facets@.len() == i,
            forall|k: int|
                0 <= k < i ==> (#[trigger] facets@[k])@ == tri_view(
                    vertices@[k],
                    vertices@[k + 1],
                    vertices@[k + 2],
                ),
        decreases n - i,
    {
        facets.push(tri(vertices[i], vertices[i + 1], vertices[i + 2]));
        i += 1;
    }
    proof {
        lemma_polygon_vertex_count(vertices@);
    }
    facets
}

/// Each point of a loop with the one that follows it, the last with the
/// first.
pub open spec fn cyclic_pairs_view<S>(points: Seq<Vec3<S>>) -> Seq<(Vec3<S>, Vec3<S>)> {
    Seq::new(points.len(), |i: int| (points[i], points[(i + 1) % (points.len() as int)]))
}

/// The pairs of points over which the normal of a loop is summed: each
/// point with the next one, and the last with the first.
pub fn cyclic_pairs<S: Copy>(points: &[Vec3<S>]) -> (pairs: Vec<(Vec3<S>, Vec3<S>)>)
    ensures
        pairs@ == cyclic_pairs_view(points@),
{
    let mut pairs: Vec<(Vec3<S>, Vec3<S>)> = Vec::new();
    let n = points.len();
    let mut i: usize = 0;
    while i < n
        invariant
            n == points@.len(),
            i <= n,
            pairs@.len() == i,
            forall|k: int|
                0 <= k < i ==> #[trigger] pairs@[k] == (
                    points@[k],
                    points@[(k + 1) % (n as int)],
                ),
        decreases n - i,
    {
        let next: usize = if i + 1 == n {
            0
        } else {
            i + 1
        };
        proof {
            if i + 1 == n {
                vstd::arithmetic::div_mod::lemma_mod_self_0(n as int);
            } else {
                vstd::arithmetic::div_mod::lemma_small_mod((i + 1) as nat, n as nat);
            }
        }
        pairs.push((points[i], points[next]));
        i += 1;
    }
    pairs
}

/// The loop `s`, started at its entry `k`.
pub open spec fn turned<A>(s: Seq<A>, k: int) -> Seq<A> {
    s.skip(k) + s.take(k)
}

/// The remainder of a number below twice the modulus.
proof fn lemma_mod_below_twice(x: int, n: int)
    requires
        0 <= x < 2 * n,
    ensures
        x % n == (if x < n {
            x
        } else {
            x - n
        }),
{
    if x < n {
        vstd::arithmetic::div_mod::lemma_small_mod(x as nat, n as nat);
    } else {
        vstd::arithmetic::div_mod::lemma_mod_sub_multiples_vanish(x, n);
        vstd::arithmetic::div_mod::lemma_small_mod((x - n) as nat, n as nat);
    }
}

/// The pairs of a loop do not depend on the point at which the loop is
/// started: started at another point, the loop has the same pairs, started
/// at the pair of that point. So a sum over the pairs that does not depend
/// on their order is the same for every start.
pub proof fn lemma_cyclic_pairs_turned<S>(points: Seq<Vec3<S>>, k: int)
    requires
        0 <= k <= points.len(),
    ensures
        cyclic_pairs_view(turned(points, k)) == turned(cyclic_pairs_view(points), k),
{
    let n = points.len() as int;
    let t = turned(points, k);
    let left = cyclic_pairs_view(t);
    let right = turned(cyclic_pairs_view(points), k);
    assert forall|i: int| 0 <= i < n implies left[i] == right[i] by {
        let at = if i < n - k {
            i + k
        } else {
            i - (n - k)
        };
        lemma_mod_below_twice(i + 1, n);
        lemma_mod_below_twice(at + 1, n);
    }
}

/// A point of the outline of a star.
#[derive(Clone, Copy, Debug, PartialEq, Eq, Structural)]
pub enum StarPoint {
    /// On the inner circle, at the given step around it.
    Inner(u16),
    /// On the outer circle, at the given step around it.
    Outer(u16),
    /// The centre of the star.
    Center,
}

/// The outline of a star: for each step from 0 up to `num_points`, a point
/// of the inner circle, one of the outer circle, and the centre.
pub open spec fn star_view(num_points: u16) -> Seq<StarPoint> {
    Seq::new(
        3 * (num_points + 1) as nat,
        |k: int|
            if k % 3 == 0 {
                StarPoint::Inner((k / 3) as u16)
            } else if k % 3 == 1 {
                StarPoint::Outer((k / 3) as u16)
            } else {
                StarPoint::Center
            },
    )
}

/// The outline of a star with `num_points` points: which point stands
/// where. The points are the caller's to place: the inner point of step `i`
/// at the angle of `i` times twice `π / num_points`, the outer point of the
/// step one radian further, the centre at the origin.
pub fn star(num_points: u16) -> (points: Vec<StarPoint>)
    ensures
        points@ == star_view(num_points),
        points@.len() == 3 * (num_points + 1),
{
    let mut points: Vec<StarPoint> = Vec::new();
    let steps: u32 = num_points as u32 + 1;
    let mut i: u32 = 0;
    while i < steps
        invariant
            steps == num_points + 1,
            i <= steps,
            points@.len() == 3 * i,
            forall|k: int| 0 <= k < 3 * i ==> #[trigger] points@[k] == star_view(num_points)[k],
        decreases steps - i,
    {
        points.push(StarPoint::Inner(i as u16));
        points.push(StarPoint::Outer(i as u16));
        points.push(StarPoint::Center);
        i += 1;
    }
    points
}

/// The six faces of a box between the planes `left` and `right` across,
/// `bottom` and `top` upwards, and `front` and `back` in depth: front, back,
/// left, right, top and bottom, each a quadrilateral.
pub open spec fn prism_view<S>(left: S, right: S, bottom: S, top: S, front: S, back: S) -> Seq<
    FacetView<S>,
> {
    let ftl = Vec3 { x: left, y: top, z: front };
    let fbl = Vec3 { x: left, y: bottom, z: front };
    let fbr = Vec3 { x: right, y: bottom, z: front };
    let ftr = Vec3 { x: right, y: top, z: front };
    let btl = Vec3 { x: left, y: top, z: back };
    let bbl = Vec3 { x: left, y: bottom, z: back };
    let bbr = Vec3 { x: right, y: bottom, z: back };
    let btr = Vec3 { x: right, y: top, z: back };
    seq![
        quad_view(ftl, fbl, fbr, ftr),
        quad_view(btr, bbr, bbl, btl),
        quad_view(btl, bbl, fbl, ftl),
        quad_view(ftr, fbr, bbr, btr),
        quad_view(btl, ftl, ftr, btr),
        quad_view(fbl, bbl, bbr, fbr),
    ]
}

/// The surface of a box between six planes. For a box of a given width
/// across, depth upwards and height in depth around a centre, the planes
/// lie half of each to either side of the centre. No two faces share a
/// vertex, so that each face has its own normal.
pub fn rectangular_prism<S: Copy>(left: S, right: S, bottom: S, top: S, front: S, back: S) -> (facets:
    Vec<Facet<S>>)
    ensures
        facets_view(facets@) == prism_view(left, right, bottom, top, front, back),
        vertex_count(facets_view(facets@)) == 36,
{
    let ftl = Vec3 { x: left, y: top, z: front };
    let fbl = Vec3 { x: left, y: bottom, z: front };
    let fbr = Vec3 { x: right, y: bottom, z: front };
    let ftr = Vec3 { x: right, y: top, z: front };
    let btl = Vec3 { x: left, y: top, z: back };
    let bbl = Vec3 { x: left, y: bottom, z: back };
    let bbr = Vec3 { x: right, y: bottom, z: back };
    let btr = Vec3 { x: right, y: top, z: back };
    let mut facets: Vec<Facet<S>> = Vec::new();
    facets.push(quad(ftl, fbl, fbr, ftr));
    facets.push(quad(btr, bbr, bbl, btl));
    facets.push(quad(btl, bbl, fbl, ftl));
    facets.push(quad(ftr, fbr, bbr, btr));
    facets.push(quad(btl, ftl, ftr, btr));
    facets.push(quad(fbl, bbl, bbr, fbr));
    proof {
        lemma_vertex_count_uniform(facets_view(facets@), 6);
    }
    facets
}

/// A box with its faces along the axes, given by the planes of its faces:
/// `left` and `right` across, `bottom` and `top` upwards, `front` and `back`
/// in depth.
#[derive(Clone, Copy, Debug, PartialEq)]
pub struct Cuboid<S> {
    pub left: S,
    pub right: S,
    pub bottom: S,
    pub top: S,
    pub front: S,
    pub back: S,
}

/// The faces of the given boxes, box after box.
pub open spec fn prisms_view<S>(boxes: Seq<Cuboid<S>>) -> Seq<FacetView<S>>
    decreases boxes.len(),
{
    if boxes.len() == 0 {
        Seq::empty()
    } else {
        let b = boxes.last();
        prisms_view(boxes.drop_last()) + prism_view(
            b.left,
            b.right,
            b.bottom,
            b.top,
            b.front,
            b.back,
        )
    }
}

/// The surfaces of the given boxes, box after box: six faces and 36
/// vertices for each.
pub fn prisms<S: Copy>(boxes: &[Cuboid<S>]) -> (facets: Vec<Facet<S>>)
    ensures
        facets_view(facets@) == prisms_view(boxes@),
        facets@.len() == 6 * boxes@.len(),
        vertex_count(facets_view(facets@)) == 36 * boxes@.len(),
{
    let mut facets: Vec<Facet<S>> = Vec::new();
    let mut i: usize = 0;
    while i < boxes.len()
        invariant
            i <= boxes@.len(),
            facets_view(facets@) == prisms_view(boxes@.take(i as int)),
            facets@.len() == 6 * i,
            vertex_count(facets_view(facets@)) == 36 * i,
        decreases boxes.len() - i,
    {
        let b = boxes[i];
        let mut faces = rectangular_prism(b.left, b.right, b.bottom, b.top, b.front, b.back);
        proof {
            assert(boxes@.take(i + 1).drop_last() =~= boxes@.take(i as int));
            assert(facets_view(facets@ + faces@) =~= facets_view(facets@) + facets_view(faces@));
            lemma_vertex_count_add(facets_view(facets@), facets_view(faces@));
        }
        facets.append(&mut faces);
        i += 1;
    }
    assert(boxes@.take(boxes@.len() as int) =~= boxes@);
    facets
}

/// The sum of the points of `points`, coordinate by coordinate.
pub open spec fn sum(points: Seq<Vec3<int>>) -> Vec3<int>
    decreases points.len(),
{
    if points.len() == 0 {
        Vec3 { x: 0, y: 0, z: 0 }
    } else {
        let before = sum(points.drop_last());
        let p = points.last();
        Vec3 { x: before.x + p.x, y: before.y + p.y, z: before.z + p.z }
    }
}

/// The sum of points one after the other is the sum of the two sums.
pub proof fn lemma_sum_add(a: Seq<Vec3<int>>, b: Seq<Vec3<int>>)
    ensures
        sum(a + b).x == sum(a).x + sum(b).x,
        sum(a + b).y == sum(a).y + sum(b).y,
        sum(a + b).z == sum(a).z + sum(b).z,
    decreases b.len(),
{
    if b.len() == 0 {
    } else {
        assert((a + b).drop_last() =~= a + b.drop_last());
        lemma_sum_add(a, b.drop_last());
    }
}

/// The corners of a quadrilateral add up to its four points, the two on
/// the cut counted twice.
proof fn lemma_quad_sum(a: Vec3<int>, b: Vec3<int>, c: Vec3<int>, d: Vec3<int>)
    ensures
        sum(quad_view(a, b, c, d).corners).x == 2 * a.x + b.x + 2 * c.x + d.x,
        sum(quad_view(a, b, c, d).corners).y == 2 * a.y + b.y + 2 * c.y + d.y,
        sum(quad_view(a, b, c, d).corners).z == 2 * a.z + b.z + 2 * c.z + d.z,
{
    reveal_with_fuel(sum, 7);
}

/// The corners of facets and one more are those of the facets and, after
/// them, those of the one.
proof fn lemma_sum_push(facets: Seq<FacetView<int>>, k: int)
    requires
        0 <= k < facets.len(),
    ensures
        sum(all_corners(facets.take(k + 1))).x == sum(all_corners(facets.take(k))).x + sum(
            facets[k].corners,
        ).x,
        sum(all_corners(facets.take(k + 1))).y == sum(all_corners(facets.take(k))).y + sum(
            facets[k].corners,
        ).y,
        sum(all_corners(facets.take(k + 1))).z == sum(all_corners(facets.take(k))).z + sum(
            facets[k].corners,
        ).z,
{
    assert(facets.take(k + 1).drop_last() =~= facets.take(k));
    lemma_sum_add(all_corners(facets.take(k)), facets[k].corners);
}

/// In exact arithmetic the 36 positions that `rectangular_prism` emits add
/// up, on every axis, to 18 times the sum of the two planes across that
/// axis.
pub proof fn lemma_prism_sum(left: int, right: int, bottom: int, top: int, front: int, back: int)
    ensures
        ({
            let positions = all_corners(prism_view(left, right, bottom, top, front, back));
            &&& positions.len() == 36
            &&& sum(positions) == (Vec3 {
                x: 18 * (left + right),
                y: 18 * (bottom + top),
                z: 18 * (front + back),
            })
        }),
{
    let facets = prism_view(left, right, bottom, top, front, back);
    lemma_vertex_count_uniform(facets, 6);
    lemma_all_corners_len(facets);
    let ftl = Vec3 { x: left, y: top, z: front };
    let fbl = Vec3 { x: left, y: bottom, z: front };
    let fbr = Vec3 { x: right, y: bottom, z: front };
    let ftr = Vec3 { x: right, y: top, z: front };
    let btl = Vec3 { x: left, y: top, z: back };
    let bbl = Vec3 { x: left, y: bottom, z: back };
    let bbr = Vec3 { x: right, y: bottom, z: back };
    let btr = Vec3 { x: right, y: top, z: back };
    lemma_quad_sum(ftl, fbl, fbr, ftr);
    lemma_quad_sum(btr, bbr, bbl, btl);
    lemma_quad_sum(btl, bbl, fbl, ftl);
    lemma_quad_sum(ftr, fbr, bbr, btr);
    lemma_quad_sum(btl, ftl, ftr, btr);
    lemma_quad_sum(fbl, bbl, bbr, fbr);
    lemma_sum_push(facets, 0);
    lemma_sum_push(facets, 1);
    lemma_sum_push(facets, 2);
    lemma_sum_push(facets, 3);
    lemma_sum_push(facets, 4);
    lemma_sum_push(facets, 5);
    assert(facets.take(6) =~= facets);
}

/// The vertices of a box lie evenly around its centre: in exact arithmetic
/// the 36 positions that `rectangular_prism` emits for the planes at
/// `half_x`, `half_y` and `half_z` to either side of `center` add up to 36
/// times the centre, so that their mean is the centre.
pub proof fn lemma_prism_centroid(center: Vec3<int>, half_x: int, half_y: int, half_z: int)
    ensures
        ({
            let positions = all_corners(
                prism_view(
                    center.x - half_x,
                    center.x + half_x,
                    center.y - half_y,
                    center.y + half_y,
                    center.z - half_z,
                    center.z + half_z,
                ),
            );
            &&& positions.len() == 36
            &&& sum(positions) == (Vec3 { x: 36 * center.x, y: 36 * center.y, z: 36 * center.z })
        }),
{
    lemma_prism_sum(
        center.x - half_x,
        center.x + half_x,
        center.y - half_y,
        center.y + half_y,
        center.z - half_z,
        center.z + half_z,
    );
}

/// On which plane of each pair every one of the 36 positions of a box lies:
/// `false` for left, bottom and front, `true` for right, top and back.
pub open spec fn prism_sides() -> Seq<Vec3<bool>> {
    all_corners(prism_view(false, true, false, true, false, true))
}

/// The point on the planes that `side` names.
pub open spec fn placed<S>(
    side: Vec3<bool>,
    left: S,
    right: S,
    bottom: S,
    top: S,
    front: S,
    back: S,
) -> Vec3<S> {
    Vec3 {
        x: if side.x {
            right
        } else {
            left
        },
        y: if side.y {
            top
        } else {
            bottom
        },
        z: if side.z {
            back
        } else {
            front
        },
    }
}

/// Facets whose corners are those of other facets, each moved by `g`, have
/// together the corners of the others, each moved by `g`.
proof fn lemma_all_corners_map<A, B>(
    a: Seq<FacetView<A>>,
    b: Seq<FacetView<B>>,
    g: spec_fn(Vec3<A>) -> Vec3<B>,
)
    requires
        a.len() == b.len(),
        forall|k: int| 0 <= k < a.len() ==> (#[trigger] a[k]).corners.map_values(g) == b[k].corners,
    ensures
        all_corners(a).map_values(g) == all_corners(b),
    decreases a.len(),
{
    if a.len() == 0 {
        assert(all_corners(a).map_values(g) =~= all_corners(b));
    } else {
        let a0 = a.drop_last();
        let b0 = b.drop_last();
        assert forall|k: int| 0 <= k < a0.len() implies (#[trigger] a0[k]).corners.map_values(g)
            == b0[k].corners by {
            assert(a0[k] == a[k]);
        }
        lemma_all_corners_map(a0, b0, g);
        assert(a.last() == a[a.len() - 1]);
        assert((all_corners(a0) + a.last().corners).map_values(g) =~= all_corners(a0).map_values(g)
            + a.last().corners.map_values(g));
    }
}

/// The vertices of a box lie evenly around it, whatever the scalars are:
/// the 36 positions that `rectangular_prism` emits lie on the planes that
/// `prism_sides` names, and of those 18 are on either plane of each pair.
/// So in any arithmetic in which the sum is exact their mean lies midway
/// between the planes, on every axis.
pub proof fn lemma_prism_balanced<S>(left: S, right: S, bottom: S, top: S, front: S, back: S)
    ensures
        prism_sides().len() == 36,
        all_corners(prism_view(left, right, bottom, top, front, back)) == prism_sides().map_values(
            |side: Vec3<bool>| placed(side, left, right, bottom, top, front, back),
        ),
        sum(
            prism_sides().map_values(
                |side: Vec3<bool>| placed(side, 0int, 1int, 0int, 1int, 0int, 1int),
            ),
        ) == (Vec3 { x: 18int, y: 18int, z: 18int }),
{
    let sides = prism_view(false, true, false, true, false, true);
    lemma_vertex_count_uniform(sides, 6);
    lemma_all_corners_len(sides);
    let g = |side: Vec3<bool>| placed(side, left, right, bottom, top, front, back);
    let facets = prism_view(left, right, bottom, top, front, back);
    assert forall|k: int| 0 <= k < 6 implies (#[trigger] sides[k]).corners.map_values(g)
        =~= facets[k].corners by {}
    lemma_all_corners_map(sides, facets, g);
    let h = |side: Vec3<bool>| placed(side, 0int, 1int, 0int, 1int, 0int, 1int);
    let units = prism_view(0int, 1int, 0int, 1int, 0int, 1int);
    assert forall|k: int| 0 <= k < 6 implies (#[trigger] sides[k]).corners.map_values(h)
        =~= units[k].corners by {}
    lemma_all_corners_map(sides, units, h);
    lemma_prism_sum(0, 1, 0, 1, 0, 1);
}

/// The name of the first texture unit, gleam's `gl::TEXTURE0`. The OpenGL
/// registry that gleam's bindings are generated from gives it the value
/// 0x84C0.
#[verifier::external_body]
fn texture0() -> (unit: u32)
    ensures
        unit == 0x84C0,
{
    gleam::gl::TEXTURE0
}

/// The name of the texture unit with the given number. There are 32 units,
/// and their names follow one another.
pub fn get_tex_const(index: u8) -> (unit: u32)
    requires
        index < 32,
    ensures
        unit == 0x84C0 + index,
{
    texture0() + index as u32
}

} // verus!
