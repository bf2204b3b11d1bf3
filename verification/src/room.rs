//! The corner of a room: two walls and the floor.

use crate::matrix::{is_zero, Vec3};
use crate::render::{
    facets_view, lemma_vertex_count_uniform, quad, quad_view, vertex_count, Facet, FacetView,
};
use vstd::prelude::*;

verus! {

/// Two walls and the floor between them. The corner where they meet is the
/// origin.
#[derive(Clone, Copy, Debug)]
pub struct Room<S> {
    /// How far the left wall and the floor reach in depth.
    pub room_width: S,
    /// How high the walls are.
    pub room_height: S,
    /// How far the right wall and the floor reach across.
    pub room_depth: S,
    /// Where the room starts in the vertex buffer, in scalars.
    pub vert_start: i32,
    /// How many vertices the room has in the vertex buffer.
    pub num_verts: i32,
}

/// The left wall, the right wall and the floor of a room, with `zero` for
/// the coordinates of the corner.
pub open spec fn room_view<S>(width: S, height: S, depth: S, zero: S) -> Seq<FacetView<S>> {
    let ltl = Vec3 { x: zero, y: height, z: width };
    let lbr = Vec3 { x: zero, y: zero, z: width };
    let mb = Vec3 { x: zero, y: zero, z: zero };
    let mt = Vec3 { x: zero, y: height, z: zero };
    let rbr = Vec3 { x: depth, y: zero, z: zero };
    let rtr = Vec3 { x: depth, y: height, z: zero };
    let mf = Vec3 { x: depth, y: zero, z: width };
    seq![quad_view(ltl, lbr, mb, mt), quad_view(mt, mb, rbr, rtr), quad_view(mb, lbr, mf, rbr)]
}

impl<S: Copy + Default> Room<S> {
    /// The room of the given size, not yet in a vertex buffer.
    pub fn new(room_width: S, room_height: S, room_depth: S) -> (r: Self)
        ensures
            r == (Room { room_width, room_height, room_depth, vert_start: 0, num_verts: 0 }),
    {
        Room { room_width, room_height, room_depth, vert_start: 0, num_verts: 0 }
    }

    /// Lays the room into the vertex buffer at `vertex_start`: returns its
    /// two walls and its floor, and notes where it starts and that it has 18
    /// vertices.
    pub fn buffer_data(&mut self, vertex_start: i32) -> (facets: Vec<Facet<S>>)
        ensures
            exists|zero: S|
                is_zero(zero) && facets_view(facets@) == room_view(
                    old(self).room_width,
                    old(self).room_height,
                    old(self).room_depth,
                    zero,
                ),
            vertex_count(facets_view(facets@)) == 18,
            *final(self) == (Room { vert_start: vertex_start, num_verts: 18, ..*old(self) }),
    {
        self.vert_start = vertex_start;
        let zero = S::default();
        let ltl = Vec3 { x: zero, y: self.room_height, z: self.room_width };
        let lbr = Vec3 { x: zero, y: zero, z: self.room_width };
        let mb = Vec3 { x: zero, y: zero, z: zero };
        let mt = Vec3 { x: zero, y: self.room_height, z: zero };
        let rbr = Vec3 { x: self.room_depth, y: zero, z: zero };
        let rtr = Vec3 { x: self.room_depth, y: self.room_height, z: zero };
        let mf = Vec3 { x: self.room_depth, y: zero, z: self.room_width };
        let mut facets: Vec<Facet<S>> = Vec::new();
        facets.push(quad(ltl, lbr, mb, mt));
        facets.push(quad(mt, mb, rbr, rtr));
        facets.push(quad(mb, lbr, mf, rbr));
        proof {
            assert(facets_view(facets@) =~= room_view(
                self.room_width,
                self.room_height,
                self.room_depth,
                zero,
            ));
            lemma_vertex_count_uniform(facets_view(facets@), 6);
        }
        self.num_verts = 18;
        assert(is_zero(zero) && facets_view(facets@) == room_view(
            old(self).room_width,
            old(self).room_height,
            old(self).room_depth,
            zero,
        ));
        facets
    }
}

} // verus!
