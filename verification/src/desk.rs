//! A desk: a top on four legs.

use crate::matrix::Vec3;
use crate::render::{facets_view, prisms, prisms_view, vertex_count, Cuboid, Facet};
use vstd::prelude::*;

verus! {

/// A desk made of five boxes: the top and four legs.
#[derive(Clone, Copy, Debug)]
pub struct Desk<S> {
    /// How far the top reaches across.
    pub top_width: S,
    /// How far the top reaches in depth.
    pub top_height: S,
    /// How thick the top is.
    pub top_depth: S,
    /// How far a leg reaches across.
    pub leg_width: S,
    /// How far a leg reaches in depth.
    pub leg_height: S,
    /// How long a leg is.
    pub leg_depth: S,
    /// Where the desk starts in the vertex buffer, in scalars.
    pub vert_start: i32,
    /// How many vertices the desk has in the vertex buffer.
    pub num_verts: i32,
    /// Where the desk stands.
    pub translate: Vec3<S>,
}

impl<S: Copy> Desk<S> {
    /// The desk of the given sizes, not yet in a vertex buffer.
    pub fn new(
        top_width: S,
        top_height: S,
        top_depth: S,
        leg_width: S,
        leg_height: S,
        leg_depth: S,
        translate: Vec3<S>,
    ) -> (c: Self)
        ensures
            c == (Desk {
                top_width,
                top_height,
                top_depth,
                leg_width,
                leg_height,
                leg_depth,
                vert_start: 0,
                num_verts: 0,
                translate,
            }),
    {
        Desk {
            top_width,
            top_height,
            top_depth,
            leg_width,
            leg_height,
            leg_depth,
            vert_start: 0,
            num_verts: 0,
            translate,
        }
    }

    /// Lays the desk into the vertex buffer at `vertex_start`: returns the
    /// surfaces of its five parts, and notes where it starts and that it has
    /// 180 vertices. `parts` holds the top, then the legs: near left, near
    /// right, far left, far right.
    pub fn buffer_data(&mut self, vertex_start: i32, parts: &[Cuboid<S>; 5]) -> (facets: Vec<
        Facet<S>,
    >)
        ensures
            facets_view(facets@) == prisms_view(parts@),
            facets@.len() == 30,
            vertex_count(facets_view(facets@)) == 180,
            *final(self) == (Desk { vert_start: vertex_start, num_verts: 180, ..*old(self) }),
    {
        self.vert_start = vertex_start;
        let facets = prisms(parts.as_slice());
        self.num_verts = 180;
        facets
    }
}

} // verus!
