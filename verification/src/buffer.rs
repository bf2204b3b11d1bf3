//! The one vertex buffer that the objects of a scene share, and the part of
//! it that each object is drawn from.

use crate::render::VERTEX_SIZE;
use vstd::prelude::*;

verus! {

/// The vertices of one object in the vertex buffer: `first` vertices come
/// before them, and there are `count` of them.
#[derive(Clone, Copy, Debug, PartialEq, Eq, Structural)]
pub struct DrawRange {
    pub first: i32,
    pub count: i32,
}

/// How many whole vertices of eight scalars lie between the start of the
/// buffer and `vert_start`, counted backwards if that is before the start.
pub open spec fn vertices_to(vert_start: i32) -> int {
    if vert_start >= 0 {
        vert_start / 8
    } else {
        -((-vert_start) / 8)
    }
}

/// The range of an object that starts at `vert_start` scalars and has
/// `num_verts` vertices of eight scalars each.
pub fn draw_range(vert_start: i32, num_verts: i32) -> (range: DrawRange)
    ensures
        range.first == vertices_to(vert_start),
        range.count == num_verts,
{
    DrawRange { first: vert_start / 8, count: num_verts }
}

/// The objects that were laid into a vertex buffer, one after the other.
#[derive(Debug)]
pub struct VertexBuffer {
    /// The range of each object, in the order in which they were laid.
    pub ranges: Vec<DrawRange>,
    /// How many scalars the buffer holds.
    pub len: i32,
}

impl VertexBuffer {
    /// How many vertices the first `n` objects have together.
    pub open spec fn vertices_before(ranges: Seq<DrawRange>, n: int) -> int
        decreases n,
    {
        if n <= 0 {
            0
        } else {
            Self::vertices_before(ranges, n - 1) + ranges[n - 1].count
        }
    }

    /// Each object starts where the one before it ends, the first at the
    /// start of the buffer, and the buffer ends with the last.
    pub open spec fn wf(&self) -> bool {
        &&& forall|i: int| 0 <= i < self.ranges@.len() ==> (#[trigger] self.ranges@[i]).count >= 0
        &&& forall|i: int|
            0 <= i < self.ranges@.len() ==> (#[trigger] self.ranges@[i]).first
                == Self::vertices_before(self.ranges@, i)
        &&& self.len == VERTEX_SIZE * Self::vertices_before(
            self.ranges@,
            self.ranges@.len() as int,
        )
    }

    /// The empty buffer.
    pub fn new() -> (b: Self)
        ensures
            b.wf(),
            b.ranges@.len() == 0,
            b.len == 0,
    {
        VertexBuffer { ranges: Vec::new(), len: 0 }
    }

    /// Where the next object starts, in scalars.
    pub fn vertex_start(&self) -> (start: i32)
        ensures
            start == self.len,
    {
        self.len
    }

    /// Notes an object of `num_verts` vertices at the end of the buffer, and
    /// returns its range. Where the number is negative, or the buffer would
    /// grow beyond what an `i32` counts, nothing is noted.
    pub fn extend(&mut self, num_verts: i32) -> (range: Option<DrawRange>)
        requires
            old(self).wf(),
        ensures
            final(self).wf(),
            match range {
                Some(r) => {
                    &&& num_verts >= 0
                    &&& old(self).len + VERTEX_SIZE * num_verts <= i32::MAX
                    &&& r.first == vertices_to(old(self).len)
                    &&& r.count == num_verts
                    &&& final(self).ranges@ == old(self).ranges@.push(r)
                    &&& final(self).len == old(self).len + VERTEX_SIZE * num_verts
                },
                None => {
                    &&& num_verts < 0 || old(self).len + VERTEX_SIZE * num_verts > i32::MAX
                    &&& *final(self) == *old(self)
                },
            },
    {
        proof {
            self.lemma_vertices_before_grows(0, self.ranges@.len() as int);
        }
        if num_verts < 0 || num_verts > (i32::MAX - self.len) / 8 {
            return None;
        }
        let range = draw_range(self.len, num_verts);
        proof {
            let before = self.ranges@;
            let after = before.push(range);
            assert forall|i: int| 0 <= i <= before.len() implies Self::vertices_before(after, i)
                == Self::vertices_before(before, i) by {
                Self::lemma_vertices_before_prefix(before, after, i);
            }
        }
        self.ranges.push(range);
        self.len = self.len + 8 * num_verts;
        Some(range)
    }

    /// The vertices before an object depend on the objects before it only.
    pub proof fn lemma_vertices_before_prefix(a: Seq<DrawRange>, b: Seq<DrawRange>, n: int)
        requires
            0 <= n <= a.len(),
            n <= b.len(),
            forall|i: int| 0 <= i < n ==> a[i] == b[i],
        ensures
            Self::vertices_before(a, n) == Self::vertices_before(b, n),
        decreases n,
    {
        if n > 0 {
            Self::lemma_vertices_before_prefix(a, b, n - 1);
        }
    }

    /// The vertices before an object do not grow less from object to
    /// object.
    pub proof fn lemma_vertices_before_grows(&self, i: int, j: int)
        requires
            self.wf(),
            0 <= i <= j <= self.ranges@.len(),
        ensures
            Self::vertices_before(self.ranges@, i) <= Self::vertices_before(self.ranges@, j),
        decreases j - i,
    {
        if i < j {
            self.lemma_vertices_before_grows(i, j - 1);
        }
    }

    /// No two objects share a vertex: an object ends before the next one
    /// starts.
    pub proof fn lemma_ranges_apart(&self, i: int, j: int)
        requires
            self.wf(),
            0 <= i < j < self.ranges@.len(),
        ensures
            self.ranges@[i].first + self.ranges@[i].count <= self.ranges@[j].first,
    {
        self.lemma_vertices_before_grows(i + 1, j);
    }

    /// Every object lies within the buffer.
    pub proof fn lemma_ranges_within(&self, i: int)
        requires
            self.wf(),
            0 <= i < self.ranges@.len(),
        ensures
            0 <= self.ranges@[i].first,
            VERTEX_SIZE * (self.ranges@[i].first + self.ranges@[i].count) <= self.len,
    {
        self.lemma_vertices_before_grows(0, i);
        self.lemma_vertices_before_grows(i + 1, self.ranges@.len() as int);
    }
}

} // verus!
