//! Meshes in the Wavefront OBJ format: the records `v`, `vn`, `vt`, `g` and
//! `f`, the groups of faces they build, and the triangle list that a group is
//! drawn from.

use crate::error::{io_error, Error, ErrorKind};
use crate::matrix::{Vec2, Vec3};
use crate::render::{vertex, Vertex};
use crate::text::{chars_of, decimal, parse_u32, split_whitespace, texts, words};
use vstd::prelude::*;

verus! {

/// One corner of a face: the vertex it lies at, and the texture point and the
/// normal it carries, if any. Each is named by its place in the mesh's table,
/// counted from 1.
#[derive(Clone, Copy, Debug, PartialEq)]
pub struct FaceIndex<T> {
    pub vertex_index: T,
    pub texture_index: Option<T>,
    pub normal_index: Option<T>,
}

/// A polygon of a mesh: its corners in order.
#[derive(Debug)]
pub struct Face<T> {
    pub indices: Vec<FaceIndex<T>>,
}

/// The face with the given corners.
pub fn face<T>(indices: Vec<FaceIndex<T>>) -> (f: Face<T>)
    ensures
        f.indices == indices,
{
    Face { indices }
}

impl<T: Copy> Face<T> {
    /// The corners of the triangles that cover a face with the given
    /// corners, three for each triangle. A face of four corners is cut into
    /// the triangles of its corners 0, 1, 2 and 2, 3, 0. Any other face has a
    /// triangle for every three corners that follow one another, which
    /// covers it if it is convex and flat.
    pub open spec fn spec_triangles(corners: Seq<FaceIndex<T>>) -> Seq<FaceIndex<T>> {
        if corners.len() == 4 {
            seq![corners[0], corners[1], corners[2], corners[2], corners[3], corners[0]]
        } else if corners.len() >= 3 {
            Seq::new((3 * (corners.len() - 2)) as nat, |k: int| corners[k / 3 + k % 3])
        } else {
            Seq::empty()
        }
    }

    /// The face as a list of triangles.
    pub fn triangles(&self) -> (list: Vec<FaceIndex<T>>)
        ensures
            list@ == Self::spec_triangles(self.indices@),
    {
        let n = self.indices.len();
        let mut list: Vec<FaceIndex<T>> = Vec::new();
        if n == 4 {
            list.push(self.indices[0]);
            list.push(self.indices[1]);
            list.push(self.indices[2]);
            list.push(self.indices[2]);
            list.push(self.indices[3]);
            list.push(self.indices[0]);
        } else if n >= 3 {
            let mut i: usize = 0;
            while i + 2 < n
                invariant
                    n == self.indices@.len(),
                    n >= 3,
                    i <= n - 2,
                    list@.len() == 3 * i,
                    forall|k: int|
                        0 <= k < 3 * i ==> #[trigger] list@[k] == self.indices@[k / 3 + k % 3],
                decreases n - i,
            {
                list.push(self.indices[i]);
                list.push(self.indices[i + 1]);
                list.push(self.indices[i + 2]);
                i += 1;
            }
        }
        list
    }
}

/// The length of the part of `s` before its first `/`.
pub open spec fn field_len(s: Seq<char>) -> nat
    decreases s.len(),
{
    if s.len() == 0 || s[0] == '/' {
        0
    } else {
        1 + field_len(s.drop_first())
    }
}

/// The field of `s` with the given number, counted from 0, where `/`
/// separates the fields; `None` where `s` has fewer fields.
pub open spec fn field(s: Seq<char>, number: nat) -> Option<Seq<char>>
    decreases number,
{
    let n = field_len(s) as int;
    if number == 0 {
        Some(s.take(n))
    } else if n >= s.len() {
        None
    } else {
        field(s.skip(n + 1), (number - 1) as nat)
    }
}

/// The index that an optional field gives: none where the field is absent
/// or is no number.
pub open spec fn optional_index(f: Option<Seq<char>>) -> Option<u32> {
    match f {
        Some(text) => decimal(text),
        None => None,
    }
}

/// The corner that `s` writes as `vertex`, `vertex/texture` or
/// `vertex/texture/normal`. Fields after the third do not count.
pub open spec fn corner(s: Seq<char>) -> Result<FaceIndex<u32>, Error> {
    let vertex = s.take(field_len(s) as int);
    if vertex.len() == 0 {
        Err(Error { kind: ErrorKind::MissingVertexIndex })
    } else {
        match decimal(vertex) {
            None => Err(Error { kind: ErrorKind::InvalidVertexIndex }),
            Some(vertex_index) => Ok(
                FaceIndex {
                    vertex_index,
                    texture_index: optional_index(field(s, 1)),
                    normal_index: optional_index(field(s, 2)),
                },
            ),
        }
    }
}

/// A run of `n` characters without `/` that ends at the end of `s` or before
/// a `/` is the first field of `s`.
proof fn lemma_field_len_is(s: Seq<char>, n: int)
    requires
        0 <= n <= s.len(),
        forall|k: int| 0 <= k < n ==> #[trigger] s[k] != '/',
        n == s.len() || s[n] == '/',
    ensures
        field_len(s) == n,
    decreases n,
{
    if n > 0 {
        let t = s.drop_first();
        assert forall|k: int| 0 <= k < n - 1 implies #[trigger] t[k] != '/' by {}
        lemma_field_len_is(t, n - 1);
    }
}

/// Where the field that starts at `from` ends.
fn field_end(cs: &Vec<char>, from: usize) -> (to: usize)
    requires
        from <= cs.len(),
    ensures
        from <= to <= cs.len(),
        to - from == field_len(cs@.skip(from as int)),
{
    let mut to: usize = from;
    while to < cs.len() && cs[to] != '/'
        invariant
            from <= to <= cs.len(),
            forall|k: int| from <= k < to ==> #[trigger] cs@[k] != '/',
        decreases cs.len() - to,
    {
        to += 1;
    }
    proof {
        let rest = cs@.skip(from as int);
        assert forall|k: int| 0 <= k < to - from implies #[trigger] rest[k] != '/' by {}
        lemma_field_len_is(rest, to - from);
    }
    to
}

impl FaceIndex<u32> {
    /// Reads a corner of a face. The first field must be there and be a
    /// number; a second or third field that is no number counts as absent.
    pub fn from_str(s: &str) -> (r: Result<FaceIndex<u32>, Error>)
        ensures
            r == corner(s@),
    {
        let cs = chars_of(s);
        let n = cs.len();
        let ghost t = cs@;
        proof {
            reveal_with_fuel(field, 3);
        }
        assert(t.skip(0) =~= t);
        let end0 = field_end(&cs, 0);
        if end0 == 0 {
            return Err(io_error(ErrorKind::MissingVertexIndex));
        }
        let vertex_index = match parse_u32(cs.as_slice(), 0, end0) {
            Some(v) => v,
            None => {
                return Err(io_error(ErrorKind::InvalidVertexIndex));
            },
        };
        let mut texture_index: Option<u32> = None;
        let mut normal_index: Option<u32> = None;
        if end0 < n {
            let start1 = end0 + 1;
            let end1 = field_end(&cs, start1);
            let ghost rest1 = t.skip(start1 as int);
            assert(rest1.take(end1 - start1) =~= t.subrange(start1 as int, end1 as int));
            texture_index = parse_u32(cs.as_slice(), start1, end1);
            if end1 < n {
                let start2 = end1 + 1;
                let end2 = field_end(&cs, start2);
                let ghost rest2 = t.skip(start2 as int);
                assert(rest1.skip(end1 - start1 + 1) =~= rest2);
                assert(rest2.take(end2 - start2) =~= t.subrange(start2 as int, end2 as int));
                normal_index = parse_u32(cs.as_slice(), start2, end2);
            }
        }
        Ok(FaceIndex { vertex_index, texture_index, normal_index })
    }
}

/// The corners that the words of a face record write, or the error of the
/// first word that writes none.
pub open spec fn corners(tokens: Seq<Seq<char>>) -> Result<Seq<FaceIndex<u32>>, Error>
    decreases tokens.len(),
{
    if tokens.len() == 0 {
        Ok(Seq::empty())
    } else {
        match corners(tokens.drop_last()) {
            Err(e) => Err(e),
            Ok(before) => match corner(tokens.last()) {
                Err(e) => Err(e),
                Ok(c) => Ok(before.push(c)),
            },
        }
    }
}

/// An error among the first `k` words is the error of all the words.
proof fn lemma_corners_error(tokens: Seq<Seq<char>>, k: int)
    requires
        0 <= k <= tokens.len(),
        corners(tokens.take(k)) is Err,
    ensures
        corners(tokens) == corners(tokens.take(k)),
    decreases tokens.len() - k,
{
    if k < tokens.len() {
        assert(tokens.take(k + 1).drop_last() =~= tokens.take(k));
        lemma_corners_error(tokens, k + 1);
    } else {
        assert(tokens.take(k) =~= tokens);
    }
}

/// A named set of faces of a mesh.
#[derive(Debug)]
pub struct Group {
    pub name: String,
    pub faces: Vec<Face<u32>>,
}

/// What a group holds.
pub ghost struct GroupView {
    pub name: Seq<char>,
    pub faces: Seq<Seq<FaceIndex<u32>>>,
}

/// The corners of each face of `faces`.
pub open spec fn faces_view(faces: Seq<Face<u32>>) -> Seq<Seq<FaceIndex<u32>>> {
    faces.map_values(|f: Face<u32>| f.indices@)
}

impl View for Group {
    type V = GroupView;

    open spec fn view(&self) -> GroupView {
        GroupView { name: self.name@, faces: faces_view(self.faces@) }
    }
}

impl Group {
    /// The group of the given name, without faces.
    pub fn new(name: &str) -> (g: Group)
        ensures
            g@ == (GroupView { name: name@, faces: Seq::empty() }),
    {
        let g = Group { name: name.to_owned(), faces: Vec::new() };
        assert(g@.faces =~= Seq::empty());
        g
    }
}

/// What each group of `groups` holds.
pub open spec fn groups_view(groups: Seq<Group>) -> Seq<GroupView> {
    groups.map_values(|g: Group| g@)
}

/// The coordinates of a point, as a file writes them.
pub open spec fn point_text(p: Vec3<String>) -> Vec3<Seq<char>> {
    Vec3 { x: p.x@, y: p.y@, z: p.z@ }
}

/// The coordinates of a texture point, as a file writes them.
pub open spec fn texture_text(p: Vec2<String>) -> Vec2<Seq<char>> {
    Vec2 { x: p.x@, y: p.y@ }
}

/// The coordinates of each point of `points`, as a file writes them.
pub open spec fn points_text(points: Seq<Vec3<String>>) -> Seq<Vec3<Seq<char>>> {
    points.map_values(|p: Vec3<String>| point_text(p))
}

/// The coordinates of each texture point of `points`, as a file writes them.
pub open spec fn textures_text(points: Seq<Vec2<String>>) -> Seq<Vec2<Seq<char>>> {
    points.map_values(|p: Vec2<String>| texture_text(p))
}

/// One line of a mesh file. Coordinates stay as the file writes them: what
/// number each stands for is the reader's to say.
#[derive(Debug)]
pub enum Record {
    /// A comment, or a line without words.
    Blank,
    /// `g`: the faces that follow belong to the group of this name.
    Group(String),
    /// `v`: a vertex.
    Vertex(Vec3<String>),
    /// `vn`: a normal.
    Normal(Vec3<String>),
    /// `vt`: a texture point.
    Texture(Vec2<String>),
    /// `f`: a face.
    Face(Face<u32>),
    /// A line whose first word is none of these; it holds that word.
    Unhandled(String),
}

/// What a record holds.
pub ghost enum RecordView {
    Blank,
    Group(Seq<char>),
    Vertex(Vec3<Seq<char>>),
    Normal(Vec3<Seq<char>>),
    Texture(Vec2<Seq<char>>),
    Face(Seq<FaceIndex<u32>>),
    Unhandled(Seq<char>),
}

impl View for Record {
    type V = RecordView;

    open spec fn view(&self) -> RecordView {
        match self {
            Record::Blank => RecordView::Blank,
            Record::Group(name) => RecordView::Group(name@),
            Record::Vertex(p) => RecordView::Vertex(point_text(*p)),
            Record::Normal(p) => RecordView::Normal(point_text(*p)),
            Record::Texture(p) => RecordView::Texture(texture_text(*p)),
            Record::Face(f) => RecordView::Face(f.indices@),
            Record::Unhandled(kind) => RecordView::Unhandled(kind@),
        }
    }
}

/// The word of `w` with the given number, or `0` where the line is too
/// short.
pub open spec fn coordinate(w: Seq<Seq<char>>, number: int) -> Seq<char> {
    if 0 <= number < w.len() {
        w[number]
    } else {
        "0"@
    }
}

/// The record that a line writes. A line that starts with `#` is a comment.
/// Else its first word says what it is, and the words after it hold the rest:
/// the name of a group, `unnamed` if there is none; three coordinates of a
/// vertex or a normal, two of a texture point, `0` for each that is missing;
/// the corners of a face.
pub open spec fn record(line: Seq<char>) -> Result<RecordView, Error> {
    let w = words(line);
    if line.len() > 0 && line[0] == '#' {
        Ok(RecordView::Blank)
    } else if w.len() == 0 {
        Ok(RecordView::Blank)
    } else if w[0] == seq!['g'] {
        Ok(
            RecordView::Group(
                if w.len() > 1 {
                    w[1]
                } else {
                    "unnamed"@
                },
            ),
        )
    } else if w[0] == seq!['v'] {
        Ok(
            RecordView::Vertex(
                Vec3 { x: coordinate(w, 1), y: coordinate(w, 2), z: coordinate(w, 3) },
            ),
        )
    } else if w[0] == seq!['v', 'n'] {
        Ok(
            RecordView::Normal(
                Vec3 { x: coordinate(w, 1), y: coordinate(w, 2), z: coordinate(w, 3) },
            ),
        )
    } else if w[0] == seq!['v', 't'] {
        Ok(RecordView::Texture(Vec2 { x: coordinate(w, 1), y: coordinate(w, 2) }))
    } else if w[0] == seq!['f'] {
        match corners(w.skip(1)) {
            Ok(c) => Ok(RecordView::Face(c)),
            Err(e) => Err(e),
        }
    } else {
        Ok(RecordView::Unhandled(w[0]))
    }
}

/// What `r` holds, where it holds a record.
pub open spec fn record_view(r: Result<Record, Error>) -> Result<RecordView, Error> {
    match r {
        Ok(rec) => Ok(rec@),
        Err(e) => Err(e),
    }
}

/// The word of `tokens` with the given number, or `0`.
fn coordinate_of(tokens: &Vec<String>, number: usize) -> (text: String)
    ensures
        text@ == coordinate(texts(tokens@), number as int),
{
    if number < tokens.len() {
        tokens[number].clone()
    } else {
        "0".to_owned()
    }
}

/// The corners that the words of `tokens` after the first write.
fn face_corners(tokens: &Vec<String>) -> (r: Result<Vec<FaceIndex<u32>>, Error>)
    requires
        tokens.len() > 0,
    ensures
        match r {
            Ok(indices) => corners(texts(tokens@).skip(1)) == Ok::<_, Error>(indices@),
            Err(e) => corners(texts(tokens@).skip(1)) == Err::<Seq<FaceIndex<u32>>, _>(e),
        },
{
    let ghost rest = texts(tokens@).skip(1);
    let mut indices: Vec<FaceIndex<u32>> = Vec::new();
    let mut i: usize = 1;
    while i < tokens.len()
        invariant
            1 <= i <= tokens.len(),
            rest == texts(tokens@).skip(1),
            corners(rest.take(i - 1)) == Ok::<_, Error>(indices@),
        decreases tokens.len() - i,
    {
        let c = FaceIndex::from_str(tokens[i].as_str());
        proof {
            assert(rest.take(i as int).drop_last() =~= rest.take(i - 1));
        }
        match c {
            Ok(index) => {
                indices.push(index);
            },
            Err(e) => {
                proof {
                    lemma_corners_error(rest, i as int);
                }
                return Err(e);
            },
        }
        i += 1;
    }
    assert(rest.take(tokens.len() - 1) =~= rest);
    Ok(indices)
}

/// Reads one line of a mesh file.
pub fn parse_line(line: &str) -> (r: Result<Record, Error>)
    ensures
        record_view(r) == record(line@),
{
    if !line.is_empty() && line.get_char(0) == '#' {
        return Ok(Record::Blank);
    }
    let tokens = split_whitespace(line);
    if tokens.len() == 0 {
        return Ok(Record::Blank);
    }
    let ghost w = words(line@);
    let kind = chars_of(tokens[0].as_str());
    let first: char = if kind.len() > 0 {
        kind[0]
    } else {
        ' '
    };
    let second: char = if kind.len() > 1 {
        kind[1]
    } else {
        ' '
    };
    if kind.len() == 1 && first == 'g' {
        assert(w[0] =~= seq!['g']);
        let name = if tokens.len() > 1 {
            tokens[1].clone()
        } else {
            "unnamed".to_owned()
        };
        Ok(Record::Group(name))
    } else if kind.len() == 1 && first == 'v' {
        assert(w[0] =~= seq!['v']);
        let x = coordinate_of(&tokens, 1);
        let y = coordinate_of(&tokens, 2);
        let z = coordinate_of(&tokens, 3);
        Ok(Record::Vertex(Vec3 { x, y, z }))
    } else if kind.len() == 2 && first == 'v' && second == 'n' {
        assert(w[0] =~= seq!['v', 'n']);
        let x = coordinate_of(&tokens, 1);
        let y = coordinate_of(&tokens, 2);
        let z = coordinate_of(&tokens, 3);
        Ok(Record::Normal(Vec3 { x, y, z }))
    } else if kind.len() == 2 && first == 'v' && second == 't' {
        assert(w[0] =~= seq!['v', 't']);
        let x = coordinate_of(&tokens, 1);
        let y = coordinate_of(&tokens, 2);
        Ok(Record::Texture(Vec2 { x, y }))
    } else if kind.len() == 1 && first == 'f' {
        assert(w[0] =~= seq!['f']);
        match face_corners(&tokens) {
            Ok(indices) => Ok(Record::Face(face(indices))),
            Err(e) => Err(e),
        }
    } else {
        Ok(Record::Unhandled(tokens[0].clone()))
    }
}

/// What the records of a file have built so far.
pub ghost struct Mesh {
    /// The groups that are closed.
    pub groups: Seq<GroupView>,
    /// The group that faces are added to.
    pub cur_group: GroupView,
    pub vertices: Seq<Vec3<Seq<char>>>,
    pub normals: Seq<Vec3<Seq<char>>>,
    pub texture_coords: Seq<Vec2<Seq<char>>>,
    /// The first words of the lines that were passed over.
    pub unhandled: Seq<Seq<char>>,
}

impl Mesh {
    /// Before the first line: nothing but an open group without a name.
    pub open spec fn start() -> Mesh {
        Mesh {
            groups: Seq::empty(),
            cur_group: GroupView { name: Seq::empty(), faces: Seq::empty() },
            vertices: Seq::empty(),
            normals: Seq::empty(),
            texture_coords: Seq::empty(),
            unhandled: Seq::empty(),
        }
    }

    /// After one more record. A `g` closes the open group, which is kept
    /// only if it has a face, and opens the next; every other record adds to
    /// one table or to the open group.
    pub open spec fn read(self, r: RecordView) -> Mesh {
        match r {
            RecordView::Blank => self,
            RecordView::Group(name) => Mesh {
                groups: if self.cur_group.faces.len() > 0 {
                    self.groups.push(self.cur_group)
                } else {
                    self.groups
                },
                cur_group: GroupView { name, faces: Seq::empty() },
                ..self
            },
            RecordView::Vertex(p) => Mesh { vertices: self.vertices.push(p), ..self },
            RecordView::Normal(p) => Mesh { normals: self.normals.push(p), ..self },
            RecordView::Texture(p) => Mesh {
                texture_coords: self.texture_coords.push(p),
                ..self
            },
            RecordView::Face(indices) => Mesh {
                cur_group: GroupView {
                    name: self.cur_group.name,
                    faces: self.cur_group.faces.push(indices),
                },
                ..self
            },
            RecordView::Unhandled(kind) => Mesh { unhandled: self.unhandled.push(kind), ..self },
        }
    }
}

/// What the lines of a file build, or the error of the first line that
/// writes no record.
pub open spec fn read_lines(lines: Seq<Seq<char>>) -> Result<Mesh, Error>
    decreases lines.len(),
{
    if lines.len() == 0 {
        Ok(Mesh::start())
    } else {
        match read_lines(lines.drop_last()) {
            Err(e) => Err(e),
            Ok(before) => match record(lines.last()) {
                Err(e) => Err(e),
                Ok(r) => Ok(before.read(r)),
            },
        }
    }
}

/// An error among the first `k` lines is the error of the file.
proof fn lemma_read_lines_error(lines: Seq<Seq<char>>, k: int)
    requires
        0 <= k <= lines.len(),
        read_lines(lines.take(k)) is Err,
    ensures
        read_lines(lines) == read_lines(lines.take(k)),
    decreases lines.len() - k,
{
    if k < lines.len() {
        assert(lines.take(k + 1).drop_last() =~= lines.take(k));
        lemma_read_lines_error(lines, k + 1);
    } else {
        assert(lines.take(k) =~= lines);
    }
}

/// A mesh, as its file describes it. The coordinates in the three tables
/// are the words of the file.
#[derive(Debug)]
pub struct Obj {
    pub groups: Vec<Group>,
    /// Where the mesh starts in the vertex buffer, in scalars.
    pub vert_start: i32,
    /// How many vertices the mesh has in the vertex buffer.
    pub num_verts: i32,
    pub vertices: Vec<Vec3<String>>,
    pub normals: Vec<Vec3<String>>,
    pub texture_coords: Vec<Vec2<String>>,
    /// The first words of the lines that were passed over, in file order.
    pub unhandled: Vec<String>,
    /// The texture unit of the mesh.
    pub cur_texture: u8,
}

/// What a mesh holds.
pub ghost struct ObjView {
    pub groups: Seq<GroupView>,
    pub vert_start: i32,
    pub num_verts: i32,
    pub vertices: Seq<Vec3<Seq<char>>>,
    pub normals: Seq<Vec3<Seq<char>>>,
    pub texture_coords: Seq<Vec2<Seq<char>>>,
    pub unhandled: Seq<Seq<char>>,
    pub cur_texture: u8,
}

impl View for Obj {
    type V = ObjView;

    open spec fn view(&self) -> ObjView {
        ObjView {
            groups: groups_view(self.groups@),
            vert_start: self.vert_start,
            num_verts: self.num_verts,
            vertices: points_text(self.vertices@),
            normals: points_text(self.normals@),
            texture_coords: textures_text(self.texture_coords@),
            unhandled: texts(self.unhandled@),
            cur_texture: self.cur_texture,
        }
    }
}

/// The mesh of a file with the given lines, on the given texture unit. The
/// group that is open at the end is kept, with or without faces. A file
/// without a vertex is no mesh.
pub open spec fn loaded(lines: Seq<Seq<char>>, texture: u8) -> Result<ObjView, Error> {
    match read_lines(lines) {
        Err(e) => Err(e),
        Ok(mesh) => if mesh.vertices.len() == 0 {
            Err(Error { kind: ErrorKind::NoVertices })
        } else {
            Ok(
                ObjView {
                    groups: mesh.groups.push(mesh.cur_group),
                    vert_start: 0,
                    num_verts: 0,
                    vertices: mesh.vertices,
                    normals: mesh.normals,
                    texture_coords: mesh.texture_coords,
                    unhandled: mesh.unhandled,
                    cur_texture: texture,
                },
            )
        },
    }
}

/// A corner of a triangle of a mesh: the places of its vertex, its normal
/// and its texture point in the mesh's tables, counted from 0.
#[derive(Clone, Copy, Debug, PartialEq, Eq, Structural)]
pub struct Corner {
    pub vertex: usize,
    pub normal: Option<usize>,
    pub texture: Option<usize>,
}

/// Whether a place, if there is one, lies in a table of `len` entries.
pub open spec fn lies_in(place: Option<usize>, len: nat) -> bool {
    match place {
        Some(p) => p < len,
        None => true,
    }
}

impl Corner {
    /// Whether every place of the corner lies in its table, for tables of
    /// the given lengths.
    pub open spec fn spec_within(&self, vertices: nat, normals: nat, textures: nat) -> bool {
        &&& self.vertex < vertices
        &&& lies_in(self.normal, normals)
        &&& lies_in(self.texture, textures)
    }

    /// Whether every place of the corner lies in its table, for tables of
    /// the given lengths.
    pub fn within(&self, vertices: usize, normals: usize, textures: usize) -> (b: bool)
        ensures
            b == self.spec_within(vertices as nat, normals as nat, textures as nat),
    {
        self.vertex < vertices && (match self.normal {
            Some(p) => p < normals,
            None => true,
        }) && (match self.texture {
            Some(p) => p < textures,
            None => true,
        })
    }
}

/// Whether `v` is the vertex of `corner`: its position, its normal and its
/// texture point are those at the corner's places in the tables, and where
/// the corner has no normal or no texture point, the origin stands for it.
pub open spec fn is_vertex_of<S: Default>(
    v: Vertex<S>,
    corner: Corner,
    vertices: Seq<Vec3<S>>,
    normals: Seq<Vec3<S>>,
    texture_coords: Seq<Vec2<S>>,
) -> bool {
    &&& v.position == vertices[corner.vertex as int]
    &&& match corner.normal {
        Some(p) => v.normal == normals[p as int],
        None => v.normal.is_origin(),
    }
    &&& match corner.texture {
        Some(p) => v.texture == texture_coords[p as int],
        None => v.texture.is_origin(),
    }
}

/// The vertices of the given corners, taken from tables of points.
pub fn materialize<S: Copy + Default>(
    corners: &[Corner],
    vertices: &[Vec3<S>],
    normals: &[Vec3<S>],
    texture_coords: &[Vec2<S>],
) -> (out: Vec<Vertex<S>>)
    requires
        forall|i: int|
            0 <= i < corners@.len() ==> (#[trigger] corners@[i]).spec_within(
                vertices@.len(),
                normals@.len(),
                texture_coords@.len(),
            ),
    ensures
        out@.len() == corners@.len(),
        forall|i: int|
            0 <= i < out@.len() ==> is_vertex_of(
                #[trigger] out@[i],
                corners@[i],
                vertices@,
                normals@,
                texture_coords@,
            ),
{
    let mut out: Vec<Vertex<S>> = Vec::new();
    let mut i: usize = 0;
    while i < corners.len()
        invariant
            i <= corners@.len(),
            out@.len() == i,
            forall|k: int|
                0 <= k < corners@.len() ==> (#[trigger] corners@[k]).spec_within(
                    vertices@.len(),
                    normals@.len(),
                    texture_coords@.len(),
                ),
            forall|k: int|
                0 <= k < i ==> is_vertex_of(
                    #[trigger] out@[k],
                    corners@[k],
                    vertices@,
                    normals@,
                    texture_coords@,
                ),
        decreases corners.len() - i,
    {
        let corner = corners[i];
        assert(corners@[i as int].spec_within(
            vertices@.len(),
            normals@.len(),
            texture_coords@.len(),
        ));
        let mut v = vertex(vertices[corner.vertex], Vec3::origin());
        match corner.normal {
            Some(p) => {
                v.normal = normals[p];
            },
            None => {},
        }
        match corner.texture {
            Some(p) => {
                v.texture = texture_coords[p];
            },
            None => {},
        }
        out.push(v);
        i += 1;
    }
    out
}

/// Whether an index names one of `len` entries.
pub open spec fn names(index: u32, len: nat) -> bool {
    1 <= index <= len
}

/// Whether an index, if there is one, names one of `len` entries.
pub open spec fn names_if_any(index: Option<u32>, len: nat) -> bool {
    match index {
        Some(i) => names(i, len),
        None => true,
    }
}

/// The place that an index names, if there is an index.
pub open spec fn place(index: Option<u32>) -> Option<usize> {
    match index {
        Some(i) => Some((i - 1) as usize),
        None => None,
    }
}

/// The places that the indices of a corner name.
pub open spec fn resolved(index: FaceIndex<u32>) -> Corner {
    Corner {
        vertex: (index.vertex_index - 1) as usize,
        normal: place(index.normal_index),
        texture: place(index.texture_index),
    }
}

/// The corners of the triangles of one face, as places in the tables.
pub open spec fn triangle_corners_of(face: Seq<FaceIndex<u32>>) -> Seq<Corner> {
    Face::<u32>::spec_triangles(face).map_values(|i: FaceIndex<u32>| resolved(i))
}

/// The corners of the triangles of the given faces, face after face: a
/// triangle list.
pub open spec fn face_corners_of(faces: Seq<Seq<FaceIndex<u32>>>) -> Seq<Corner>
    decreases faces.len(),
{
    if faces.len() == 0 {
        Seq::empty()
    } else {
        face_corners_of(faces.drop_last()) + triangle_corners_of(faces.last())
    }
}

/// The number of the corner of a face of `n` corners that stands at the
/// place `k` of the face's list of triangles.
pub open spec fn triangle_corner(n: int, k: int) -> int {
    if n == 4 {
        if k == 0 || k == 5 {
            0
        } else if k == 1 {
            1
        } else if k == 4 {
            3
        } else {
            2
        }
    } else {
        k / 3 + k % 3
    }
}

/// Every corner of a triangle of a face is a corner of the face.
pub proof fn lemma_triangle_corner(face: Seq<FaceIndex<u32>>, k: int)
    requires
        0 <= k < Face::<u32>::spec_triangles(face).len(),
    ensures
        0 <= triangle_corner(face.len() as int, k) < face.len(),
        Face::<u32>::spec_triangles(face)[k] == face[triangle_corner(face.len() as int, k)],
{
}

/// The triangle lists of the given groups, group after group.
pub open spec fn group_corners_of(groups: Seq<GroupView>) -> Seq<Corner>
    decreases groups.len(),
{
    if groups.len() == 0 {
        Seq::empty()
    } else {
        group_corners_of(groups.drop_last()) + face_corners_of(groups.last().faces)
    }
}

impl Obj {
    /// Builds the mesh that the lines of a file describe, and gives it the
    /// texture unit after `cur_texture`. Where the file is in error nothing
    /// is built and `cur_texture` stays. After the last texture unit that a
    /// `u8` counts there is none for a mesh.
    pub fn load(lines: &[String], cur_texture: &mut u8) -> (r: Result<Obj, Error>)
        requires
            *old(cur_texture) < u8::MAX || loaded(texts(lines@), 0) is Err,
        ensures
            match loaded(texts(lines@), (*old(cur_texture) + 1) as u8) {
                Ok(mesh) => r is Ok && r->Ok_0@ == mesh && *final(cur_texture) == *old(cur_texture)
                    + 1,
                Err(e) => r is Err && r->Err_0 == e && *final(cur_texture) == *old(cur_texture),
            },
    {
        let ghost all = texts(lines@);
        let mut groups: Vec<Group> = Vec::new();
        let mut cur_group: Group = Group::new("");
        let mut vertices: Vec<Vec3<String>> = Vec::new();
        let mut normals: Vec<Vec3<String>> = Vec::new();
        let mut texture_coords: Vec<Vec2<String>> = Vec::new();
        let mut unhandled: Vec<String> = Vec::new();
        proof {
            reveal_strlit("");
            assert(cur_group@.name =~= Seq::<char>::empty());
            assert(groups_view(groups@) =~= Seq::<GroupView>::empty());
            assert(points_text(normals@) =~= Seq::<Vec3<Seq<char>>>::empty());
            assert(textures_text(texture_coords@) =~= Seq::<Vec2<Seq<char>>>::empty());
            assert(texts(unhandled@) =~= Seq::<Seq<char>>::empty());
        }
        let mut i: usize = 0;
        while i < lines.len()
            invariant
                i <= lines.len(),
                all == texts(lines@),
                *cur_texture == *old(cur_texture),
                read_lines(all.take(i as int)) == Ok::<_, Error>(
                    Mesh {
                        groups: groups_view(groups@),
                        cur_group: cur_group@,
                        vertices: points_text(vertices@),
                        normals: points_text(normals@),
                        texture_coords: textures_text(texture_coords@),
                        unhandled: texts(unhandled@),
                    },
                ),
            decreases lines.len() - i,
        {
            proof {
                assert(all.take(i + 1).drop_last() =~= all.take(i as int));
            }
            let rec = match parse_line(lines[i].as_str()) {
                Ok(rec) => rec,
                Err(e) => {
                    proof {
                        lemma_read_lines_error(all, i + 1);
                    }
                    return Err(e);
                },
            };
            match rec {
                Record::Blank => {},
                Record::Group(name) => {
                    if !cur_group.faces.is_empty() {
                        proof {
                            assert(groups_view(groups@.push(cur_group)) =~= groups_view(
                                groups@,
                            ).push(cur_group@));
                        }
                        groups.push(cur_group);
                    }
                    cur_group = Group::new(name.as_str());
                },
                Record::Vertex(p) => {
                    proof {
                        assert(points_text(vertices@.push(p)) =~= points_text(vertices@).push(
                            point_text(p),
                        ));
                    }
                    vertices.push(p);
                },
                Record::Normal(p) => {
                    proof {
                        assert(points_text(normals@.push(p)) =~= points_text(normals@).push(
                            point_text(p),
                        ));
                    }
                    normals.push(p);
                },
                Record::Texture(p) => {
                    proof {
                        assert(textures_text(texture_coords@.push(p)) =~= textures_text(
                            texture_coords@,
                        ).push(texture_text(p)));
                    }
                    texture_coords.push(p);
                },
                Record::Face(f) => {
                    proof {
                        assert(faces_view(cur_group.faces@.push(f)) =~= faces_view(
                            cur_group.faces@,
                        ).push(f.indices@));
                    }
                    cur_group.faces.push(f);
                },
                Record::Unhandled(kind) => {
                    proof {
                        assert(texts(unhandled@.push(kind)) =~= texts(unhandled@).push(kind@));
                    }
                    unhandled.push(kind);
                },
            }
            i += 1;
        }
        assert(all.take(lines.len() as int) =~= all);
        if vertices.len() == 0 {
            return Err(io_error(ErrorKind::NoVertices));
        }
        proof {
            assert(groups_view(groups@.push(cur_group)) =~= groups_view(groups@).push(
                cur_group@,
            ));
        }
        groups.push(cur_group);
        *cur_texture += 1;
        Ok(
            Obj {
                groups,
                vert_start: 0,
                num_verts: 0,
                vertices,
                normals,
                texture_coords,
                unhandled,
                cur_texture: *cur_texture,
            },
        )
    }

    /// Whether every index of `group` names an entry of this mesh's tables.
    pub open spec fn spec_resolves(&self, group: GroupView) -> bool {
        forall|f: int, c: int|
            0 <= f < group.faces.len() && 0 <= c < group.faces[f].len() ==> {
                let index = #[trigger] group.faces[f][c];
                &&& names(index.vertex_index, self.vertices@.len())
                &&& names_if_any(index.normal_index, self.normals@.len())
                &&& names_if_any(index.texture_index, self.texture_coords@.len())
            }
    }

    /// Whether every index of `group` names an entry of this mesh's tables, as
    /// `to_vertices` needs it.
    pub fn resolves(&self, group: &Group) -> (b: bool)
        ensures
            b == self.spec_resolves(group@),
    {
        let mut f: usize = 0;
        while f < group.faces.len()
            invariant
                f <= group.faces.len(),
                forall|g: int, c: int|
                    0 <= g < f && 0 <= c < group@.faces[g].len() ==> {
                        let index = #[trigger] group@.faces[g][c];
                        &&& names(index.vertex_index, self.vertices@.len())
                        &&& names_if_any(index.normal_index, self.normals@.len())
                        &&& names_if_any(index.texture_index, self.texture_coords@.len())
                    },
            decreases group.faces.len() - f,
        {
            let face = &group.faces[f];
            let mut c: usize = 0;
            while c < face.indices.len()
                invariant
                    c <= face.indices.len(),
                    f < group.faces.len(),
                    group@.faces[f as int] == face.indices@,
                    forall|d: int|
                        0 <= d < c ==> {
                            let index = #[trigger] face.indices@[d];
                            &&& names(index.vertex_index, self.vertices@.len())
                            &&& names_if_any(index.normal_index, self.normals@.len())
                            &&& names_if_any(index.texture_index, self.texture_coords@.len())
                        },
                decreases face.indices.len() - c,
            {
                let index = face.indices[c];
                let ok = in_table(Some(index.vertex_index), self.vertices.len()) && in_table(
                    index.normal_index,
                    self.normals.len(),
                ) && in_table(index.texture_index, self.texture_coords.len());
                if !ok {
                    return false;
                }
                c += 1;
            }
            f += 1;
        }
        true
    }

    /// The triangle list of `group`: the corners of the triangles of its
    /// faces, face after face, as places in this mesh's tables. A face of
    /// four corners gives the six corners of its two triangles, any other
    /// face three for each three corners in a row, and a face of fewer than
    /// three corners none.
    pub fn to_vertices(&self, group: &Group) -> (corners: Vec<Corner>)
        requires
            self.spec_resolves(group@),
        ensures
            corners@ == face_corners_of(group@.faces),
            forall|i: int|
                0 <= i < corners@.len() ==> (#[trigger] corners@[i]).spec_within(
                    self.vertices@.len(),
                    self.normals@.len(),
                    self.texture_coords@.len(),
                ),
    {
        let mut corners: Vec<Corner> = Vec::new();
        let ghost faces = group@.faces;
        let mut f: usize = 0;
        while f < group.faces.len()
            invariant
                f <= group.faces.len(),
                faces == group@.faces,
                self.spec_resolves(group@),
                corners@ == face_corners_of(faces.take(f as int)),
                forall|i: int|
                    0 <= i < corners@.len() ==> (#[trigger] corners@[i]).spec_within(
                        self.vertices@.len(),
                        self.normals@.len(),
                        self.texture_coords@.len(),
                    ),
            decreases group.faces.len() - f,
        {
            let list = group.faces[f].triangles();
            let ghost done = corners@;
            let ghost this = faces[f as int];
            let mut c: usize = 0;
            while c < list.len()
                invariant
                    c <= list.len(),
                    f < group.faces.len(),
                    faces == group@.faces,
                    this == faces[f as int],
                    list@ == Face::<u32>::spec_triangles(this),
                    self.spec_resolves(group@),
                    corners@ == done + list@.take(c as int).map_values(
                        |i: FaceIndex<u32>| resolved(i),
                    ),
                    forall|i: int|
                        0 <= i < corners@.len() ==> (#[trigger] corners@[i]).spec_within(
                            self.vertices@.len(),
                            self.normals@.len(),
                            self.texture_coords@.len(),
                        ),
                decreases list.len() - c,
            {
                let index = list[c];
                proof {
                    lemma_triangle_corner(this, c as int);
                    let at = triangle_corner(this.len() as int, c as int);
                    assert(group@.faces[f as int][at] == index);
                }
                let corner = Corner {
                    vertex: (index.vertex_index - 1) as usize,
                    normal: place_of(index.normal_index),
                    texture: place_of(index.texture_index),
                };
                proof {
                    assert(list@.take(c + 1).map_values(|i: FaceIndex<u32>| resolved(i))
                        =~= list@.take(c as int).map_values(|i: FaceIndex<u32>| resolved(i)).push(
                        corner,
                    ));
                }
                corners.push(corner);
                c += 1;
            }
            proof {
                assert(list@.take(list.len() as int) =~= list@);
                assert(faces.take(f + 1).drop_last() =~= faces.take(f as int));
            }
            f += 1;
        }
        assert(faces.take(group.faces.len() as int) =~= faces);
        corners
    }

    /// Whether every index of every group names an entry of the tables.
    pub open spec fn spec_resolves_all(&self) -> bool {
        forall|g: int| 0 <= g < self.groups@.len() ==> self.spec_resolves(#[trigger] self.groups@[g]@)
    }

    /// Lays the mesh into the vertex buffer at `vertex_start`: returns the
    /// triangle lists of all the groups, group after group, and notes where
    /// they start and how many vertices they are.
    pub fn buffer_data(&mut self, vertex_start: i32) -> (corners: Vec<Corner>)
        requires
            old(self).spec_resolves_all(),
            group_corners_of(old(self)@.groups).len() <= i32::MAX,
        ensures
            corners@ == group_corners_of(old(self)@.groups),
            forall|i: int|
                0 <= i < corners@.len() ==> (#[trigger] corners@[i]).spec_within(
                    old(self).vertices@.len(),
                    old(self).normals@.len(),
                    old(self).texture_coords@.len(),
                ),
            *final(self) == (Obj {
                vert_start: vertex_start,
                num_verts: corners@.len() as i32,
                ..*old(self)
            }),
    {
        self.vert_start = vertex_start;
        let mut corners: Vec<Corner> = Vec::new();
        let ghost groups = self@.groups;
        let mut g: usize = 0;
        while g < self.groups.len()
            invariant
                g <= self.groups.len(),
                *self == (Obj { vert_start: vertex_start, ..*old(self) }),
                groups == old(self)@.groups,
                old(self).spec_resolves_all(),
                corners@ == group_corners_of(groups.take(g as int)),
                forall|i: int|
                    0 <= i < corners@.len() ==> (#[trigger] corners@[i]).spec_within(
                        old(self).vertices@.len(),
                        old(self).normals@.len(),
                        old(self).texture_coords@.len(),
                    ),
            decreases self.groups.len() - g,
        {
            let mut cur = self.to_vertices(&self.groups[g]);
            proof {
                assert(groups.take(g + 1).drop_last() =~= groups.take(g as int));
            }
            corners.append(&mut cur);
            g += 1;
        }
        assert(groups.take(self.groups.len() as int) =~= groups);
        self.num_verts = corners.len() as i32;
        corners
    }
}

/// Whether an index, if there is one, names one of `len` entries.
fn in_table(index: Option<u32>, len: usize) -> (b: bool)
    ensures
        b == names_if_any(index, len as nat),
{
    match index {
        Some(i) => 1 <= i && i as usize <= len,
        None => true,
    }
}

/// The place that an index names, if there is an index.
fn place_of(index: Option<u32>) -> (p: Option<usize>)
    requires
        index matches Some(i) ==> 1 <= i,
    ensures
        p == place(index),
{
    match index {
        Some(i) => Some((i - 1) as usize),
        None => None,
    }
}

} // verus!
