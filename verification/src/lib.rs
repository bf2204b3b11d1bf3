//! Layouts of the meshes of a small fixed scene: the triangle lists of boxes,
//! polygons, extrusions and surfaces of revolution, the records of Wavefront
//! OBJ files, and the ranges that the objects take in one shared vertex buffer.
//!
//! Nothing here computes with coordinates. The builders are generic in the
//! scalar type and only decide which point goes where; lengths, normals and
//! rotations are the caller's.

pub mod buffer;
pub mod chair;
pub mod color;
pub mod desk;
pub mod error;
pub mod extrusion;
pub mod matrix;
pub mod obj;
pub mod render;
pub mod revolution;
pub mod room;
pub mod scene;
pub mod text;
