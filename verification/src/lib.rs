//! A verified loader for a line-oriented 3D model text format.
//!
//! The library parses geometry text (vertex positions, texture
//! coordinates, normals, polygonal faces, object/group partitions) and
//! the material libraries it references, and assembles indexed,
//! vertex-deduplicated triangle meshes with resolved material bindings.
//!
//! Numeric fields are carried as their validated source tokens, so a
//! model keeps exactly what the text said; a caller turns tokens into
//! machine numbers at its own boundary.
//!
//! Every public parsing function is specified against a mathematical
//! description of the format, and the laws of the exporter — vertex
//! deduplication, the fixed quad split, index validity, point and line
//! discarding, per-segment dedup scope — are proved in `laws`.

pub mod bytes;
pub mod export;
pub mod face;
pub mod keywords;
pub mod laws;
pub mod model;
pub mod mtl;
pub mod numbers;
pub mod obj;
