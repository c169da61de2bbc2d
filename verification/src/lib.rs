//! Cracked-tile ground maps from Voronoi diagrams.
//!
//! A map starts as a set of sites in the plane. Each site owns the region of
//! the plane closer to it than to any other site, its Voronoi cell. Every cell
//! that is a finite polygon becomes one flat, upward-facing triangle mesh.
//!
//! The crate works on exact values only: a coordinate is the bit pattern of an
//! IEEE-754 single-precision number, so that equality of meshes is equality of
//! bits. Computing the diagram itself is left to the caller, who hands over
//! each cell as the walk round its boundary.

pub mod face;
pub mod geometry;
pub mod map;
pub mod mesh;

pub use face::VoronoiFace;
pub use geometry::{Scalar, Vector3};
pub use map::generate_map;
pub use mesh::{generate_cell_mesh, CellMesh};
