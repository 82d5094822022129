//! The interaction layer of a mesh viewport: orbit-camera input, pointer
//! picking with click-versus-drag classification, the highlighted-edge
//! selection, and the index data that meshes are built from.
pub mod camera;
pub mod picking;
pub mod mesh_index;
