//! Core of a screen-space triangle picker.
//!
//! The library tracks the readiness of a requested scene asset, remembers
//! which spawned entities are eligible for picking, decodes a mesh's vertex
//! and index buffers into a flat ordered triangle set, and selects the
//! nearest hit among the per-triangle outcomes of a watertight ray-triangle
//! primitive run by the host. Rendering, camera control and the primitive
//! itself are external collaborators: the host hands this core plain values
//! and takes plain values back.

pub mod geometry;
pub mod mesh;
pub mod query;
pub mod session;
pub mod state;

pub use geometry::Point;
pub use geometry::Triangle;
pub use geometry::Triangles;
pub use mesh::Indices;
pub use mesh::MeshData;
pub use mesh::unpack_glb_data;
pub use query::Hit;
pub use query::Pick;
pub use query::fire_ray;
pub use query::wrti_test;
pub use session::Session;
pub use state::DataState;
pub use state::GlbComponents;
pub use state::LoadPhase;
pub use state::setup_glb;
