//! Resource-lifecycle layer for an opaque native ray-tracing engine.
//!
//! The native engine hands out raw handles and transient, scene-local
//! geometry identifiers. This crate manages object identity, ownership and
//! valid call ordering around those handles: a generational [`registry`]
//! issues stable identifiers, a [`scene`] state machine encodes the
//! one-way uncommitted-to-committed transition, and an [`identity`] map
//! translates engine-assigned scene-local identifiers back into stable
//! ones. The engine's own work (allocation, acceleration-structure builds,
//! ray queries) happens outside this crate; its results enter as plain
//! values and every decision taken on them here is verified.

pub mod device;
pub mod embree;
pub mod geometry;
pub mod identity;
pub mod registry;
pub mod scene;

pub use device::Device;
pub use device::ResourceError;
pub use embree::Embree;
pub use geometry::Geometry;
pub use geometry::GeometryID;
pub use geometry::GeometrySphere;
pub use geometry::GeometryTriangle;
pub use geometry::Triangle;
pub use identity::GeometrySceneID;
pub use identity::IdentityMap;
pub use identity::INVALID_GEOMETRY_ID;
pub use registry::Registry;
pub use registry::StableID;
pub use scene::Scene;
pub use scene::SceneCommitted;
pub use scene::SceneID;
pub use scene::SceneUncommitted;
