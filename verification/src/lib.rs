//! Frustum culling with exact scalars.
//!
//! A `FrustumIntersection` holds the six half-space planes of a camera's view
//! volume, derived from a combined projection (or projection × view) matrix by
//! the classical row-combination extraction, and classifies points, spheres
//! and axis-aligned boxes as inside, outside, or partially intersecting.
//!
//! All scalars are exact integers (fixed-point values chosen by the caller),
//! so every operation is total and every contract below is proved precisely.

pub mod geom;
pub mod math;
pub mod norm;
pub mod frustum;
pub mod laws;

pub use frustum::FrustumIntersection;
pub use frustum::IntersectionResult;
pub use frustum::PlaneTest;
pub use frustum::combine_plane_tests;
pub use geom::Mat4;
pub use geom::Plane;
pub use geom::Vec3;
pub use geom::Vec4;
