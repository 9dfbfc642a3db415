//! Narrow-phase contact generation over fixed-point geometry.
//!
//! Coordinates, radii and margins are integers in a fixed-point unit chosen by
//! the caller; unit normals are scaled by [`geometry::NORMAL_SCALE`].
//!
//! - `geometry`: vectors, rounded square roots and unit normals.
//! - `ids`: the allocator of contact identifiers.
//! - `manifold`: the contacts of one pair, each under a persistent identifier.
//! - `shape`: shapes, placements, the prediction margin and preprocessors.
//! - `generators`: ball/ball and plane/convex contacts.
//! - `dispatch`: the registry from pairs of shape kinds to algorithms.
//! - `algorithm`: the stateful algorithms, among them the capsule reduction.
//! - `laws`: properties that hold across calls.
pub mod geometry;
pub mod ids;
pub mod manifold;
pub mod shape;
pub mod generators;
pub mod dispatch;
pub mod algorithm;
pub mod laws;
