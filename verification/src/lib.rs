//! A geometric sampling-and-filtering pipeline: random 2D points, exhaustive
//! pairwise line segments, midpoint segments, and a length-sorted
//! collision-pruning pass that approximates a Voronoi edge skeleton.

pub mod geometry;
pub mod pairs;
pub mod prune;
pub mod sampling;
pub mod sorting;
pub mod voronoi;

pub use geometry::Point;
pub use geometry::Line;
pub use geometry::Rect;
pub use voronoi::Polygon;
pub use voronoi::Voronoi;
