//! Scene layout and an integer two-dimensional rigid-body core for a box of
//! bouncing balls: shapes and bounding boxes, a uniform-grid broad-phase,
//! narrow-phase overlap tests, a world of generation-counted bodies stepped
//! by semi-implicit Euler, and a contact resolver.
pub mod broad_phase;
pub mod clock;
pub mod input;
pub mod narrow_phase;
pub mod resolver;
pub mod scene;
pub mod shape;
pub mod world;
