//! A verified paint backend: it consumes clipped vector-graphics primitives
//! and re-derives the sequence of 2D-surface drawing operations that renders
//! them, while keeping a side table of uploaded bitmap textures synchronized
//! with per-frame add/remove deltas.

pub mod color;
pub mod dispatch;
pub mod geom;
pub mod ops;
pub mod render;
pub mod shape;
pub mod texture;
