//! Frame-stepped platformer physics on a fixed-point grid: force
//! accumulation, axis-aligned collision probing, per-kind collision
//! response and integration of positions.
pub mod fixed;
pub mod aabb;
pub mod motion;
pub mod resolve;
pub mod world;
