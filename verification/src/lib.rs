//! Host-side core of a planetary-surface simulator: a cubic scalar field, the
//! double-buffered coupling to a compute kernel, and the fixed-step frame
//! scheduler that drives them.

pub mod binary32;
pub mod camera;
pub mod coupling;
pub mod events;
pub mod game;
pub mod geometry;
pub mod gradient;
pub mod grid;
pub mod scalar_field;
pub mod simulation;
