//! A render pipeline: named targets, shading effects, passes grouped into
//! toggleable stages, and the per-frame dispatch that records device commands
//! into encoders, fanning per-model work out over several of them.
pub mod clear;
pub mod dispatch;
pub mod effect;
pub mod encoder;
pub mod error;
pub mod flat;
pub mod input;
pub mod pass;
pub mod pipeline;
pub mod scene;
pub mod shaded;
pub mod stage;
pub mod target;
pub mod types;
pub mod uniforms;
mod util;
pub mod vertex;
