//! Pass-graph core of a 2D global-illumination sandbox: radiance-cascade hierarchy sizing,
//! jump-flood scheduling, ping-pong buffer planning and renderer selection.
//!
//! Everything here is plain data and pure decisions; a GPU backend executes the plans.

pub mod brush;
pub mod config;
pub mod jfa;
pub mod resources;
pub mod cascades;
pub mod gi;
pub mod flood;
