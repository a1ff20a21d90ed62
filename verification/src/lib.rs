//! Render engine for an addressable LED strip.
//!
//! The engine works in fixed-point integers throughout: hues in thousandths
//! of a degree, saturation and value in units of 1/255000, times in
//! milliseconds. `state` holds the lighting state, `api::handlers` the
//! operations that change it, `controller` the engine that turns state and
//! time into a frame, and `pixel` the colours.

pub mod api;
pub mod controller;
pub mod logging;
pub mod names;
pub mod pixel;
pub mod state;
