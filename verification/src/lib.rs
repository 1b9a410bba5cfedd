//! Capture coordinate resolution and screenshot caching for a multi-monitor
//! desktop capture tool.
//!
//! The library owns the logic of the capture path: computing the virtual
//! desktop that encloses all monitors, mapping a user-drawn selection onto the
//! one monitor that should service it (with safety clamping), caching encoded
//! captures with a byte budget and a time-to-live, and driving the reusable
//! overlay surface as a small state machine.

pub mod auth;
pub mod cache;
pub mod capture;
pub mod encode;
pub mod errors;
pub mod flow;
pub mod geometry;
pub mod ocr;
pub mod overlay_pool;
pub mod resolve;
pub mod state;
