//! A gesture interpretation library for a remote touchpad: it turns raw
//! per-event touch deltas and speeds into relative cursor motion, discrete
//! scroll ticks, clicks and key presses, with precision/acceleration
//! regimes, edge damping, inertia carry, outlier rejection and scroll
//! throttling. All quantities are fixed-point integers in milli-units.

pub mod event;
pub mod interp;
pub mod laws;
pub mod math;
