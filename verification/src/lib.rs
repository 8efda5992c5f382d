//! Data-to-geometry pipeline for a live multi-panel performance dashboard.
//!
//! Scalar samples are stored in fixed-point milli-units (one unit is split
//! into a thousand subunits), which keeps every computation in exact integer
//! arithmetic: ring-buffered sample history, natural cubic-spline fitting,
//! animated range normalization, adaptive grid layout, and tessellation into
//! quantized vertex streams for an external renderer.

pub mod fixed;
pub mod graphic;
pub mod layout;
pub mod query;
pub mod spline;
