//! An interactive, CPU-based ray-tracing renderer.
//!
//! The renderer produces a 2D pixel buffer for a scene of reflective spheres
//! over an infinite checkerboard ground plane, lit by point lights, reacting
//! to discrete camera actions.  All geometry and shading arithmetic runs on
//! signed 64-bit fixed-point scalars (one unit is `fixed::ONE` raw steps), so
//! every stage of the kernel — intersection, recursive shading, sampling,
//! frame assembly and the dirty-frame policy — carries a proved contract.

pub mod action;
pub mod color;
pub mod fixed;
pub mod fps;
pub mod rng;
pub mod scene;
pub mod time;
pub mod tracer;
pub mod trig;
pub mod vector;
