//! The integer core of a stochastic path tracer: choosing hits along a ray,
//! the integrator's bounce decisions, and the gamma-corrected frame buffer.

pub mod color;
pub mod hit;
pub mod integrator;
pub mod frame;
