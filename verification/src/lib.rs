//! A stochastic ray tracer whose numeric core works in Q16.16 fixed-point
//! arithmetic over 64-bit integers.
//!
//! Every quantity the renderer computes with (coordinates, colors, ray
//! parameters) is an `i64` holding a real value scaled by `fixed::SCALE`.
//! Each executable routine carries a contract that pins its result to a
//! spec-level mirror of the same arithmetic, so the whole pipeline, from
//! vector algebra through sphere intersection, material scattering and the
//! radiance estimator down to pixel quantization, is verified end to end.

pub mod camera;
pub mod fixed;
pub mod hitable;
pub mod material;
pub mod ray;
pub mod render;
pub mod sampler;
pub mod sphere;
pub mod vector3d;
