//! A Whitted-style recursive ray tracer over saturating fixed-point
//! arithmetic.
//!
//! All geometry, shading and colour arithmetic is done on [`fixed::Fx`],
//! a signed fixed-point number with a decimal scale of one million, so a
//! raw step of 1 is one millionth of a world unit.  Every operation is
//! total: results are clamped into a symmetric representable range, and
//! division by zero yields zero.  The contracts state the exact value of
//! every result in terms of the spec-level model functions of each module.
//!
//! Transcendental values (sines and cosines of camera angles, the tangent
//! of half the field of view) cannot be computed here; callers supply them
//! as fixed-point values, and every contract is exact in terms of the
//! supplied values.

pub mod fixed;
pub mod objects;
pub mod ray;
pub mod scene;
pub mod solver;
pub mod tracer;
pub mod vec3;

pub use fixed::Fx;
pub use objects::{Geometry, Light, Material, Object};
pub use ray::Ray;
pub use scene::Scene;
pub use solver::solve_quadratic;
pub use tracer::{Hit, ImagePlane, Orientation, RayTracer};
pub use vec3::{Axis, Mat3, Vec3};
