//! A small software 3D renderer built on exact fixed-point arithmetic:
//! fixed-dimension vector/matrix algebra, geometric transforms, and a CPU
//! triangle rasterization pipeline with perspective-correct interpolation
//! and depth testing.
//!
//! Every scalar is a [`fx::Fx`] fixed-point number (a raw `i64` counting
//! steps of 2^-16), so every operation has an exact integer-level contract.

pub mod fx;
pub mod geom;
pub mod ivec;
pub mod matn;
pub mod mesh;
pub mod model;
pub mod pipeline;
pub mod rasterizer;
pub mod reps;
pub mod rng;
pub mod shader;
pub mod vecn;

use vstd::prelude::*;

verus! {

/// The capability set every scalar of this library offers: construction
/// from an integer and exact comparison against zero.
pub trait GmPrimitive: Sized + Copy {
    /// The mathematical value the scalar stands for, in raw 2^-16 steps.
    spec fn raw_val(self) -> int;

    /// The scalar standing for zero.
    fn prim_zero() -> (r: Self)
        ensures
            r.raw_val() == 0,
    ;

    /// Whether the scalar is exactly zero.
    fn prim_is_zero(self) -> (r: bool)
        ensures
            r == (self.raw_val() == 0),
    ;
}

} // verus!
