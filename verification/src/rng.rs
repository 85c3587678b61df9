//! Random vectors and matrices.
//!
//! The raw randomness comes from the `rand` crate; every component is
//! drawn as a machine word and nothing is promised of its value beyond
//! its type's range.

use vstd::prelude::*;
use crate::fx::{Fx, FX_ONE};
use crate::vecn::{Vec2, Vec3, Vec4};
use crate::matn::Mat4;
use crate::ivec::Vec3i;

verus! {

/// Relies on rand::random: a value drawn from the standard
/// distribution of its type; nothing can be promised of which one.
pub assume_specification<T>[ rand::random::<T> ]() -> (r: T)
    where
        rand::distributions::Standard: rand::distributions::Distribution<T>,
;

/// One random scalar in `[0, 1)`: a random 16-bit word taken as the raw
/// fraction.
pub fn random_fx() -> (r: Fx)
    ensures
        0 <= r@ < FX_ONE as int,
{
    let v: u16 = rand::random::<u16>();
    Fx { raw: v as i64 }
}

/// One random whole-unit integer component.
pub fn random_i64() -> (r: i64)
{
    rand::random::<i64>()
}

impl Vec2 {
    /// A random vector with components in `[0, 1)`.
    pub fn random() -> (r: Vec2)
        ensures
            0 <= r.x@ < FX_ONE as int,
            0 <= r.y@ < FX_ONE as int,
    {
        Vec2 { x: random_fx(), y: random_fx() }
    }
}

impl Vec3 {
    /// A random vector with components in `[0, 1)`.
    pub fn random() -> (r: Vec3)
        ensures
            0 <= r.x@ < FX_ONE as int,
            0 <= r.y@ < FX_ONE as int,
            0 <= r.z@ < FX_ONE as int,
    {
        Vec3 { x: random_fx(), y: random_fx(), z: random_fx() }
    }
}

impl Vec4 {
    /// A random vector with components in `[0, 1)`.
    pub fn random() -> (r: Vec4)
        ensures
            0 <= r.x@ < FX_ONE as int,
            0 <= r.y@ < FX_ONE as int,
            0 <= r.z@ < FX_ONE as int,
            0 <= r.w@ < FX_ONE as int,
    {
        Vec4 { x: random_fx(), y: random_fx(), z: random_fx(), w: random_fx() }
    }
}

impl Mat4 {
    /// A random matrix with entries in `[0, 1)`.
    pub fn random() -> (r: Mat4)
        ensures
            0 <= r.r0.x@ < FX_ONE as int,
            0 <= r.r0.y@ < FX_ONE as int,
            0 <= r.r0.z@ < FX_ONE as int,
            0 <= r.r0.w@ < FX_ONE as int,
            0 <= r.r1.x@ < FX_ONE as int,
            0 <= r.r1.y@ < FX_ONE as int,
            0 <= r.r1.z@ < FX_ONE as int,
            0 <= r.r1.w@ < FX_ONE as int,
            0 <= r.r2.x@ < FX_ONE as int,
            0 <= r.r2.y@ < FX_ONE as int,
            0 <= r.r2.z@ < FX_ONE as int,
            0 <= r.r2.w@ < FX_ONE as int,
            0 <= r.r3.x@ < FX_ONE as int,
            0 <= r.r3.y@ < FX_ONE as int,
            0 <= r.r3.z@ < FX_ONE as int,
            0 <= r.r3.w@ < FX_ONE as int,
    {
        Mat4 { r0: Vec4::random(), r1: Vec4::random(), r2: Vec4::random(), r3: Vec4::random() }
    }
}

impl Vec3i {
    /// A random integer vector.
    pub fn random() -> (r: Vec3i)
    {
        Vec3i { x: random_i64(), y: random_i64(), z: random_i64() }
    }
}

} // verus!
