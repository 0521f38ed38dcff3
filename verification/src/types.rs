//! Shared type aliases of the renderer.

use vstd::prelude::*;
use crate::vec3::Vec3;

verus! {

/// One output pixel: red, green, blue bytes.
pub type PPMColor = (u8, u8, u8);

/// A color in linear light, one fixed-point scalar per channel.
pub type Color = Vec3;

/// A rendered image: rows from top to bottom, pixels left to right.
pub type Image = Vec<Vec<PPMColor>>;

/// A position in space.
pub type Point = Vec3;

} // verus!
