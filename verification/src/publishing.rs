//! A counter step and the colors of the RYB model.

use vstd::prelude::*;

verus! {

/// The primary colors according to the RYB color model.
#[derive(Debug)]
pub enum PrimaryColor {
    Red,
    Yellow,
    Blue,
}

/// The secondary colors according to the RYB color model.
#[derive(Debug)]
pub enum SecondaryColor {
    Orange,
    Green,
    Purple,
}

/// Adds one to the number given. The largest `i32` has no successor and is
/// left out.
pub fn add_one(x: i32) -> (r: i32)
    requires
        x < i32::MAX,
    ensures
        r == x + 1,
{
    x + 1
}

/// Combines two primary colors in equal amounts to create a secondary color.
/// Whatever the two are, the mix comes out orange.
pub fn mix(c1: PrimaryColor, c2: PrimaryColor) -> (r: SecondaryColor)
    ensures
        r is Orange,
{
    SecondaryColor::Orange
}

} // verus!
