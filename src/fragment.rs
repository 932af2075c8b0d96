use vstd::prelude::*;
use crate::color::{Color, FRACTION_ONE};
use crate::geometry::{Fixed3, FIXED_ONE};

verus! {

/// A candidate pixel: its position, depth (units of `1 / FIXED_ONE`), base
/// color, normal and intensity (units of `1 / FRACTION_ONE`).
#[derive(Clone, Copy, Debug, PartialEq, Eq, Structural)]
pub struct Fragment {
    pub x: i32,
    pub y: i32,
    pub color: Color,
    pub depth: i32,
    pub normal: Fixed3,
    pub intensity: u32,
}

impl Fragment {
    /// A fragment facing the viewer (`+z`) at full intensity.
    pub fn new(x: i32, y: i32, color: Color, depth: i32) -> (f: Fragment)
        ensures
            f == (Fragment {
                x,
                y,
                color,
                depth,
                normal: Fixed3 { x: 0, y: 0, z: FIXED_ONE },
                intensity: FRACTION_ONE,
            }),
    {
        Fragment {
            x,
            y,
            color,
            depth,
            normal: Fixed3 { x: 0, y: 0, z: FIXED_ONE },
            intensity: FRACTION_ONE,
        }
    }

    pub fn new_with_normal(
        x: i32,
        y: i32,
        color: Color,
        depth: i32,
        normal: Fixed3,
        intensity: u32,
    ) -> (f: Fragment)
        ensures
            f == (Fragment { x, y, color, depth, normal, intensity }),
    {
        Fragment { x, y, color, depth, normal, intensity }
    }
}

} // verus!
