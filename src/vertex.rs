use vstd::prelude::*;
use crate::geometry::{Fixed2, Fixed3};

verus! {

/// A vertex after the viewport map: `x` and `y` in whole pixels, `depth` in
/// units of `1 / FIXED_ONE`.
#[derive(Clone, Copy, Debug, PartialEq, Eq, Structural)]
pub struct ScreenPoint {
    pub x: i32,
    pub y: i32,
    pub depth: i32,
}

/// A mesh vertex: model-space attributes and, once the vertex stage has run,
/// its screen position and world-space normal.
#[derive(Clone, Copy, Debug, PartialEq, Eq, Structural)]
pub struct Vertex {
    pub position: Fixed3,
    pub normal: Fixed3,
    pub tex_coords: Fixed2,
    pub transformed_position: ScreenPoint,
    pub transformed_normal: Fixed3,
}

impl Vertex {
    /// A vertex whose derived attributes are not yet computed: screen
    /// position at the origin, transformed normal equal to the normal.
    pub fn new(position: Fixed3, normal: Fixed3, tex_coords: Fixed2) -> (v: Vertex)
        ensures
            v.position == position,
            v.normal == normal,
            v.tex_coords == tex_coords,
            v.transformed_position == (ScreenPoint { x: 0, y: 0, depth: 0 }),
            v.transformed_normal == normal,
    {
        Vertex {
            position,
            normal,
            tex_coords,
            transformed_position: ScreenPoint { x: 0, y: 0, depth: 0 },
            transformed_normal: normal,
        }
    }

    /// The same vertex with its derived attributes set.
    pub fn with_transform(&self, screen: ScreenPoint, normal: Fixed3) -> (v: Vertex)
        ensures
            v == (Vertex { transformed_position: screen, transformed_normal: normal, ..*self }),
    {
        Vertex { transformed_position: screen, transformed_normal: normal, ..*self }
    }
}

} // verus!
