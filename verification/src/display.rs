//! A display's dimensions.

use vstd::prelude::*;

verus! {

/// The size of an output surface, in pixels.
pub struct Display {
    pub width: u32,
    pub height: u32,
}

impl Display {
    pub fn new(width: u32, height: u32) -> (r: Display)
        ensures
            r.width == width,
            r.height == height,
    {
        Display { width, height }
    }
}

pub fn create_display(width: u32, height: u32) -> (r: Display)
    ensures
        r.width == width,
        r.height == height,
{
    Display::new(width, height)
}

} // verus!
