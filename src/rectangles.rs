use vstd::prelude::*;

verus! {

/// Area of a `width` by `height` rectangle.
pub fn area(width: u32, height: u32) -> (r: u32)
    requires
        width * height <= u32::MAX,
    ensures
        r == width * height,
{
    width * height
}

/// Area of a rectangle given as `(width, height)`.
pub fn area_tuple(dimensions: (u32, u32)) -> (r: u32)
    requires
        dimensions.0 * dimensions.1 <= u32::MAX,
    ensures
        r == dimensions.0 * dimensions.1,
{
    dimensions.0 * dimensions.1
}

#[derive(Debug)]
pub struct Rectangle {
    pub width: u32,
    pub height: u32,
}

impl Rectangle {
    /// Area of the rectangle.
    pub fn area(&self) -> (r: u32)
        requires
            self.width * self.height <= u32::MAX,
        ensures
            r == self.width * self.height,
    {
        proof {
            assert(self.height * self.width == self.width * self.height) by (nonlinear_arith);
        }
        self.height * self.width
    }
}

} // verus!
