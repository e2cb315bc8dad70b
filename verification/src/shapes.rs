//! Rectangles with whole-number sides, and their areas.

use vstd::prelude::*;

verus! {

/// A rectangle given by the lengths of its two sides.
#[derive(Debug)]
pub struct Rectangle {
    pub width: u32,
    pub height: u32,
}

impl Rectangle {
    /// The area as a mathematical integer: height times width.
    pub open spec fn spec_area(&self) -> int {
        self.height * self.width
    }

    /// `self` is strictly taller and strictly wider than `target`.
    pub open spec fn spec_can_hold(&self, target: &Rectangle) -> bool {
        target.height < self.height && target.width < self.width
    }

    /// Returns the area of the rectangle. The area has to fit in a `u32`.
    pub fn area(&self) -> (r: u32)
        requires
            self.spec_area() <= u32::MAX,
        ensures
            r == self.spec_area(),
    {
        self.height * self.width
    }

    /// Tells whether `target` fits strictly inside `self`: it does when it is
    /// smaller in both directions. A rectangle never holds one of equal size.
    pub fn can_hold(&self, target: &Rectangle) -> (r: bool)
        ensures
            r == self.spec_can_hold(target),
    {
        target.height < self.height && target.width < self.width
    }

    /// Makes the square whose sides both have length `size`.
    pub fn square(size: u32) -> (r: Rectangle)
        ensures
            r.height == size,
            r.width == size,
    {
        Rectangle { height: size, width: size }
    }
}

/// The area of a rectangle given by two separate side lengths.
pub fn area1(width: u32, height: u32) -> (r: u32)
    requires
        width * height <= u32::MAX,
    ensures
        r == width * height,
{
    width * height
}

/// The area of a rectangle given as a pair of side lengths.
pub fn area2(dimensions: (u32, u32)) -> (r: u32)
    requires
        dimensions.0 * dimensions.1 <= u32::MAX,
    ensures
        r == dimensions.0 * dimensions.1,
{
    dimensions.0 * dimensions.1
}

/// The area of a rectangle given as a `Rectangle`, which is only borrowed.
pub fn area3(rectangle: &Rectangle) -> (r: u32)
    requires
        rectangle.spec_area() <= u32::MAX,
    ensures
        r == rectangle.spec_area(),
{
    rectangle.height * rectangle.width
}

} // verus!
