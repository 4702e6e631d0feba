//! Integer points and rectangles.

use vstd::prelude::*;

verus! {

/// A point with signed integer coordinates.
#[derive(Debug, Clone, Copy, PartialEq, Eq, Structural)]
pub struct IntPoint {
    pub x: isize,
    pub y: isize,
}

impl IntPoint {
    pub fn new(x: isize, y: isize) -> (p: Self)
        ensures
            p == (IntPoint { x, y }),
    {
        IntPoint { x, y }
    }
}

/// A rectangle: a corner and two extents.
#[derive(Debug, Clone, Copy, PartialEq, Eq, Structural)]
pub struct IntRect {
    pub location: IntPoint,
    pub width: isize,
    pub height: isize,
}

/// The corner coordinate of a normalized extent: a negative extent moves the
/// corner back by its length.
pub open spec fn normalized_origin(origin: int, extent: int) -> int {
    if extent < 0 {
        origin + extent
    } else {
        origin
    }
}

/// The length of an extent, whatever its sign.
pub open spec fn normalized_extent(extent: int) -> int {
    if extent < 0 {
        -extent
    } else {
        extent
    }
}

/// Whether an origin and an extent can be normalized within `isize`.
pub open spec fn normalizable(origin: int, extent: int) -> bool {
    &&& isize::MIN <= normalized_origin(origin, extent)
    &&& normalized_extent(extent) <= isize::MAX
}

impl IntRect {
    /// The rectangle that `new` builds, as a mathematical value.
    pub open spec fn normalized(location: IntPoint, width: int, height: int) -> IntRect {
        IntRect {
            location: IntPoint {
                x: normalized_origin(location.x as int, width) as isize,
                y: normalized_origin(location.y as int, height) as isize,
            },
            width: normalized_extent(width) as isize,
            height: normalized_extent(height) as isize,
        }
    }

    /// Whether the rectangle spans the point `(x, y)`, edges included.
    pub open spec fn covers(&self, x: int, y: int) -> bool {
        &&& self.location.x <= x <= self.location.x + self.width
        &&& self.location.y <= y <= self.location.y + self.height
    }

    /// A rectangle over the same area with both extents non-negative: a
    /// negative extent is negated and the corner shifted by it.
    pub fn new(location: IntPoint, width: isize, height: isize) -> (r: Self)
        requires
            normalizable(location.x as int, width as int),
            normalizable(location.y as int, height as int),
        ensures
            r == Self::normalized(location, width as int, height as int),
            r.width >= 0,
            r.height >= 0,
    {
        let mut location = location;
        let mut width = width;
        let mut height = height;
        if width < 0 {
            location.x = location.x + width;
            width = -width;
        }
        if height < 0 {
            location.y = location.y + height;
            height = -height;
        }
        IntRect { location, width, height }
    }

    pub fn x(&self) -> (x: isize)
        ensures
            x == self.location.x,
    {
        self.location.x
    }

    pub fn y(&self) -> (y: isize)
        ensures
            y == self.location.y,
    {
        self.location.y
    }
}

/// Building a rectangle from negated extents gives the rectangle that the
/// positive extents give from the corner shifted back by them, and its
/// extents are never negative.
pub proof fn lemma_negative_extents_denote_shifted_rect(location: IntPoint, width: int, height: int)
    requires
        0 <= width <= isize::MAX,
        0 <= height <= isize::MAX,
        isize::MIN <= location.x - width,
        isize::MIN <= location.y - height,
    ensures
        IntRect::normalized(location, -width, -height) == IntRect::normalized(
            IntPoint { x: (location.x - width) as isize, y: (location.y - height) as isize },
            width,
            height,
        ),
        IntRect::normalized(location, -width, -height).width >= 0,
        IntRect::normalized(location, -width, -height).height >= 0,
        forall|x: int, y: int|
            #[trigger] IntRect::normalized(location, -width, -height).covers(x, y) <==> (location.x - width
                <= x <= location.x && location.y - height <= y <= location.y),
{
}

} // verus!
