//! Cell coordinates, sizes and rectangular display regions.

use vstd::prelude::*;

verus! {

/// A character-cell coordinate: `x` is the column, `y` the row.
#[derive(Debug, Clone, Copy, PartialEq, Eq, Structural, Default)]
pub struct Location {
    pub x: usize,
    pub y: usize,
}

/// A width and a height in character cells.
#[derive(Debug, Clone, Copy, PartialEq, Eq, Structural, Default)]
pub struct Size {
    pub width: usize,
    pub height: usize,
}

impl Location {
    pub fn new(x: usize, y: usize) -> (r: Location)
        ensures
            r == (Location { x, y }),
    {
        Location { x, y }
    }

    /// Both coordinates as `u16`, where both fit.
    pub fn as_u16_checked(&self) -> (r: Option<(u16, u16)>)
        ensures
            r == (if self.x <= u16::MAX && self.y <= u16::MAX {
                Some((self.x as u16, self.y as u16))
            } else {
                None
            }),
    {
        if self.x <= 0xffff && self.y <= 0xffff {
            Some((self.x as u16, self.y as u16))
        } else {
            None
        }
    }
}

impl Size {
    pub fn new(width: usize, height: usize) -> (r: Size)
        ensures
            r == (Size { width, height }),
    {
        Size { width, height }
    }
}


/// How two sizes compare: ordered only when both dimensions agree in
/// direction; a size wider but not taller than another is incomparable to it.
pub open spec fn size_order(a: Size, b: Size) -> Option<core::cmp::Ordering> {
    if a.width < b.width && a.height < b.height {
        Some(core::cmp::Ordering::Less)
    } else if a.width > b.width && a.height > b.height {
        Some(core::cmp::Ordering::Greater)
    } else if a.width == b.width && a.height == b.height {
        Some(core::cmp::Ordering::Equal)
    } else {
        None
    }
}

impl PartialOrd for Size {
    fn partial_cmp(&self, other: &Size) -> (r: Option<core::cmp::Ordering>)
        ensures
            r == size_order(*self, *other),
    {
        if self.width < other.width && self.height < other.height {
            Some(core::cmp::Ordering::Less)
        } else if self.width > other.width && self.height > other.height {
            Some(core::cmp::Ordering::Greater)
        } else if self.width == other.width && self.height == other.height {
            Some(core::cmp::Ordering::Equal)
        } else {
            None
        }
    }
}

impl vstd::std_specs::cmp::PartialOrdSpecImpl for Size {
    open spec fn obeys_partial_cmp_spec() -> bool {
        true
    }

    open spec fn partial_cmp_spec(&self, other: &Size) -> Option<core::cmp::Ordering> {
        size_order(*self, *other)
    }
}

/// A rectangle of cells: its top-left corner and its size. The far edges
/// stay within the range of `usize`.
#[derive(Debug, Clone, Copy, PartialEq, Eq, Structural)]
pub struct Area {
    left_top: Location,
    size: Size,
}

impl Area {
    #[verifier::type_invariant]
    pub open spec fn fits(self) -> bool {
        &&& self.spec_left_top().x + self.spec_size().width <= usize::MAX
        &&& self.spec_left_top().y + self.spec_size().height <= usize::MAX
    }

    pub closed spec fn spec_left_top(self) -> Location {
        self.left_top
    }

    pub closed spec fn spec_size(self) -> Size {
        self.size
    }

    pub fn new(x: usize, y: usize, w: usize, h: usize) -> (r: Area)
        requires
            x + w <= usize::MAX,
            y + h <= usize::MAX,
        ensures
            r.spec_left_top() == (Location { x, y }),
            r.spec_size() == (Size { width: w, height: h }),
    {
        Area { left_top: Location { x, y }, size: Size { width: w, height: h } }
    }

    pub fn x(&self) -> (r: usize)
        ensures
            r == self.spec_left_top().x,
    {
        self.left_top.x
    }

    pub fn y(&self) -> (r: usize)
        ensures
            r == self.spec_left_top().y,
    {
        self.left_top.y
    }

    pub fn width(&self) -> (r: usize)
        ensures
            r == self.spec_size().width,
    {
        self.size.width
    }

    pub fn height(&self) -> (r: usize)
        ensures
            r == self.spec_size().height,
    {
        self.size.height
    }

    pub fn size(&self) -> (r: Size)
        ensures
            r == self.spec_size(),
    {
        self.size
    }

    pub fn left_top(&self) -> (r: Location)
        ensures
            r == self.spec_left_top(),
    {
        self.left_top
    }

    /// The origin shifted by half the size (rounded down) in each direction.
    pub fn center(&self) -> (r: Location)
        ensures
            r.x == self.spec_left_top().x + self.spec_size().width / 2,
            r.y == self.spec_left_top().y + self.spec_size().height / 2,
    {
        proof {
            use_type_invariant(self);
        }
        Location { x: self.size.width / 2 + self.left_top.x, y: self.size.height / 2 + self.left_top.y }
    }
}

} // verus!
