use vstd::prelude::*;

verus! {

/// A position in compositor logical units; the wire protocol carries
/// coordinates as signed 32-bit integers.
#[derive(Clone, Copy, Debug, PartialEq, Eq, Structural)]
pub struct Position {
    pub x: i32,
    pub y: i32,
}

/// A size in compositor logical units.
#[derive(Clone, Copy, Debug, PartialEq, Eq, Structural)]
pub struct Size {
    pub width: u32,
    pub height: u32,
}

/// A rectangle in compositor logical units (post-scale).
#[derive(Clone, Copy, Debug, PartialEq, Eq, Structural)]
pub struct LogicalRegion {
    pub position: Position,
    pub size: Size,
}

/// Larger of two mathematical integers.
pub open spec fn max_int(a: int, b: int) -> int {
    if a >= b {
        a
    } else {
        b
    }
}

/// Smaller of two mathematical integers.
pub open spec fn min_int(a: int, b: int) -> int {
    if a <= b {
        a
    } else {
        b
    }
}

impl LogicalRegion {
    pub open spec fn left(self) -> int {
        self.position.x as int
    }

    pub open spec fn top(self) -> int {
        self.position.y as int
    }

    pub open spec fn right(self) -> int {
        self.position.x + self.size.width
    }

    pub open spec fn bottom(self) -> int {
        self.position.y + self.size.height
    }

    /// Both extents fit the signed 32-bit range in which the wire protocol
    /// reports logical sizes.
    pub open spec fn fits_wire(self) -> bool {
        self.size.width <= i32::MAX && self.size.height <= i32::MAX
    }

    /// The rectangles overlap with positive area.
    pub open spec fn intersects(self, other: LogicalRegion) -> bool {
        &&& max_int(self.left(), other.left()) < min_int(self.right(), other.right())
        &&& max_int(self.top(), other.top()) < min_int(self.bottom(), other.bottom())
    }

    /// Whether the rectangles overlap with positive area.
    pub fn intersects_exec(&self, other: &LogicalRegion) -> (r: bool)
        ensures
            r == self.intersects(*other),
    {
        let ax1: i64 = self.position.x as i64;
        let ay1: i64 = self.position.y as i64;
        let ax2: i64 = ax1 + self.size.width as i64;
        let ay2: i64 = ay1 + self.size.height as i64;
        let bx1: i64 = other.position.x as i64;
        let by1: i64 = other.position.y as i64;
        let bx2: i64 = bx1 + other.size.width as i64;
        let by2: i64 = by1 + other.size.height as i64;
        let lx: i64 = if ax1 >= bx1 {
            ax1
        } else {
            bx1
        };
        let rx: i64 = if ax2 <= bx2 {
            ax2
        } else {
            bx2
        };
        let ty: i64 = if ay1 >= by1 {
            ay1
        } else {
            by1
        };
        let by: i64 = if ay2 <= by2 {
            ay2
        } else {
            by2
        };
        lx < rx && ty < by
    }
}

/// Left edge of the intersection of two rectangles.
pub open spec fn inter_left(a: LogicalRegion, b: LogicalRegion) -> int {
    max_int(a.left(), b.left())
}

/// Top edge of the intersection of two rectangles.
pub open spec fn inter_top(a: LogicalRegion, b: LogicalRegion) -> int {
    max_int(a.top(), b.top())
}

/// Width of the intersection of two rectangles (meaningful when they
/// intersect).
pub open spec fn inter_width(a: LogicalRegion, b: LogicalRegion) -> int {
    min_int(a.right(), b.right()) - inter_left(a, b)
}

/// Height of the intersection of two rectangles (meaningful when they
/// intersect).
pub open spec fn inter_height(a: LogicalRegion, b: LogicalRegion) -> int {
    min_int(a.bottom(), b.bottom()) - inter_top(a, b)
}

/// A logical region clipped to, and expressed relative to, one output's
/// logical region; used for partial-output capture.
#[derive(Clone, Copy, Debug, PartialEq, Eq, Structural)]
pub struct EmbeddedRegion {
    /// The owning output's logical region.
    pub output_region: LogicalRegion,
    /// The clipped rectangle, relative to `output_region`'s position.
    pub relative: LogicalRegion,
}

/// The embedded region that clipping `region` to `output_region` yields
/// (meaningful when the two intersect with positive area).
pub open spec fn spec_embed(region: LogicalRegion, output_region: LogicalRegion) -> EmbeddedRegion {
    EmbeddedRegion {
        output_region,
        relative: LogicalRegion {
            position: Position {
                x: (inter_left(region, output_region) - output_region.position.x) as i32,
                y: (inter_top(region, output_region) - output_region.position.y) as i32,
            },
            size: Size {
                width: inter_width(region, output_region) as u32,
                height: inter_height(region, output_region) as u32,
            },
        },
    }
}

impl EmbeddedRegion {
    /// The clipped rectangle has positive area, lies inside the owning
    /// output's region, and its absolute coordinates fit the wire range.
    pub open spec fn wf(self) -> bool {
        &&& self.output_region.fits_wire()
        &&& self.relative.fits_wire()
        &&& 0 < self.relative.size.width
        &&& 0 < self.relative.size.height
        &&& 0 <= self.relative.position.x
        &&& 0 <= self.relative.position.y
        &&& self.relative.position.x + self.relative.size.width <= self.output_region.size.width
        &&& self.relative.position.y + self.relative.size.height
            <= self.output_region.size.height
        &&& self.output_region.position.x + self.relative.position.x <= i32::MAX
        &&& self.output_region.position.y + self.relative.position.y <= i32::MAX
    }

    /// The absolute region this embedded region denotes in the composite
    /// coordinate space.
    pub open spec fn spec_logical(self) -> LogicalRegion {
        LogicalRegion {
            position: Position {
                x: (self.output_region.position.x + self.relative.position.x) as i32,
                y: (self.output_region.position.y + self.relative.position.y) as i32,
            },
            size: self.relative.size,
        }
    }

    /// Clip `region` to `output_region`. Returns a value exactly when the
    /// two rectangles' intersection has positive area; the returned region's
    /// size equals that intersection's size and its absolute position is the
    /// intersection's top-left corner.
    pub fn new(region: LogicalRegion, output_region: LogicalRegion) -> (r: Option<
        EmbeddedRegion,
    >)
        requires
            region.fits_wire(),
            output_region.fits_wire(),
        ensures
            r is Some <==> region.intersects(output_region),
            r is Some ==> {
                let e = r.unwrap();
                &&& e == spec_embed(region, output_region)
                &&& e.wf()
                &&& e.output_region == output_region
                &&& e.relative.size.width == inter_width(region, output_region)
                &&& e.relative.size.height == inter_height(region, output_region)
                &&& e.spec_logical().position.x == inter_left(region, output_region)
                &&& e.spec_logical().position.y == inter_top(region, output_region)
            },
    {
        let ax1: i64 = region.position.x as i64;
        let ay1: i64 = region.position.y as i64;
        let ax2: i64 = ax1 + region.size.width as i64;
        let ay2: i64 = ay1 + region.size.height as i64;
        let bx1: i64 = output_region.position.x as i64;
        let by1: i64 = output_region.position.y as i64;
        let bx2: i64 = bx1 + output_region.size.width as i64;
        let by2: i64 = by1 + output_region.size.height as i64;

        let ix1: i64 = if ax1 >= bx1 {
            ax1
        } else {
            bx1
        };
        let iy1: i64 = if ay1 >= by1 {
            ay1
        } else {
            by1
        };
        let ix2: i64 = if ax2 <= bx2 {
            ax2
        } else {
            bx2
        };
        let iy2: i64 = if ay2 <= by2 {
            ay2
        } else {
            by2
        };

        if ix1 < ix2 && iy1 < iy2 {
            let relative = LogicalRegion {
                position: Position { x: (ix1 - bx1) as i32, y: (iy1 - by1) as i32 },
                size: Size { width: (ix2 - ix1) as u32, height: (iy2 - iy1) as u32 },
            };
            Some(EmbeddedRegion { output_region, relative })
        } else {
            None
        }
    }

    /// The absolute region this embedded region denotes.
    pub fn logical(&self) -> (r: LogicalRegion)
        requires
            self.wf(),
        ensures
            r == self.spec_logical(),
    {
        LogicalRegion {
            position: Position {
                x: self.output_region.position.x + self.relative.position.x,
                y: self.output_region.position.y + self.relative.position.y,
            },
            size: self.relative.size,
        }
    }
}

} // verus!
