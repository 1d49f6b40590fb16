//! Axis-aligned screen-space rectangles.
//!
//! A `Region` is a pure value: containment and intersection use half-open
//! interval semantics (a point on the right or bottom edge is outside, and
//! two rectangles that merely touch do not intersect).

use vstd::prelude::*;

verus! {

/// Upper bound on the magnitude of any stored coordinate.  Keeping every
/// corner of a well-formed region within this bound makes every region
/// operation free of 64-bit overflow.
pub const COORD_LIMIT: i64 = 0x10_0000_0000_0000;

/// Region bounds in screen coordinates (thousandths of a pixel).
#[derive(Debug, Clone, Copy, PartialEq, Eq, Structural)]
pub struct Region {
    pub x: i64,
    pub y: i64,
    pub width: i64,
    pub height: i64,
}

impl Region {
    /// A well-formed region has non-negative dimensions and all four
    /// corners within `COORD_LIMIT`.
    pub open spec fn wf(self) -> bool {
        &&& 0 <= self.width
        &&& 0 <= self.height
        &&& -COORD_LIMIT <= self.x
        &&& -COORD_LIMIT <= self.y
        &&& self.x + self.width <= COORD_LIMIT
        &&& self.y + self.height <= COORD_LIMIT
    }

    /// Half-open containment: `x <= px < x + width`, likewise for `y`.
    pub open spec fn contains_spec(self, px: int, py: int) -> bool {
        &&& self.x <= px < self.x + self.width
        &&& self.y <= py < self.y + self.height
    }

    /// Two regions intersect unless one lies fully to a side of the other;
    /// touching edges do not count.
    pub open spec fn intersects_spec(self, other: Region) -> bool {
        !(self.x >= other.x + other.width || self.x + self.width <= other.x || self.y >= other.y
            + other.height || self.y + self.height <= other.y)
    }

    /// The overlap rectangle, or `None` when the regions do not intersect.
    pub open spec fn intersection_spec(self, other: Region) -> Option<Region> {
        if !self.intersects_spec(other) {
            None
        } else {
            let x1: i64 = if self.x >= other.x {
                self.x
            } else {
                other.x
            };
            let y1: i64 = if self.y >= other.y {
                self.y
            } else {
                other.y
            };
            let x2 = if self.x + self.width <= other.x + other.width {
                self.x + self.width
            } else {
                other.x + other.width
            };
            let y2 = if self.y + self.height <= other.y + other.height {
                self.y + self.height
            } else {
                other.y + other.height
            };
            Some(
                Region {
                    x: x1,
                    y: y1,
                    width: (x2 - x1) as i64,
                    height: (y2 - y1) as i64,
                },
            )
        }
    }

    /// Bounding box of two regions; always defined.
    pub open spec fn union_spec(self, other: Region) -> Region {
        let x1: i64 = if self.x <= other.x {
            self.x
        } else {
            other.x
        };
        let y1: i64 = if self.y <= other.y {
            self.y
        } else {
            other.y
        };
        let x2 = if self.x + self.width >= other.x + other.width {
            self.x + self.width
        } else {
            other.x + other.width
        };
        let y2 = if self.y + self.height >= other.y + other.height {
            self.y + self.height
        } else {
            other.y + other.height
        };
        Region { x: x1, y: y1, width: (x2 - x1) as i64, height: (y2 - y1) as i64 }
    }

    /// Symmetric growth by `p` on all sides.
    pub open spec fn expand_spec(self, p: int) -> Region {
        Region {
            x: (self.x - p) as i64,
            y: (self.y - p) as i64,
            width: (self.width + 2 * p) as i64,
            height: (self.height + 2 * p) as i64,
        }
    }

    /// Symmetric shrink by `p` on all sides; dimensions clamp at zero.
    pub open spec fn contract_spec(self, p: int) -> Region {
        Region {
            x: (self.x + p) as i64,
            y: (self.y + p) as i64,
            width: if self.width - 2 * p >= 0 {
                (self.width - 2 * p) as i64
            } else {
                0
            },
            height: if self.height - 2 * p >= 0 {
                (self.height - 2 * p) as i64
            } else {
                0
            },
        }
    }

    pub fn new(x: i64, y: i64, width: i64, height: i64) -> (r: Region)
        requires
            0 <= width,
            0 <= height,
            -COORD_LIMIT <= x,
            -COORD_LIMIT <= y,
            x + width <= COORD_LIMIT,
            y + height <= COORD_LIMIT,
        ensures
            r == (Region { x, y, width, height }),
            r.wf(),
    {
        Region { x, y, width, height }
    }

    /// Check if a point is inside this region (half-open bounds).
    pub fn contains(&self, px: i64, py: i64) -> (r: bool)
        requires
            self.wf(),
        ensures
            r == self.contains_spec(px as int, py as int),
    {
        px >= self.x && px < self.x + self.width && py >= self.y && py < self.y + self.height
    }

    /// Get the area of this region.
    pub fn area(&self) -> (a: i128)
        requires
            self.wf(),
        ensures
            a == self.width * self.height,
    {
        proof {
            assert(self.width * self.height <= (2 * COORD_LIMIT) * (2 * COORD_LIMIT)
                && self.width * self.height >= 0) by (nonlinear_arith)
                requires
                    0 <= self.width <= 2 * COORD_LIMIT,
                    0 <= self.height <= 2 * COORD_LIMIT,
            ;
        }
        (self.width as i128) * (self.height as i128)
    }

    /// Expand region by padding on all sides.
    pub fn expand(&self, padding: i64) -> (r: Region)
        requires
            self.wf(),
            0 <= padding,
            -COORD_LIMIT <= self.x - padding,
            -COORD_LIMIT <= self.y - padding,
            self.x + self.width + padding <= COORD_LIMIT,
            self.y + self.height + padding <= COORD_LIMIT,
        ensures
            r == self.expand_spec(padding as int),
            r.wf(),
    {
        Region {
            x: self.x - padding,
            y: self.y - padding,
            width: self.width + 2 * padding,
            height: self.height + 2 * padding,
        }
    }

    /// Contract region by padding on all sides; dimensions clamp at zero.
    pub fn contract(&self, padding: i64) -> (r: Region)
        requires
            self.wf(),
            0 <= padding,
            self.x + padding <= COORD_LIMIT,
            self.y + padding <= COORD_LIMIT,
        ensures
            r == self.contract_spec(padding as int),
            r.wf(),
    {
        let w = self.width - 2 * padding;
        let h = self.height - 2 * padding;
        Region {
            x: self.x + padding,
            y: self.y + padding,
            width: if w >= 0 {
                w
            } else {
                0
            },
            height: if h >= 0 {
                h
            } else {
                0
            },
        }
    }

    /// Get the center point of this region.
    pub fn center(&self) -> (c: (i64, i64))
        requires
            self.wf(),
        ensures
            c.0 == self.x + self.width / 2,
            c.1 == self.y + self.height / 2,
    {
        (self.x + self.width / 2, self.y + self.height / 2)
    }

    /// Create a region from a center point and size.
    pub fn from_center(center_x: i64, center_y: i64, width: i64, height: i64) -> (r: Region)
        requires
            0 <= width,
            0 <= height,
            -COORD_LIMIT <= center_x - width / 2,
            -COORD_LIMIT <= center_y - height / 2,
            center_x - width / 2 + width <= COORD_LIMIT,
            center_y - height / 2 + height <= COORD_LIMIT,
        ensures
            r.x == center_x - width / 2,
            r.y == center_y - height / 2,
            r.width == width,
            r.height == height,
            r.wf(),
    {
        Region { x: center_x - width / 2, y: center_y - height / 2, width, height }
    }

    /// Check if this region intersects with another.
    pub fn intersects(&self, other: &Region) -> (r: bool)
        requires
            self.wf(),
            other.wf(),
        ensures
            r == self.intersects_spec(*other),
    {
        !(self.x >= other.x + other.width || self.x + self.width <= other.x || self.y >= other.y
            + other.height || self.y + self.height <= other.y)
    }

    /// Get the intersection of two regions; `None` exactly when they do
    /// not intersect.
    pub fn intersection(&self, other: &Region) -> (r: Option<Region>)
        requires
            self.wf(),
            other.wf(),
        ensures
            r == self.intersection_spec(*other),
            r is None <==> !self.intersects_spec(*other),
            r is Some ==> r.unwrap().wf(),
    {
        if !self.intersects(other) {
            return None;
        }
        let x1 = if self.x >= other.x {
            self.x
        } else {
            other.x
        };
        let y1 = if self.y >= other.y {
            self.y
        } else {
            other.y
        };
        let sx2 = self.x + self.width;
        let ox2 = other.x + other.width;
        let x2 = if sx2 <= ox2 {
            sx2
        } else {
            ox2
        };
        let sy2 = self.y + self.height;
        let oy2 = other.y + other.height;
        let y2 = if sy2 <= oy2 {
            sy2
        } else {
            oy2
        };
        Some(Region { x: x1, y: y1, width: x2 - x1, height: y2 - y1 })
    }

    /// Get the union of two regions (bounding box).
    pub fn union(&self, other: &Region) -> (r: Region)
        requires
            self.wf(),
            other.wf(),
        ensures
            r == self.union_spec(*other),
            r.wf(),
    {
        let x1 = if self.x <= other.x {
            self.x
        } else {
            other.x
        };
        let y1 = if self.y <= other.y {
            self.y
        } else {
            other.y
        };
        let sx2 = self.x + self.width;
        let ox2 = other.x + other.width;
        let x2 = if sx2 >= ox2 {
            sx2
        } else {
            ox2
        };
        let sy2 = self.y + self.height;
        let oy2 = other.y + other.height;
        let y2 = if sy2 >= oy2 {
            sy2
        } else {
            oy2
        };
        Region { x: x1, y: y1, width: x2 - x1, height: y2 - y1 }
    }
}

impl Default for Region {
    /// The default region is a 100-by-100 square at the origin.
    fn default() -> (r: Region)
        ensures
            r == (Region { x: 0, y: 0, width: 100, height: 100 }),
            r.wf(),
    {
        Region { x: 0, y: 0, width: 100, height: 100 }
    }
}

/// Every region with positive dimensions intersects itself.  (A degenerate
/// region of zero width or height intersects nothing, itself included.)
pub proof fn lemma_region_self_intersects(a: Region)
    requires
        a.wf(),
        a.width > 0,
        a.height > 0,
    ensures
        a.intersects_spec(a),
{
}

/// Contracting and then expanding by the same non-negative padding returns
/// the original region, whenever both dimensions exceed twice the padding
/// (so the zero-clamp in `contract` never engages).
pub proof fn lemma_contract_expand_round_trip(a: Region, p: int)
    requires
        a.wf(),
        0 <= p,
        2 * p < a.width,
        2 * p < a.height,
    ensures
        a.contract_spec(p).expand_spec(p) == a,
{
}

/// The overlap of two intersecting regions of positive dimensions is its
/// own self-intersection: `intersection` is `Some` exactly when the
/// regions intersect, and the overlap rectangle intersected with itself is
/// itself.  (With a degenerate input of zero width or height the overlap
/// itself can be degenerate, and a degenerate rectangle intersects
/// nothing.)
pub proof fn lemma_intersection_idempotent(a: Region, b: Region)
    requires
        a.wf(),
        b.wf(),
        a.width > 0,
        a.height > 0,
        b.width > 0,
        b.height > 0,
        a.intersects_spec(b),
    ensures
        a.intersection_spec(b) is Some,
        a.intersection_spec(b).unwrap().intersection_spec(a.intersection_spec(b).unwrap())
            == a.intersection_spec(b),
{
    let o = a.intersection_spec(b).unwrap();
    assert(o.width > 0);
    assert(o.height > 0);
    assert(o.intersects_spec(o));
}

} // verus!
