use vstd::prelude::*;

verus! {

/// World units in the side of one tile.
pub const UNITS_PER_TILE: i32 = 1000;

/// A point in the plane, in fixed-point world units (`UNITS_PER_TILE` to a
/// tile).
#[derive(Debug, Clone, Copy, PartialEq, Eq, Structural)]
pub struct Vector2 {
    pub x: i32,
    pub y: i32,
}

/// Squared Euclidean distance between `a` and `b`.
pub open spec fn dist_sq(a: Vector2, b: Vector2) -> int {
    (a.x - b.x) * (a.x - b.x) + (a.y - b.y) * (a.y - b.y)
}

impl Vector2 {
    pub fn new(x: i32, y: i32) -> (r: Vector2)
        ensures
            r.x == x,
            r.y == y,
    {
        Vector2 { x, y }
    }

    /// Squared distance to `other`.
    pub fn dist_sq(&self, other: &Vector2) -> (r: i128)
        ensures
            r == dist_sq(*self, *other),
    {
        let dx: i128 = self.x as i128 - other.x as i128;
        let dy: i128 = self.y as i128 - other.y as i128;
        assert(0 <= dx * dx <= 0x1_0000_0000_0000_0000) by (nonlinear_arith)
            requires
                -0x1_0000_0000 <= dx <= 0x1_0000_0000,
        ;
        assert(0 <= dy * dy <= 0x1_0000_0000_0000_0000) by (nonlinear_arith)
            requires
                -0x1_0000_0000 <= dy <= 0x1_0000_0000,
        ;
        dx * dx + dy * dy
    }
}

} // verus!
