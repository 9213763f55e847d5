use vstd::prelude::*;

verus! {

/// A caller-supplied pairwise distance between two items of one type.
///
/// The search engine never inspects an item; it only measures distances.
/// `wf` restricts the values on which the distance is defined (for example
/// to keep its arithmetic in bounds), `dist_spec` is the distance as a
/// mathematical function of the two items, and `distance` computes it.
/// The result is a machine integer, so it is always finite and non-negative.
pub trait Distance: Sized {
    /// The values on which the distance is defined.
    spec fn wf(&self) -> bool;

    /// The distance as a function of the two items alone.
    spec fn dist_spec(&self, other: &Self) -> u64;

    /// Computes the distance from `self` to `other`.
    fn distance(&self, other: &Self) -> (r: u64)
        requires
            self.wf(),
            other.wf(),
        ensures
            r == self.dist_spec(other),
    ;
}

/// A point on a two-dimensional integer grid, measured by squared
/// Euclidean distance. Coordinates are bounded so that the distance
/// arithmetic cannot overflow.
#[derive(Clone, Copy, Debug, PartialEq, Eq, Structural)]
pub struct GridPoint {
    pub x: i64,
    pub y: i64,
}

/// Largest coordinate magnitude a well-formed `GridPoint` may have.
pub const COORD_BOUND: i64 = 1_000_000_000;

impl GridPoint {
    pub fn new(x: i64, y: i64) -> (r: GridPoint)
        requires
            -COORD_BOUND <= x <= COORD_BOUND,
            -COORD_BOUND <= y <= COORD_BOUND,
        ensures
            r.x == x,
            r.y == y,
            r.wf(),
    {
        GridPoint { x, y }
    }
}

impl Distance for GridPoint {
    open spec fn wf(&self) -> bool {
        &&& -COORD_BOUND <= self.x <= COORD_BOUND
        &&& -COORD_BOUND <= self.y <= COORD_BOUND
    }

    open spec fn dist_spec(&self, other: &Self) -> u64 {
        ((self.x - other.x) * (self.x - other.x) + (self.y - other.y) * (self.y - other.y)) as u64
    }

    fn distance(&self, other: &Self) -> (r: u64) {
        let dx = self.x - other.x;
        let dy = self.y - other.y;
        proof {
            assert(dx * dx <= 4_000_000_000_000_000_000 && dx * dx >= 0) by (nonlinear_arith)
                requires
                    -2_000_000_000 <= dx <= 2_000_000_000,
            ;
            assert(dy * dy <= 4_000_000_000_000_000_000 && dy * dy >= 0) by (nonlinear_arith)
                requires
                    -2_000_000_000 <= dy <= 2_000_000_000,
            ;
        }
        (dx * dx + dy * dy) as u64
    }
}

} // verus!
