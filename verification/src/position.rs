//! Coordinates on the board and the distance between them.

use vstd::prelude::*;

verus! {

/// A cell's coordinates: `x` is the row, `y` the column.
#[derive(Copy, Clone, Debug, PartialEq, Eq, Structural)]
pub struct Position {
    pub x: usize,
    pub y: usize,
}

impl Position {
    /// The square of the Euclidean distance to `p`.
    pub open spec fn distance_squared_to(self, p: Position) -> int {
        (self.x - p.x) * (self.x - p.x) + (self.y - p.y) * (self.y - p.y)
    }

    /// Whether `p` lies within a range whose square, rounded down, is `range_squared`.
    ///
    /// Squared distances between cells are whole numbers, so a cell lies within a
    /// real range `r` exactly when its squared distance is at most the floor of `r * r`.
    pub open spec fn within(self, p: Position, range_squared: u64) -> bool {
        self.distance_squared_to(p) <= range_squared
    }

    /// Creates the position of row `x`, column `y`.
    pub fn new(x: usize, y: usize) -> (p: Position)
        ensures
            p == (Position { x, y }),
    {
        Position { x, y }
    }

    /// Returns the row.
    pub fn x(&self) -> (x: usize)
        ensures
            x == self.x,
    {
        self.x
    }

    /// Returns the column.
    pub fn y(&self) -> (y: usize)
        ensures
            y == self.y,
    {
        self.y
    }

    /// Replaces both coordinates.
    pub fn update(&mut self, x: usize, y: usize)
        ensures
            *final(self) == (Position { x, y }),
    {
        self.x = x;
        self.y = y;
    }

    /// Computes the square of the Euclidean distance to `p`, or `None` where it
    /// exceeds what a `u128` holds.
    pub fn distance_squared(&self, p: Position) -> (d: Option<u128>)
        ensures
            d == (if self.distance_squared_to(p) <= u128::MAX {
                Some(self.distance_squared_to(p) as u128)
            } else {
                None
            }),
    {
        let dx: u128 = if self.x > p.x { (self.x - p.x) as u128 } else { (p.x - self.x) as u128 };
        let dy: u128 = if self.y > p.y { (self.y - p.y) as u128 } else { (p.y - self.y) as u128 };
        assert(dx * dx <= 0xffff_ffff_ffff_ffff * 0xffff_ffff_ffff_ffff) by (nonlinear_arith)
            requires
                dx <= 0xffff_ffff_ffff_ffff,
        ;
        assert(dy * dy <= 0xffff_ffff_ffff_ffff * 0xffff_ffff_ffff_ffff) by (nonlinear_arith)
            requires
                dy <= 0xffff_ffff_ffff_ffff,
        ;
        assert(dx * dx == (self.x - p.x) * (self.x - p.x)) by (nonlinear_arith)
            requires
                dx == self.x - p.x || dx == p.x - self.x,
        ;
        assert(dy * dy == (self.y - p.y) * (self.y - p.y)) by (nonlinear_arith)
            requires
                dy == self.y - p.y || dy == p.y - self.y,
        ;
        let sx: u128 = dx * dx;
        let sy: u128 = dy * dy;
        sx.checked_add(sy)
    }

    /// Tells whether `p` lies within the range whose square, rounded down, is
    /// `range_squared`.
    pub fn is_within(&self, p: Position, range_squared: u64) -> (b: bool)
        ensures
            b == self.within(p, range_squared),
    {
        proof {
            lemma_distance_squared_metric(*self, p);
        }
        match self.distance_squared(p) {
            Some(d) => d <= range_squared as u128,
            None => false,
        }
    }
}

/// The squared distance is symmetric, never negative, and zero only between a
/// position and itself.
pub proof fn lemma_distance_squared_metric(a: Position, b: Position)
    ensures
        a.distance_squared_to(b) == b.distance_squared_to(a),
        a.distance_squared_to(b) >= 0,
        a.distance_squared_to(b) == 0 <==> a == b,
{
    let dx = a.x - b.x;
    let dy = a.y - b.y;
    assert(dx * dx >= 0 && (dx * dx == 0 <==> dx == 0)) by (nonlinear_arith);
    assert(dy * dy >= 0 && (dy * dy == 0 <==> dy == 0)) by (nonlinear_arith);
    assert(dx * dx == (-dx) * (-dx)) by (nonlinear_arith);
    assert(dy * dy == (-dy) * (-dy)) by (nonlinear_arith);
}

} // verus!
