use vstd::prelude::*;

use crate::coord::lemma_index_round_trip;
use crate::coord::Coord;

verus! {

/// A rectangle of coordinates
///
/// In a typical screen-space system (x = right, y = down) `min` is the
/// top-left and `max` the bottom-right corner, both inclusive. No relation
/// between the corners is required: when `min` exceeds `max` on either axis
/// the rectangle simply contains no coordinate.
#[derive(Debug, Copy, Clone, Eq, PartialEq, Structural)]
pub struct Rect {
    min: Coord,
    max: Coord,
}

impl Rect {
    /// The top-left corner
    pub closed spec fn spec_min(&self) -> Coord {
        self.min
    }

    /// The bottom-right corner
    pub closed spec fn spec_max(&self) -> Coord {
        self.max
    }

    /// The number of columns the rectangle spans
    pub open spec fn spec_nx(&self) -> int {
        if self.spec_min().x <= self.spec_max().x {
            self.spec_max().x - self.spec_min().x + 1
        } else {
            0
        }
    }

    /// The number of rows the rectangle spans
    pub open spec fn spec_ny(&self) -> int {
        if self.spec_min().y <= self.spec_max().y {
            self.spec_max().y - self.spec_min().y + 1
        } else {
            0
        }
    }

    /// The coordinates contained in the rectangle: `x` runs in the outer
    /// position, `y` in the inner one
    pub open spec fn spec_coords(&self) -> Seq<Coord> {
        let ny = self.spec_ny();
        Seq::new(
            (self.spec_nx() * ny) as nat,
            |k: int|
                (Coord {
                    x: (self.spec_min().x + k / ny) as i32,
                    y: (self.spec_min().y + k % ny) as i32,
                }),
        )
    }

    /// Create rectangle from the `min` and `max` coordinates
    ///
    /// In a typical screen-space system (x = right, y = down)
    /// `min` is the top-left, and `max` is the bottom right
    pub fn from_min_max(min: Coord, max: Coord) -> (r: Self)
        ensures
            r.spec_min() == min,
            r.spec_max() == max,
    {
        Self { min, max }
    }

    /// Returns the coordinates contained in the rectangle, column by column
    #[must_use]
    #[verifier::loop_isolation(false)]
    pub fn coords(self) -> (r: Vec<Coord>)
        requires
            self.spec_nx() * self.spec_ny() <= usize::MAX,
        ensures
            r@ == self.spec_coords(),
    {
        let mut result: Vec<Coord> = Vec::new();
        if self.min.x > self.max.x || self.min.y > self.max.y {
            proof {
                assert(self.spec_nx() * self.spec_ny() == 0) by (nonlinear_arith)
                    requires
                        self.spec_nx() == 0 || self.spec_ny() == 0,
                ;
                assert(result@ =~= self.spec_coords());
            }
            return result;
        }
        let ghost ny = self.spec_ny();
        let mut xi: i64 = self.min.x as i64;
        while xi <= self.max.x as i64
            invariant
                self.spec_min().x <= xi <= self.spec_max().x + 1,
                result@.len() == (xi - self.spec_min().x) * ny,
                forall|k: int|
                    0 <= k < result@.len() ==> #[trigger] result@[k] == self.spec_coords()[k],
            decreases self.spec_max().x - xi + 1,
        {
            let mut yi: i64 = self.min.y as i64;
            while yi <= self.max.y as i64
                invariant
                    xi <= self.spec_max().x,
                    self.spec_min().y <= yi <= self.spec_max().y + 1,
                    result@.len() == (xi - self.spec_min().x) * ny + (yi - self.spec_min().y),
                    forall|k: int|
                        0 <= k < result@.len() ==> #[trigger] result@[k] == self.spec_coords()[k],
                decreases self.spec_max().y - yi + 1,
            {
                proof {
                    let col = xi - self.spec_min().x;
                    let row = yi - self.spec_min().y;
                    lemma_index_round_trip(ny, row, col);
                    assert(col * ny + row < self.spec_nx() * ny) by (nonlinear_arith)
                        requires
                            0 <= row < ny,
                            0 <= col < self.spec_nx(),
                    ;
                }
                result.push(Coord::new(xi as i32, yi as i32));
                yi = yi + 1;
            }
            proof {
                assert((xi - self.spec_min().x) * ny + ny == (xi + 1 - self.spec_min().x) * ny)
                    by (nonlinear_arith);
            }
            xi = xi + 1;
        }
        proof {
            assert(result@.len() == self.spec_coords().len()) by (nonlinear_arith)
                requires
                    result@.len() == (self.spec_max().x + 1 - self.spec_min().x) * ny,
                    self.spec_nx() == self.spec_max().x + 1 - self.spec_min().x,
                    ny == self.spec_ny(),
                    self.spec_coords().len() == (self.spec_nx() * self.spec_ny()) as nat,
            ;
            assert(result@ =~= self.spec_coords());
        }
        result
    }
}

} // verus!
