use vstd::prelude::*;

verus! {

/// A coordinate of a grid
///
/// `x` selects the column and `y` the row. The fields are signed so that
/// out-of-range values can be rejected by [`Coord::into_index`] instead of
/// silently wrapping.
#[allow(missing_docs)]
#[derive(Debug, Clone, Copy, Default, Eq, PartialEq, Hash, Structural)]
pub struct Coord {
    pub x: i32,
    pub y: i32,
}

impl Coord {
    /// Create the coordinate `(x, y)`
    #[must_use]
    pub fn new(x: i32, y: i32) -> (r: Self)
        ensures
            r == (Coord { x, y }),
    {
        Self { x, y }
    }

    /// Recover the coordinate of the cell stored at `index` in a row-major
    /// grid of the given width
    ///
    /// Returns `None` if either component of the coordinate does not fit in
    /// an `i32`.
    #[must_use]
    pub fn from_index(grid_width: usize, index: usize) -> (r: Option<Self>)
        requires
            grid_width > 0,
        ensures
            match r {
                Some(c) => {
                    &&& c.x == index as int % grid_width as int
                    &&& c.y == index as int / grid_width as int
                },
                None => index as int % grid_width as int > i32::MAX
                    || index as int / grid_width as int > i32::MAX,
            },
    {
        let x = index % grid_width;
        let y = index / grid_width;
        if x > i32::MAX as usize || y > i32::MAX as usize {
            None
        } else {
            Some(Self { x: x as i32, y: y as i32 })
        }
    }

    /// Turn the coordinate into the position of its cell in the row-major
    /// storage of a grid of the given width
    ///
    /// Returns `None` when the coordinate cannot address a cell: a negative
    /// component, a column beyond the width, or a position that does not fit
    /// in a `usize`. The conversion never wraps and never panics.
    #[must_use]
    pub fn into_index(self, grid_width: usize) -> (r: Option<usize>)
        ensures
            match r {
                Some(i) => {
                    &&& 0 <= self.x < grid_width
                    &&& 0 <= self.y
                    &&& i == self.y * grid_width + self.x
                },
                None => self.x < 0 || self.y < 0 || self.x >= grid_width
                    || self.y * grid_width + self.x > usize::MAX,
            },
    {
        if self.x < 0 || self.y < 0 {
            return None;
        }
        let x = self.x as usize;
        let y = self.y as usize;
        if x >= grid_width {
            return None;
        }
        match y.checked_mul(grid_width) {
            Some(row_start) => row_start.checked_add(x),
            None => None,
        }
    }
}

impl From<[i32; 2]> for Coord {
    fn from(pair: [i32; 2]) -> (r: Self) {
        Self { x: pair[0], y: pair[1] }
    }
}

impl vstd::std_specs::convert::FromSpecImpl<[i32; 2]> for Coord {
    open spec fn obeys_from_spec() -> bool {
        true
    }

    open spec fn from_spec(pair: [i32; 2]) -> Coord {
        Coord { x: pair[0], y: pair[1] }
    }
}

/// Law: in a grid of positive width, a cell's row-major index determines its
/// coordinate uniquely; in particular distinct in-range coordinates have
/// distinct indices.
pub proof fn lemma_index_round_trip(width: int, x: int, y: int)
    requires
        0 <= x < width,
        0 <= y,
    ensures
        (y * width + x) / width == y,
        (y * width + x) % width == x,
{
    vstd::arithmetic::div_mod::lemma_fundamental_div_mod_converse(y * width + x, width, y, x);
}

} // verus!
