use vstd::prelude::*;

use crate::coord::Coord;
use crate::rect::Rect;
use crate::lemma_flat_index;

verus! {

/// A 2d fixed-size grid container for cells of type `T`
///
/// Unlike [`crate::DynamicGrid`], this grid is laid out once from a cell
/// sequence and a width, cells are addressed by [`Coord`], and rectangle
/// iteration takes a [`Rect`]. Nothing ties the cell count to the width: a
/// trailing partial row is simply never addressable beyond the stored cells.
#[derive(Debug, Clone, Eq, PartialEq)]
pub struct Grid<T> {
    cells: Vec<T>,
    width: usize,
}

impl<T> Grid<T> {
    /// The cells in storage (row-major) order
    pub closed spec fn spec_cells(&self) -> Seq<T> {
        self.cells@
    }

    /// The number of columns
    pub closed spec fn spec_width(&self) -> int {
        self.width as int
    }

    /// Whether `coord` addresses a stored cell
    pub open spec fn spec_in_bounds(&self, coord: Coord) -> bool {
        &&& 0 <= coord.x < self.spec_width()
        &&& 0 <= coord.y
        &&& coord.y * self.spec_width() + coord.x < self.spec_cells().len()
    }

    /// The cell at `coord`, if that coordinate addresses one
    pub open spec fn spec_get(&self, coord: Coord) -> Option<T> {
        if self.spec_in_bounds(coord) {
            Some(self.spec_cells()[coord.y * self.spec_width() + coord.x])
        } else {
            None
        }
    }

    /// The cells of `coords` that lie on the grid, in the order of `coords`
    pub open spec fn spec_picked(&self, coords: Seq<Coord>) -> Seq<T>
        decreases coords.len(),
    {
        if coords.len() == 0 {
            Seq::empty()
        } else {
            let rest = self.spec_picked(coords.drop_last());
            match self.spec_get(coords.last()) {
                Some(cell) => rest.push(cell),
                None => rest,
            }
        }
    }

    /// The cells of `rect` that lie on the grid, in the coordinate order of
    /// [`Rect::spec_coords`]
    pub open spec fn spec_cells_in_rect(&self, rect: Rect) -> Seq<T> {
        self.spec_picked(rect.spec_coords())
    }

    /// Create a grid using the row-major `cells`
    ///
    /// The cells are stored as given; no relation between their count and
    /// `width` is enforced.
    #[must_use]
    pub fn from_row_major_iter(width: usize, cells: Vec<T>) -> (r: Self)
        ensures
            r.spec_cells() == cells@,
            r.spec_width() == width,
    {
        Self { cells, width }
    }

    /// Create a grid using the `init_cell` function for each cell
    ///
    /// The cells are initialized in row-major order: row 0 left to right,
    /// then row 1, and so on.
    #[must_use]
    pub fn new_with<F: Fn(Coord) -> T>(width: usize, height: usize, init_cell: F) -> (r: Self)
        requires
            width * height <= usize::MAX,
            width * height != 0 ==> width - 1 <= i32::MAX && height - 1 <= i32::MAX,
            forall|c: Coord|
                0 <= c.x < width && 0 <= c.y < height ==> #[trigger] call_requires(
                    init_cell,
                    (c,),
                ),
        ensures
            r.spec_width() == width,
            r.spec_cells().len() == width * height,
            forall|i: int|
                0 <= i < r.spec_cells().len() ==> call_ensures(
                    init_cell,
                    ((Coord {
                        x: (i % width as int) as i32,
                        y: (i / width as int) as i32,
                    }),),
                    #[trigger] r.spec_cells()[i],
                ),
    {
        let total = width * height;
        let mut cells: Vec<T> = Vec::new();
        let mut i: usize = 0;
        while i < total
            invariant
                total == width * height,
                total != 0 ==> width - 1 <= i32::MAX && height - 1 <= i32::MAX,
                i <= total,
                cells@.len() == i,
                forall|c: Coord|
                    0 <= c.x < width && 0 <= c.y < height ==> #[trigger] call_requires(
                        init_cell,
                        (c,),
                    ),
                forall|j: int|
                    0 <= j < i ==> call_ensures(
                        init_cell,
                        ((Coord {
                            x: (j % width as int) as i32,
                            y: (j / width as int) as i32,
                        }),),
                        #[trigger] cells@[j],
                    ),
            decreases total - i,
        {
            proof {
                lemma_flat_index(i as int, width as int, height as int);
            }
            let x = i % width;
            let y = i / width;
            let coord = Coord::new(x as i32, y as i32);
            let value = init_cell(coord);
            cells.push(value);
            i = i + 1;
        }
        Self { cells, width }
    }

    /// Access the cell at `coord`
    ///
    /// Returns `None` if the `coord` is out of bounds
    #[must_use]
    pub fn get(&self, coord: Coord) -> (r: Option<&T>)
        ensures
            match r {
                Some(c) => self.spec_get(coord) == Some(*c),
                None => self.spec_get(coord) is None,
            },
    {
        let len = self.cells.len();
        match coord.into_index(self.width) {
            Some(i) => {
                if i < len {
                    Some(&self.cells[i])
                } else {
                    None
                }
            },
            None => None,
        }
    }

    /// Access mutably the cell at `coord`
    ///
    /// Returns `None` if the `coord` is out of bounds
    pub fn get_mut(&mut self, coord: Coord) -> (r: Option<&mut T>)
        ensures
            old(self).spec_in_bounds(coord) ==> {
                &&& r is Some
                &&& *r.unwrap() == old(self).spec_get(coord).unwrap()
                &&& final(self).spec_cells() == old(self).spec_cells().update(
                    coord.y * old(self).spec_width() + coord.x,
                    *final(r.unwrap()),
                )
                &&& final(self).spec_width() == old(self).spec_width()
            },
            !old(self).spec_in_bounds(coord) ==> r is None && *final(self) == *old(self),
    {
        let len = self.cells.len();
        match coord.into_index(self.width) {
            Some(i) => {
                if i < len {
                    Some(&mut self.cells[i])
                } else {
                    None
                }
            },
            None => None,
        }
    }

    /// Set the value of the cell at `coord`
    ///
    /// The `coord` must be in bounds; for a fallible version, use
    /// [`Self::get_mut`] and assign through it.
    pub fn set(&mut self, coord: Coord, value: T)
        requires
            old(self).spec_in_bounds(coord),
        ensures
            final(self).spec_cells() == old(self).spec_cells().update(
                coord.y * old(self).spec_width() + coord.x,
                value,
            ),
            final(self).spec_width() == old(self).spec_width(),
    {
        match self.get_mut(coord) {
            Some(cell) => {
                *cell = value;
            },
            None => {
                proof {
                    assert(false);
                }
            },
        }
    }

    /// Returns the cells as one slice, in storage (row-major) order
    #[must_use]
    pub fn cells(&self) -> (r: &[T])
        ensures
            r@ == self.spec_cells(),
    {
        self.cells.as_slice()
    }

    /// Returns the cells overlapping `rect`, in the coordinate order of
    /// [`Rect::coords`]; coordinates of `rect` that lie outside the grid are
    /// ignored
    #[must_use]
    #[verifier::loop_isolation(false)]
    pub fn cells_in_rect(&self, rect: Rect) -> (r: Vec<&T>)
        requires
            rect.spec_nx() * rect.spec_ny() <= usize::MAX,
        ensures
            r@.len() == self.spec_cells_in_rect(rect).len(),
            forall|k: int|
                0 <= k < r@.len() ==> #[trigger] r@[k] == self.spec_cells_in_rect(rect)[k],
    {
        let coords = rect.coords();
        let ghost all = rect.spec_coords();
        let mut result: Vec<&T> = Vec::new();
        let mut i: usize = 0;
        while i < coords.len()
            invariant
                i <= coords.len(),
                result@.len() == self.spec_picked(all.take(i as int)).len(),
                forall|k: int|
                    0 <= k < result@.len() ==> #[trigger] result@[k] == self.spec_picked(
                        all.take(i as int),
                    )[k],
            decreases coords.len() - i,
        {
            proof {
                assert(all.take(i as int + 1).drop_last() =~= all.take(i as int));
                assert(all.take(i as int + 1).last() == all[i as int]);
            }
            match self.get(coords[i]) {
                Some(cell) => {
                    result.push(cell);
                },
                None => {
                },
            }
            i = i + 1;
        }
        proof {
            assert(all.take(coords@.len() as int) =~= all);
        }
        result
    }
}

impl<T: Default> Grid<T> {
    /// Create a grid using the default value of `T` for each cell
    #[must_use]
    pub fn new(width: usize, height: usize) -> (r: Self)
        requires
            width * height <= usize::MAX,
        ensures
            r.spec_width() == width,
            r.spec_cells().len() == width * height,
            forall|i: int|
                0 <= i < r.spec_cells().len() ==> call_ensures(
                    T::default,
                    (),
                    #[trigger] r.spec_cells()[i],
                ),
    {
        let total = width * height;
        let mut cells: Vec<T> = Vec::new();
        let mut i: usize = 0;
        while i < total
            invariant
                total == width * height,
                i <= total,
                cells@.len() == i,
                forall|j: int|
                    0 <= j < i ==> call_ensures(T::default, (), #[trigger] cells@[j]),
            decreases total - i,
        {
            cells.push(T::default());
            i = i + 1;
        }
        Self { cells, width }
    }
}

} // verus!
