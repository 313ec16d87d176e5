//! A simple 2d grid container
//!
//! The central type is [`DynamicGrid`], a row-major grid that can grow by
//! whole rows. The fixed-size [`Grid`] together with [`Coord`] and [`Rect`]
//! offer coordinate-based access to the same kind of storage.

use vstd::prelude::*;

mod coord;
pub mod dynamic;
mod legacy;
mod rect;

pub use coord::Coord;
pub use legacy::Grid;
pub use rect::Rect;

verus! {

/// A row-major 2d grid
///
/// The cells are kept in a single vector, row after row, together with the
/// number of columns. The length of the vector is always a whole number of
/// rows, and a width of zero is only possible while the grid holds no cells.
#[derive(Debug, Clone, Eq, PartialEq)]
pub struct DynamicGrid<T> {
    cells: Vec<T>,
    width: usize,
}

impl<T> Default for DynamicGrid<T> {
    fn default() -> (r: Self)
        ensures
            r.wf(),
            r.spec_width() == 0,
            r.spec_cells().len() == 0,
    {
        Self::new()
    }
}

impl<T: Default> DynamicGrid<T> {
    /// Create a new grid of the given size, with each cell holding the
    /// default value of `T`
    #[must_use]
    pub fn new_with_default(width: usize, height: usize) -> (r: Self)
        requires
            width * height <= usize::MAX,
        ensures
            r.wf(),
            r.spec_width() == width,
            r.spec_cells().len() == width * height,
            forall|i: int|
                0 <= i < r.spec_cells().len() ==> call_ensures(
                    T::default,
                    (),
                    #[trigger] r.spec_cells()[i],
                ),
    {
        let total = width * height;
        let mut cells: Vec<T> = Vec::new();
        let mut i: usize = 0;
        while i < total
            invariant
                total == width * height,
                i <= total,
                cells@.len() == i,
                forall|j: int|
                    0 <= j < i ==> call_ensures(T::default, (), #[trigger] cells@[j]),
            decreases total - i,
        {
            cells.push(T::default());
            i = i + 1;
        }
        proof {
            if width != 0 {
                assert(width as int * height as int == height as int * width as int)
                    by (nonlinear_arith);
                vstd::arithmetic::div_mod::lemma_mod_multiples_basic(
                    height as int,
                    width as int,
                );
            } else {
                assert(width as int * height as int == 0) by (nonlinear_arith)
                    requires
                        width as int == 0,
                ;
            }
        }
        Self { cells, width }
    }
}

impl<T> DynamicGrid<T> {
    /// The cells in storage (row-major) order
    pub closed spec fn spec_cells(&self) -> Seq<T> {
        self.cells@
    }

    /// The number of columns
    pub closed spec fn spec_width(&self) -> int {
        self.width as int
    }

    /// The storage invariant: no cells without a width, and always a whole
    /// number of rows
    pub open spec fn wf(&self) -> bool {
        if self.spec_width() == 0 {
            self.spec_cells().len() == 0
        } else {
            self.spec_cells().len() as int % self.spec_width() == 0
        }
    }

    /// The number of rows, derived from the cell count and the width
    pub open spec fn spec_height(&self) -> int {
        if self.spec_width() == 0 {
            0
        } else {
            self.spec_cells().len() as int / self.spec_width()
        }
    }

    /// Whether `(x, y)` addresses a cell
    pub open spec fn spec_in_bounds(&self, x: int, y: int) -> bool {
        0 <= x < self.spec_width() && 0 <= y < self.spec_height()
    }

    /// The cell at `(x, y)`, if that coordinate is in bounds
    pub open spec fn spec_get(&self, x: int, y: int) -> Option<T> {
        if self.spec_in_bounds(x, y) {
            Some(self.spec_cells()[y * self.spec_width() + x])
        } else {
            None
        }
    }

    /// How many of the `w` requested columns starting at `x` actually lie on
    /// the grid
    pub open spec fn spec_clipped_w(&self, x: int, w: int) -> int {
        if x >= self.spec_width() {
            0
        } else if w <= self.spec_width() - x {
            w
        } else {
            self.spec_width() - x
        }
    }

    /// How many of the `h` requested rows starting at `y` actually lie on
    /// the grid
    pub open spec fn spec_clipped_h(&self, y: int, h: int) -> int {
        if y >= self.spec_height() {
            0
        } else if h <= self.spec_height() - y {
            h
        } else {
            self.spec_height() - y
        }
    }

    /// The cells of the rectangle of size `w * h` starting at `(x, y)`,
    /// clipped to the grid, in row-major (y ascending, then x ascending)
    /// order
    pub open spec fn spec_rect_cells(&self, x: int, y: int, w: int, h: int) -> Seq<T> {
        let cw = self.spec_clipped_w(x, w);
        Seq::new(
            (self.spec_clipped_h(y, h) * cw) as nat,
            |k: int| self.spec_cells()[(y + k / cw) * self.spec_width() + x + k % cw],
        )
    }

    /// Create a new empty grid
    ///
    /// Use [`Self::push_row`] to add content
    #[must_use]
    pub fn new() -> (r: Self)
        ensures
            r.wf(),
            r.spec_width() == 0,
            r.spec_cells().len() == 0,
    {
        Self { cells: Vec::new(), width: 0 }
    }

    /// Create a new empty grid with pre-allocated storage for `capacity` cells
    ///
    /// Use [`Self::push_row`] to add content
    #[must_use]
    pub fn new_with_capacity(capacity: usize) -> (r: Self)
        ensures
            r.wf(),
            r.spec_width() == 0,
            r.spec_cells().len() == 0,
    {
        Self { cells: Vec::with_capacity(capacity), width: 0 }
    }

    /// Returns `true` if the grid is empty
    #[must_use]
    pub fn is_empty(&self) -> (r: bool)
        ensures
            r == (self.spec_cells().len() == 0),
    {
        self.cells.len() == 0
    }

    /// Returns the width of the grid
    #[must_use]
    pub fn width(&self) -> (r: usize)
        ensures
            r == self.spec_width(),
    {
        self.width
    }

    /// Returns the height of the grid
    #[must_use]
    pub fn height(&self) -> (r: usize)
        requires
            self.wf(),
        ensures
            r == self.spec_height(),
    {
        if self.width == 0 {
            0
        } else {
            self.cells.len() / self.width
        }
    }

    /// Create a new grid of the given size, with the cell at `(x, y)`
    /// initialized by calling `init(x, y)`, in row-major order
    #[must_use]
    pub fn new_with<F: Fn(usize, usize) -> T>(width: usize, height: usize, init: F) -> (r: Self)
        requires
            width * height <= usize::MAX,
            forall|x: usize, y: usize|
                x < width && y < height ==> #[trigger] call_requires(init, (x, y)),
        ensures
            r.wf(),
            r.spec_width() == width,
            r.spec_cells().len() == width * height,
            forall|i: int|
                0 <= i < r.spec_cells().len() ==> call_ensures(
                    init,
                    ((i % width as int) as usize, (i / width as int) as usize),
                    #[trigger] r.spec_cells()[i],
                ),
    {
        let total = width * height;
        let mut cells: Vec<T> = Vec::new();
        let mut i: usize = 0;
        while i < total
            invariant
                total == width * height,
                i <= total,
                cells@.len() == i,
                forall|x: usize, y: usize|
                    x < width && y < height ==> #[trigger] call_requires(init, (x, y)),
                forall|j: int|
                    0 <= j < i ==> call_ensures(
                        init,
                        ((j % width as int) as usize, (j / width as int) as usize),
                        #[trigger] cells@[j],
                    ),
            decreases total - i,
        {
            proof {
                lemma_flat_index(i as int, width as int, height as int);
            }
            let x = i % width;
            let y = i / width;
            let value = init(x, y);
            cells.push(value);
            i = i + 1;
        }
        proof {
            if width != 0 {
                assert(width as int * height as int == height as int * width as int)
                    by (nonlinear_arith);
                vstd::arithmetic::div_mod::lemma_mod_multiples_basic(
                    height as int,
                    width as int,
                );
            } else {
                assert(width as int * height as int == 0) by (nonlinear_arith)
                    requires
                        width as int == 0,
                ;
            }
        }
        Self { cells, width }
    }

    /// Get a reference to the cell at col `x` and row `y`
    ///
    /// Returns `None` if `x` and `y` are out of bounds
    #[must_use]
    pub fn get(&self, x: usize, y: usize) -> (r: Option<&T>)
        requires
            self.wf(),
        ensures
            match r {
                Some(c) => self.spec_get(x as int, y as int) == Some(*c),
                None => self.spec_get(x as int, y as int) is None,
            },
    {
        if self.width == 0 || x >= self.width {
            return None;
        }
        let height = self.cells.len() / self.width;
        if y >= height {
            return None;
        }
        proof {
            lemma_row_major_index(self.spec_width(), self.spec_height(), x as int, y as int);
            lemma_whole_rows(self.spec_cells().len() as int, self.spec_width());
        }
        Some(&self.cells[y * self.width + x])
    }

    /// Get a mutable reference to the cell at col `x` and row `y`
    ///
    /// Returns `None` if `x` and `y` are out of bounds
    #[must_use]
    pub fn get_mut(&mut self, x: usize, y: usize) -> (r: Option<&mut T>)
        requires
            old(self).wf(),
        ensures
            old(self).spec_in_bounds(x as int, y as int) ==> {
                &&& r is Some
                &&& *r.unwrap() == old(self).spec_get(x as int, y as int).unwrap()
                &&& final(self).spec_cells() == old(self).spec_cells().update(
                    y as int * old(self).spec_width() + x as int,
                    *final(r.unwrap()),
                )
                &&& final(self).spec_width() == old(self).spec_width()
                &&& final(self).wf()
            },
            !old(self).spec_in_bounds(x as int, y as int) ==> r is None && *final(self) == *old(
                self,
            ),
    {
        if self.width == 0 || x >= self.width {
            return None;
        }
        let height = self.cells.len() / self.width;
        if y >= height {
            return None;
        }
        proof {
            lemma_row_major_index(self.spec_width(), self.spec_height(), x as int, y as int);
            lemma_whole_rows(self.spec_cells().len() as int, self.spec_width());
        }
        Some(&mut self.cells[y * self.width + x])
    }

    /// Set the new value to the cell at col `x` and row `y` and return the old value.
    ///
    /// Returns `None` if `x` and `y` are out of bounds; the grid is then left
    /// unchanged.
    pub fn set(&mut self, x: usize, y: usize, new_value: T) -> (r: Option<T>)
        requires
            old(self).wf(),
        ensures
            final(self).wf(),
            old(self).spec_in_bounds(x as int, y as int) ==> {
                &&& r == old(self).spec_get(x as int, y as int)
                &&& final(self).spec_cells() == old(self).spec_cells().update(
                    y as int * old(self).spec_width() + x as int,
                    new_value,
                )
                &&& final(self).spec_width() == old(self).spec_width()
            },
            !old(self).spec_in_bounds(x as int, y as int) ==> r is None && *final(self) == *old(
                self,
            ),
    {
        let mut new_value = new_value;
        match self.get_mut(x, y) {
            Some(cell) => {
                core::mem::swap(cell, &mut new_value);
                Some(new_value)
            },
            None => None,
        }
    }

    /// Push a row to the grid
    ///
    /// If the grid is empty, the length of `row` becomes its width. If it is
    /// not, the length of `row` must match the current width.
    ///
    /// # Errors
    ///
    /// Returns [`IncompatibleRowSize`] if the grid is not empty and the length
    /// of the added row does not match the current width of the grid. The grid
    /// is then left completely unchanged.
    pub fn push_row(&mut self, row: Vec<T>) -> (r: Result<(), IncompatibleRowSize>)
        requires
            old(self).wf(),
        ensures
            final(self).wf(),
            match r {
                Ok(_) => {
                    &&& old(self).spec_width() == 0 || row@.len() == old(self).spec_width()
                    &&& final(self).spec_cells() == old(self).spec_cells() + row@
                    &&& final(self).spec_width() == if old(self).spec_width() == 0 {
                        row@.len() as int
                    } else {
                        old(self).spec_width()
                    }
                },
                Err(_) => {
                    &&& old(self).spec_width() != 0
                    &&& row@.len() != old(self).spec_width()
                    &&& *final(self) == *old(self)
                },
            },
    {
        let mut row = row;
        if self.width == 0 {
            self.width = row.len();
            self.cells.append(&mut row);
            proof {
                if self.spec_width() != 0 {
                    vstd::arithmetic::div_mod::lemma_mod_self_0(self.spec_width());
                }
            }
            Ok(())
        } else if row.len() == self.width {
            proof {
                vstd::arithmetic::div_mod::lemma_add_mod_noop(
                    old(self).spec_cells().len() as int,
                    row@.len() as int,
                    self.spec_width(),
                );
                vstd::arithmetic::div_mod::lemma_mod_self_0(self.spec_width());
                vstd::arithmetic::div_mod::lemma_small_mod(0, self.spec_width() as nat);
            }
            self.cells.append(&mut row);
            Ok(())
        } else {
            Err(IncompatibleRowSize)
        }
    }

    /// Returns the cells as one slice, in storage (row-major) order
    #[must_use]
    pub fn cells(&self) -> (r: &[T])
        ensures
            r@ == self.spec_cells(),
    {
        self.cells.as_slice()
    }

    /// Returns the cells as one mutable slice, in storage (row-major) order
    ///
    /// Writing through the slice replaces cell values; the shape of the grid
    /// cannot change through it, since a slice never changes its length.
    #[must_use]
    pub fn cells_mut(&mut self) -> (r: &mut [T])
        ensures
            r@ == old(self).spec_cells(),
            final(self).spec_cells() == final(r)@,
            final(self).spec_width() == old(self).spec_width(),
    {
        self.cells.as_mut_slice()
    }

    /// Returns every cell together with its `(x, y)` coordinate, in storage
    /// (row-major) order
    #[must_use]
    pub fn cells_with_coords(&self) -> (r: Vec<((usize, usize), &T)>)
        requires
            self.wf(),
        ensures
            r@.len() == self.spec_cells().len(),
            forall|i: int|
                0 <= i < r@.len() ==> {
                    &&& (#[trigger] r@[i]).0.0 == i % self.spec_width()
                    &&& r@[i].0.1 == i / self.spec_width()
                    &&& r@[i].1 == self.spec_cells()[i]
                },
    {
        let mut result: Vec<((usize, usize), &T)> = Vec::new();
        let mut i: usize = 0;
        let len = self.cells.len();
        while i < len
            invariant
                self.wf(),
                len == self.spec_cells().len(),
                i <= len,
                result@.len() == i,
                forall|j: int|
                    0 <= j < i ==> {
                        &&& (#[trigger] result@[j]).0.0 == j % self.spec_width()
                        &&& result@[j].0.1 == j / self.spec_width()
                        &&& result@[j].1 == self.spec_cells()[j]
                    },
            decreases len - i,
        {
            let x = i % self.width;
            let y = i / self.width;
            result.push(((x, y), &self.cells[i]));
            i = i + 1;
        }
        result
    }

    /// Returns the cells in the rectangle that starts at col `x`, row `y`
    /// and has the given `width` and `height`
    ///
    /// The rectangle is clipped to the bounds of the grid: parts of it that
    /// lie outside are silently ignored, and a rectangle entirely outside
    /// the grid yields no cells. The cells come in row-major (y ascending,
    /// then x ascending) order.
    #[must_use]
    #[verifier::loop_isolation(false)]
    pub fn cells_in_rect(&self, x: usize, y: usize, width: usize, height: usize) -> (r: Vec<&T>)
        requires
            self.wf(),
        ensures
            r@.len() == self.spec_rect_cells(x as int, y as int, width as int, height as int).len(),
            forall|k: int|
                0 <= k < r@.len() ==> #[trigger] r@[k] == self.spec_rect_cells(
                    x as int,
                    y as int,
                    width as int,
                    height as int,
                )[k],
    {
        let ghost rect = self.spec_rect_cells(x as int, y as int, width as int, height as int);
        let mut result: Vec<&T> = Vec::new();
        let gw = self.width;
        let glen = self.cells.len();
        let gh = if gw == 0 {
            0
        } else {
            glen / gw
        };
        let cw = if x >= gw {
            0
        } else if width <= gw - x {
            width
        } else {
            gw - x
        };
        let ch = if y >= gh {
            0
        } else if height <= gh - y {
            height
        } else {
            gh - y
        };
        if cw == 0 || ch == 0 {
            proof {
                assert(rect.len() == 0) by (nonlinear_arith)
                    requires
                        rect.len() == self.spec_clipped_h(y as int, height as int)
                            * self.spec_clipped_w(x as int, width as int),
                        self.spec_clipped_w(x as int, width as int) == cw,
                        self.spec_clipped_h(y as int, height as int) == ch,
                        cw == 0 || ch == 0,
                ;
            }
            return result;
        }
        proof {
            lemma_whole_rows(self.spec_cells().len() as int, self.spec_width());
        }
        let mut j: usize = 0;
        while j < ch
            invariant
                j <= ch,
                result@.len() == j * cw,
                forall|k: int| 0 <= k < result@.len() ==> #[trigger] result@[k] == rect[k],
            decreases ch - j,
        {
            let mut i: usize = 0;
            while i < cw
                invariant
                    j < ch,
                    i <= cw,
                    result@.len() == j * cw + i,
                    forall|k: int| 0 <= k < result@.len() ==> #[trigger] result@[k] == rect[k],
                decreases cw - i,
            {
                proof {
                    lemma_row_major_index(cw as int, ch as int, i as int, j as int);
                    lemma_row_major_index(
                        self.spec_width(),
                        self.spec_height(),
                        x as int + i as int,
                        y as int + j as int,
                    );
                    assert(j * cw + i < ch * cw) by (nonlinear_arith)
                        requires
                            0 <= i < cw,
                            0 <= j < ch,
                    ;
                }
                let idx = (y + j) * gw + (x + i);
                result.push(&self.cells[idx]);
                i = i + 1;
            }
            proof {
                assert((j + 1) * cw == j * cw + cw) by (nonlinear_arith);
            }
            j = j + 1;
        }
        proof {
            assert(result@.len() == rect.len()) by (nonlinear_arith)
                requires
                    result@.len() == ch * cw,
                    rect.len() == self.spec_clipped_h(y as int, height as int)
                        * self.spec_clipped_w(x as int, width as int),
                    self.spec_clipped_w(x as int, width as int) == cw,
                    self.spec_clipped_h(y as int, height as int) == ch,
            ;
        }
        result
    }

    /// Returns the rows of the grid, in order, each as a slice of length
    /// `width`
    #[must_use]
    pub fn rows(&self) -> (r: Vec<&[T]>)
        requires
            self.wf(),
        ensures
            r@.len() == self.spec_height(),
            forall|k: int|
                0 <= k < r@.len() ==> (#[trigger] r@[k])@ == self.spec_cells().subrange(
                    k * self.spec_width(),
                    (k + 1) * self.spec_width(),
                ),
            forall|k: int| 0 <= k < r@.len() ==> (#[trigger] r@[k])@.len() == self.spec_width(),
    {
        let mut result: Vec<&[T]> = Vec::new();
        if self.width == 0 {
            return result;
        }
        let height = self.cells.len() / self.width;
        proof {
            lemma_whole_rows(self.spec_cells().len() as int, self.spec_width());
        }
        let mut k: usize = 0;
        while k < height
            invariant
                self.wf(),
                self.spec_width() > 0,
                height == self.spec_height(),
                self.spec_cells().len() == height * self.spec_width(),
                self.spec_cells().len() <= usize::MAX,
                k <= height,
                result@.len() == k,
                forall|j: int|
                    0 <= j < k ==> (#[trigger] result@[j])@ == self.spec_cells().subrange(
                        j * self.spec_width(),
                        (j + 1) * self.spec_width(),
                    ),
            decreases height - k,
        {
            proof {
                lemma_row_bounds(k as int, height as int, self.spec_width());
            }
            let start = k * self.width;
            let end = start + self.width;
            let row = vstd::slice::slice_subrange(self.cells.as_slice(), start, end);
            result.push(row);
            k = k + 1;
        }
        proof {
            assert forall|j: int| 0 <= j < result@.len() implies (#[trigger] result@[j])@.len()
                == self.spec_width() by {
                lemma_row_bounds(j, height as int, self.spec_width());
            }
        }
        result
    }

    /// Create a new grid of the given width from cells given in row-major
    /// order
    ///
    /// # Errors
    ///
    /// Returns [`IncompatibleRowSize`] if the number of cells is not a whole
    /// number of rows of the given `width`: either `cells` is non-empty while
    /// `width` is zero, or the count is not an exact multiple of `width`.
    pub fn new_from_iter(width: usize, cells: Vec<T>) -> (r: Result<Self, IncompatibleRowSize>)
        ensures
            match r {
                Ok(g) => {
                    &&& g.wf()
                    &&& g.spec_width() == width
                    &&& g.spec_cells() == cells@
                    &&& cells@.len() == 0 || (width != 0 && cells@.len() as int % width as int
                        == 0)
                },
                Err(_) => cells@.len() != 0 && (width == 0 || cells@.len() as int % width as int
                    != 0),
            },
    {
        if cells.len() != 0 && (width == 0 || cells.len() % width != 0) {
            return Err(IncompatibleRowSize);
        }
        proof {
            if cells@.len() == 0 && width != 0 {
                vstd::arithmetic::div_mod::lemma_small_mod(0, width as nat);
            }
        }
        Ok(Self { cells, width })
    }
}

/// Error returned by [`DynamicGrid::push_row`] and
/// [`DynamicGrid::new_from_iter`] if the number of cells supplied does not
/// align with the width of the grid
#[derive(Debug, Clone)]
#[non_exhaustive]
pub struct IncompatibleRowSize;

impl IncompatibleRowSize {
    /// A human-readable description of the error
    #[must_use]
    pub fn message(&self) -> (s: String)
        ensures
            s@ == "The row size is not compatible with the current content of the grid"@,
    {
        "The row size is not compatible with the current content of the grid".to_string()
    }
}

/// Law: writing a cell and reading it back yields the written value.
///
/// `g2` is a grid that relates to `g1` exactly as [`DynamicGrid::set`]
/// promises after a successful write of `v` at the in-bounds coordinate
/// `(x, y)`; reading `(x, y)` from it, as [`DynamicGrid::get`] promises,
/// yields `v`. That the write returns the previous value is stated directly
/// by the `ensures` of `set`.
pub proof fn lemma_set_get_round_trip<T>(
    g1: DynamicGrid<T>,
    g2: DynamicGrid<T>,
    x: usize,
    y: usize,
    v: T,
)
    requires
        g1.wf(),
        g1.spec_in_bounds(x as int, y as int),
        g2.spec_width() == g1.spec_width(),
        g2.spec_cells() == g1.spec_cells().update(
            y as int * g1.spec_width() + x as int,
            v,
        ),
    ensures
        g2.wf(),
        g2.spec_get(x as int, y as int) == Some(v),
{
    lemma_row_major_index(g1.spec_width(), g1.spec_height(), x as int, y as int);
    lemma_whole_rows(g1.spec_cells().len() as int, g1.spec_width());
}

/// Law: a coordinate on or beyond an edge of the grid addresses no cell.
///
/// Reading there, as [`DynamicGrid::get`] promises, yields nothing; the
/// `ensures` of [`DynamicGrid::set`] states separately that writing there
/// leaves the grid unchanged.
pub proof fn lemma_get_out_of_bounds<T>(g: DynamicGrid<T>, x: int, y: int)
    requires
        g.wf(),
        x < 0 || y < 0 || x >= g.spec_width() || y >= g.spec_height(),
    ensures
        g.spec_get(x, y) is None,
{
}

/// Law: pushing a first row of two cells onto an empty grid makes its length
/// the width, and pushing a second row of the same length stacks it below,
/// giving a 2 by 2 grid in row-major order.
///
/// `g1` and `g2` relate to their predecessors exactly as the `ensures` of
/// [`DynamicGrid::push_row`] promises for successful pushes of `[a, b]` and
/// then `[c, d]`.
pub proof fn lemma_push_row_infers_width<T>(
    g0: DynamicGrid<T>,
    g1: DynamicGrid<T>,
    g2: DynamicGrid<T>,
    a: T,
    b: T,
    c: T,
    d: T,
)
    requires
        g0.wf(),
        g0.spec_width() == 0,
        g1.spec_width() == 2,
        g1.spec_cells() == g0.spec_cells() + seq![a, b],
        g2.spec_width() == 2,
        g2.spec_cells() == g1.spec_cells() + seq![c, d],
    ensures
        g2.wf(),
        g2.spec_height() == 2,
        g2.spec_get(0, 0) == Some(a),
        g2.spec_get(1, 0) == Some(b),
        g2.spec_get(0, 1) == Some(c),
        g2.spec_get(1, 1) == Some(d),
{
    assert(g2.spec_cells() == seq![a, b, c, d]);
}

/// Law: iterating an unmodified grid twice yields identical sequences.
///
/// [`DynamicGrid::cells`] promises that its result equals `spec_cells()`,
/// a pure function of the grid, so any two reads of the same grid agree.
pub proof fn lemma_cells_idempotent<T>(g: DynamicGrid<T>, s1: Seq<T>, s2: Seq<T>)
    requires
        s1 == g.spec_cells(),
        s2 == g.spec_cells(),
    ensures
        s1 == s2,
{
}

/// Row `k` of a grid of `height` whole rows spans the storage positions
/// `k * width` up to `(k + 1) * width`, which stay within the storage.
pub(crate) proof fn lemma_row_bounds(k: int, height: int, width: int)
    requires
        0 <= k < height,
        width > 0,
    ensures
        0 <= k * width,
        k * width + width == (k + 1) * width,
        (k + 1) * width <= height * width,
{
    assert(0 <= k * width && k * width + width == (k + 1) * width && (k + 1) * width <= height
        * width) by (nonlinear_arith)
        requires
            0 <= k < height,
            width > 0,
    ;
}

/// A position strictly inside a `width * height` storage lies in a row
/// strictly below `height` and a column strictly left of `width`.
pub(crate) proof fn lemma_flat_index(i: int, width: int, height: int)
    requires
        width >= 0,
        height >= 0,
        0 <= i < width * height,
    ensures
        width > 0,
        0 <= i / width < height,
        0 <= i % width < width,
{
    assert(width > 0) by (nonlinear_arith)
        requires
            width >= 0,
            height >= 0,
            0 <= i < width * height,
    ;
    vstd::arithmetic::div_mod::lemma_fundamental_div_mod(i, width);
    assert(i / width < height) by (nonlinear_arith)
        requires
            width > 0,
            i < width * height,
            i == width * (i / width) + i % width,
            0 <= i % width < width,
    ;
}

/// A cell inside the grid rectangle lies strictly before the end of the
/// storage, and its row-major index decomposes back into its coordinate.
pub(crate) proof fn lemma_row_major_index(width: int, height: int, x: int, y: int)
    requires
        0 <= x < width,
        0 <= y < height,
    ensures
        0 <= y * width + x < height * width,
        (y * width + x) / width == y,
        (y * width + x) % width == x,
{
    assert(0 <= y * width + x < height * width) by (nonlinear_arith)
        requires
            0 <= x < width,
            0 <= y < height,
    ;
    vstd::arithmetic::div_mod::lemma_fundamental_div_mod_converse(y * width + x, width, y, x);
}

/// A length that is a whole number of rows equals height times width.
pub(crate) proof fn lemma_whole_rows(len: int, width: int)
    requires
        width > 0,
        len >= 0,
        len % width == 0,
    ensures
        len == (len / width) * width,
{
    vstd::arithmetic::div_mod::lemma_fundamental_div_mod(len, width);
    assert(width * (len / width) == (len / width) * width) by (nonlinear_arith);
}

} // verus!
