//! A two-dimensional grid container backed by a single flat buffer.
//!
//! `VecMap<T>` stores `width * height` cells of type `T` in one contiguous
//! vector, laid out row by row: row 0 occupies indices `[0, width)`, row 1
//! occupies `[width, 2 * width)`, and so on. It offers coordinate-indexed,
//! bounds-checked reads and writes, bulk reset to a default value, and the
//! coordinate/index conversion helpers that the row-major layout rests on.

use vstd::prelude::*;

verus! {

use vstd::arithmetic::div_mod::{
    lemma_fundamental_div_mod,
    lemma_fundamental_div_mod_converse,
    lemma_multiply_divide_lt,
    lemma_div_pos_is_pos,
    lemma_mod_division_less_than_divisor,
};

/// The ways a grid operation can fail.
#[derive(Debug, Clone, Copy, PartialEq, Eq)]
pub enum GridError {
    /// A coordinate fell outside `[0, width) x [0, height)`. Carries the
    /// offending `(x, y)` pair for diagnostics.
    OutOfBounds { x: i32, y: i32 },
    /// Construction was asked for a grid whose width or height is not
    /// strictly positive; no such grid can exist.
    InvalidDimensions,
}

/// A dense 2D grid of cells, stored row-major in one flat vector.
#[derive(Debug)]
pub struct VecMap<T> {
    items: Vec<T>,
    width: i32,
    height: i32,
    default: T,
}

/// `0 <= y * w + x < w * h` whenever `0 <= x < w` and `0 <= y < h`:
/// a row-major index computed from in-bounds coordinates lands inside
/// the flat buffer.
proof fn lemma_row_major_index_in_range(w: int, h: int, x: int, y: int)
    requires
        0 < w,
        0 < h,
        0 <= x < w,
        0 <= y < h,
    ensures
        0 <= y * w + x < w * h,
{
    assert(0 <= y * w + x < w * h) by (nonlinear_arith)
        requires
            0 < w,
            0 < h,
            0 <= x < w,
            0 <= y < h,
    ;
}

/// The product of two values in `i32` range stays well inside `i64` range.
proof fn lemma_i32_product_fits_i64(a: int, b: int)
    requires
        i32::MIN <= a <= i32::MAX,
        i32::MIN <= b <= i32::MAX,
    ensures
        -0x4000_0000_0000_0000 <= a * b <= 0x4000_0000_0000_0000,
{
    assert(-0x4000_0000_0000_0000 <= a * b <= 0x4000_0000_0000_0000) by (nonlinear_arith)
        requires
            -0x8000_0000 <= a <= 0x7fff_ffff,
            -0x8000_0000 <= b <= 0x7fff_ffff,
    ;
}

impl<T: Copy> VecMap<T> {
    /// The grid's width, as a mathematical integer.
    pub closed spec fn spec_width(self) -> int {
        self.width as int
    }

    /// The grid's height, as a mathematical integer.
    pub closed spec fn spec_height(self) -> int {
        self.height as int
    }

    /// The cell contents, row-major, as a mathematical sequence.
    pub closed spec fn cells(self) -> Seq<T> {
        self.items@
    }

    /// The value that reset operations restore cells to.
    pub closed spec fn default_value(self) -> T {
        self.default
    }

    /// Structural invariant: positive dimensions, and exactly one buffer
    /// slot per coordinate.
    pub open spec fn wf(self) -> bool {
        &&& self.spec_width() > 0
        &&& self.spec_height() > 0
        &&& self.cells().len() == self.spec_width() * self.spec_height()
    }

    /// True iff `(x, y)` lies in `[0, width) x [0, height)`.
    pub open spec fn in_bounds(self, x: int, y: int) -> bool {
        &&& 0 <= x < self.spec_width()
        &&& 0 <= y < self.spec_height()
    }

    /// The row-major index of coordinate `(x, y)`.
    pub open spec fn spec_xy_idx(self, x: int, y: int) -> int {
        y * self.spec_width() + x
    }

    /// The coordinate stored at flat index `idx`.
    pub open spec fn spec_idx_xy(self, idx: int) -> (int, int) {
        (idx % self.spec_width(), idx / self.spec_width())
    }

    /// The cell value at coordinate `(x, y)` (meaningful only in bounds).
    pub open spec fn cell(self, x: int, y: int) -> T {
        self.cells()[self.spec_xy_idx(x, y)]
    }

    /// What a read at `(x, y)` returns: the stored cell in bounds, and an
    /// `OutOfBounds` error carrying the coordinate otherwise.
    pub open spec fn spec_retrieve(self, x: i32, y: i32) -> Result<T, GridError> {
        if self.in_bounds(x as int, y as int) {
            Ok(self.cell(x as int, y as int))
        } else {
            Err(GridError::OutOfBounds { x, y })
        }
    }

    /// Index range law: every in-bounds coordinate maps to an index inside
    /// `[0, width * height)`.
    pub proof fn lemma_index_range(self, x: int, y: int)
        requires
            self.wf(),
            self.in_bounds(x, y),
        ensures
            0 <= self.spec_xy_idx(x, y) < self.spec_width() * self.spec_height(),
    {
        lemma_row_major_index_in_range(self.spec_width(), self.spec_height(), x, y);
    }

    /// Round-trip law: converting in-bounds coordinates to a flat index and
    /// back yields the same coordinates.
    pub proof fn lemma_round_trip(self, x: int, y: int)
        requires
            self.wf(),
            self.in_bounds(x, y),
        ensures
            self.spec_idx_xy(self.spec_xy_idx(x, y)) == (x, y),
    {
        self.lemma_index_range(x, y);
        lemma_fundamental_div_mod_converse(self.spec_xy_idx(x, y), self.spec_width(), y, x);
    }

    /// Reverse round-trip law: converting a valid flat index to coordinates
    /// and back yields the same index, and the coordinates are in bounds.
    pub proof fn lemma_idx_round_trip(self, idx: int)
        requires
            self.wf(),
            0 <= idx < self.spec_width() * self.spec_height(),
        ensures
            self.in_bounds(self.spec_idx_xy(idx).0, self.spec_idx_xy(idx).1),
            self.spec_xy_idx(self.spec_idx_xy(idx).0, self.spec_idx_xy(idx).1) == idx,
    {
        let w = self.spec_width();
        lemma_fundamental_div_mod(idx, w);
        lemma_mod_division_less_than_divisor(idx, w);
        lemma_div_pos_is_pos(idx, w);
        lemma_multiply_divide_lt(idx, w, self.spec_height());
        assert((idx / w) * w == w * (idx / w)) by (nonlinear_arith);
        assert(self.spec_xy_idx(self.spec_idx_xy(idx).0, self.spec_idx_xy(idx).1)
            == (idx / w) * w + idx % w);
    }

    /// Builds a `width` by `height` grid with every cell set to `item`,
    /// which also becomes the value that resets restore.
    ///
    /// Width and height must each be strictly positive; otherwise no grid is
    /// built and construction fails with `InvalidDimensions`. In particular,
    /// negative dimensions are rejected outright rather than slipping through
    /// as a positive product.
    pub fn filled_with(item: T, width: i32, height: i32) -> (r: Result<VecMap<T>, GridError>)
        requires
            width > 0 && height > 0 ==> (width as int) * (height as int) <= usize::MAX as int,
        ensures
            width <= 0 || height <= 0 ==> r == Err::<VecMap<T>, GridError>(
                GridError::InvalidDimensions,
            ),
            width > 0 && height > 0 ==> ({
                &&& r matches Ok(g)
                &&& g.wf()
                &&& g.spec_width() == width as int
                &&& g.spec_height() == height as int
                &&& g.default_value() == item
                &&& forall|x: i32, y: i32|
                    g.in_bounds(x as int, y as int)
                        ==> #[trigger] g.spec_retrieve(x, y) == Ok::<T, GridError>(item)
            }),
    {
        if width <= 0 || height <= 0 {
            return Err(GridError::InvalidDimensions);
        }
        let n: usize = (width as usize) * (height as usize);
        let mut items: Vec<T> = Vec::new();
        let mut i: usize = 0;
        while i < n
            invariant
                i <= n,
                items@.len() == i,
                forall|j: int| 0 <= j < i ==> items@[j] == item,
            decreases n - i,
        {
            items.push(item);
            i = i + 1;
        }
        let g = VecMap { items, width, height, default: item };
        proof {
            assert forall|x: i32, y: i32| g.in_bounds(x as int, y as int)
                implies #[trigger] g.spec_retrieve(x, y) == Ok::<T, GridError>(item) by {
                lemma_row_major_index_in_range(
                    g.spec_width(), g.spec_height(), x as int, y as int);
            }
        }
        Ok(g)
    }

    /// Reads the cell at `(x, y)`.
    ///
    /// Returns a copy of the stored value in bounds, and an `OutOfBounds`
    /// error carrying `(x, y)` otherwise; a failed read has no effect.
    pub fn retrieve(&self, x: i32, y: i32) -> (r: Result<T, GridError>)
        requires
            self.wf(),
        ensures
            r == self.spec_retrieve(x, y),
    {
        let id = self.xy_idx(x, y);
        if self.is_in_bounds(x, y) {
            return Ok(self.items[id]);
        }
        Err(GridError::OutOfBounds { x, y })
    }

    /// Overwrites the cell at `(x, y)` with `item`.
    ///
    /// In bounds, exactly that cell changes and every other cell keeps its
    /// value; out of bounds, the grid is left unmodified and an `OutOfBounds`
    /// error carrying `(x, y)` comes back.
    pub fn set_point(&mut self, x: i32, y: i32, item: T) -> (r: Result<(), GridError>)
        requires
            old(self).wf(),
        ensures
            final(self).wf(),
            final(self).spec_width() == old(self).spec_width(),
            final(self).spec_height() == old(self).spec_height(),
            final(self).default_value() == old(self).default_value(),
            old(self).in_bounds(x as int, y as int) ==> ({
                &&& r == Ok::<(), GridError>(())
                &&& final(self).cells() == old(self).cells().update(
                    old(self).spec_xy_idx(x as int, y as int), item)
                &&& final(self).spec_retrieve(x, y) == Ok::<T, GridError>(item)
            }),
            !old(self).in_bounds(x as int, y as int) ==> ({
                &&& r == Err::<(), GridError>(GridError::OutOfBounds { x, y })
                &&& *final(self) == *old(self)
            }),
            forall|x2: i32, y2: i32| x2 != x || y2 != y
                ==> #[trigger] final(self).spec_retrieve(x2, y2) == old(self).spec_retrieve(x2, y2),
    {
        let id = self.xy_idx(x, y);
        if self.is_in_bounds(x, y) {
            self.items.set(id, item);
            proof {
                assert(final(self).cells() =~= old(self).cells().update(id as int, item));
                assert forall|x2: i32, y2: i32| x2 != x || y2 != y
                    implies #[trigger] self.spec_retrieve(x2, y2)
                        == old(self).spec_retrieve(x2, y2) by {
                    if old(self).in_bounds(x2 as int, y2 as int) {
                        old(self).lemma_round_trip(x as int, y as int);
                        old(self).lemma_round_trip(x2 as int, y2 as int);
                        old(self).lemma_index_range(x2 as int, y2 as int);
                    }
                }
            }
            return Ok(());
        } else {
            Err(GridError::OutOfBounds { x, y })
        }
    }

    /// Restores the cell at `(x, y)` to the grid's default value; the same
    /// success/failure contract as `set_point` with that value.
    pub fn reset_point(&mut self, x: i32, y: i32) -> (r: Result<(), GridError>)
        requires
            old(self).wf(),
        ensures
            final(self).wf(),
            final(self).spec_width() == old(self).spec_width(),
            final(self).spec_height() == old(self).spec_height(),
            final(self).default_value() == old(self).default_value(),
            old(self).in_bounds(x as int, y as int) ==> ({
                &&& r == Ok::<(), GridError>(())
                &&& final(self).cells() == old(self).cells().update(
                    old(self).spec_xy_idx(x as int, y as int), old(self).default_value())
                &&& final(self).spec_retrieve(x, y)
                    == Ok::<T, GridError>(old(self).default_value())
            }),
            !old(self).in_bounds(x as int, y as int) ==> ({
                &&& r == Err::<(), GridError>(GridError::OutOfBounds { x, y })
                &&& *final(self) == *old(self)
            }),
            forall|x2: i32, y2: i32| x2 != x || y2 != y
                ==> #[trigger] final(self).spec_retrieve(x2, y2) == old(self).spec_retrieve(x2, y2),
    {
        let d = self.default;
        self.set_point(x, y, d)
    }

    /// Restores every cell of the grid to the default value, by sweeping the
    /// whole index range and resetting the coordinate each index maps to.
    /// Every index the sweep produces is in bounds by construction, so every
    /// inner reset succeeds.
    pub fn reset_map(&mut self)
        requires
            old(self).wf(),
        ensures
            final(self).wf(),
            final(self).spec_width() == old(self).spec_width(),
            final(self).spec_height() == old(self).spec_height(),
            final(self).default_value() == old(self).default_value(),
            forall|j: int| 0 <= j < final(self).cells().len()
                ==> #[trigger] final(self).cells()[j] == old(self).default_value(),
            forall|x: i32, y: i32| old(self).in_bounds(x as int, y as int)
                ==> #[trigger] final(self).spec_retrieve(x, y)
                    == Ok::<T, GridError>(old(self).default_value()),
    {
        let len = self.items.len();
        let mut i: usize = 0;
        while i < len
            invariant
                i <= len,
                self.wf(),
                self.spec_width() == old(self).spec_width(),
                self.spec_height() == old(self).spec_height(),
                self.default_value() == old(self).default_value(),
                len == self.cells().len(),
                forall|j: int| 0 <= j < i ==> #[trigger] self.cells()[j] == old(self).default_value(),
            decreases len - i,
        {
            let ghost prev = *self;
            let (x, y) = self.idx_xy(i);
            if self.is_in_bounds(x, y) {
                let _ = self.reset_point(x, y);
            }
            proof {
                assert(self.cells() == prev.cells().update(i as int, prev.default_value()));
            }
            i = i + 1;
        }
        proof {
            assert forall|x: i32, y: i32| old(self).in_bounds(x as int, y as int)
                implies #[trigger] self.spec_retrieve(x, y)
                    == Ok::<T, GridError>(old(self).default_value()) by {
                self.lemma_index_range(x as int, y as int);
            }
        }
    }

    /// Maps a coordinate to its row-major flat index, `y * width + x`.
    ///
    /// The raw conversion is deliberately unchecked: for an out-of-bounds
    /// coordinate it still returns without failing, but the index is
    /// meaningless and may even collide with another cell's. Only the
    /// in-bounds result is specified; the bounds-checked accessors pair this
    /// conversion with `is_in_bounds`.
    pub fn xy_idx(&self, x: i32, y: i32) -> (r: usize)
        requires
            self.wf(),
        ensures
            self.in_bounds(x as int, y as int) ==> r == self.spec_xy_idx(x as int, y as int),
            self.in_bounds(x as int, y as int) ==> r < self.cells().len(),
    {
        proof {
            lemma_i32_product_fits_i64(y as int, self.width as int);
        }
        let v: i64 = (y as i64) * (self.width as i64) + (x as i64);
        // Reading the length teaches the prover that the buffer, and with it
        // any in-bounds index, fits in usize, so the cast below loses nothing.
        let n: usize = self.items.len();
        proof {
            if self.in_bounds(x as int, y as int) {
                lemma_row_major_index_in_range(
                    self.spec_width(), self.spec_height(), x as int, y as int);
                assert(0 <= (v as int) && (v as int) < (n as int));
            }
        }
        #[verifier::truncate] (v as usize)
    }

    /// Maps a flat index back to its coordinate: `(idx % width, idx / width)`.
    /// For every index inside the buffer the result is in bounds, and this is
    /// the exact inverse of `xy_idx`.
    pub fn idx_xy(&self, idx: usize) -> (r: (i32, i32))
        requires
            self.wf(),
            idx < self.cells().len(),
        ensures
            r.0 as int == self.spec_idx_xy(idx as int).0,
            r.1 as int == self.spec_idx_xy(idx as int).1,
            self.in_bounds(r.0 as int, r.1 as int),
            self.spec_xy_idx(r.0 as int, r.1 as int) == idx as int,
    {
        proof {
            self.lemma_idx_round_trip(idx as int);
        }
        let w: usize = self.width as usize;
        ((idx % w) as i32, (idx / w) as i32)
    }

    /// True iff `(x, y)` is a valid coordinate of this grid.
    pub fn is_in_bounds(&self, x: i32, y: i32) -> (r: bool)
        ensures
            r == self.in_bounds(x as int, y as int),
    {
        x < self.width && y < self.height && x >= 0 && y >= 0
    }

    /// The grid's width.
    pub fn width(&self) -> (r: i32)
        ensures
            r as int == self.spec_width(),
    {
        self.width
    }

    /// The grid's height.
    pub fn height(&self) -> (r: i32)
        ensures
            r as int == self.spec_height(),
    {
        self.height
    }

    /// A read-only view of the flat cell buffer, row-major. Mutation goes
    /// through the bounds-checked accessors only, which is what keeps the
    /// buffer's length equal to `width * height`.
    pub fn items(&self) -> (r: &Vec<T>)
        ensures
            r@ == self.cells(),
    {
        &self.items
    }
}

} // verus!
