use vstd::arithmetic::mul::lemma_mul_is_commutative;
use vstd::prelude::*;
use vstd::slice::slice_subrange;
use crate::error::MatrixError;
use crate::grid::{lemma_flat_index, lemma_split_index, lemma_transposed_index, transposed_index, Grid};
use crate::parallel::par_fill;
use crate::sampler::{can_draw, draws_never_fail, init_range, uniform_distribution};
pub use crate::scalar::Test;

verus! {

/// Splits a row-major position into its row and its column.
pub fn i_to_xy(i: usize, columns: usize) -> (xy: (usize, usize))
    requires
        columns > 0,
    ensures
        xy.0 == i / columns,
        xy.1 == i % columns,
{
    (i / columns, i % columns)
}

/// The shape that `flatten` gives its result.
#[derive(Debug, Clone, Copy, PartialEq, Eq, Structural)]
pub enum Axis {
    /// All cells below one another: `rows * columns` rows of one cell.
    Row,
    /// All cells side by side: one row of `rows * columns` cells.
    Collumn,
}

/// A dense matrix that owns its cells in one row-major buffer.
#[derive(Debug)]
pub struct Matrix2d<T> {
    inner: Vec<T>,
    rows: usize,
    columns: usize,
}

impl<T> View for Matrix2d<T> {
    type V = Grid<T>;

    closed spec fn view(&self) -> Grid<T> {
        Grid { rows: self.rows as nat, columns: self.columns as nat, cells: self.inner@ }
    }
}

/// A vector of `n` copies of `value`.
fn repeated<T: Copy>(value: T, n: usize) -> (cells: Vec<T>)
    ensures
        cells@ == Seq::new(n as nat, |i: int| value),
{
    let mut cells: Vec<T> = Vec::with_capacity(n);
    let mut i: usize = 0;
    while i < n
        invariant
            i <= n,
            cells@ == Seq::new(i as nat, |j: int| value),
        decreases n - i,
    {
        cells.push(value);
        i += 1;
    }
    cells
}

/// A copy of `cells`.
fn copied<T: Copy>(cells: &Vec<T>) -> (copy: Vec<T>)
    ensures
        copy@ == cells@,
{
    let len: usize = cells.len();
    let mut copy: Vec<T> = Vec::with_capacity(len);
    let mut i: usize = 0;
    while i < len
        invariant
            i <= len,
            len == cells@.len(),
            copy@ == cells@.take(i as int),
        decreases len - i,
    {
        copy.push(cells[i]);
        i += 1;
    }
    copy
}

impl<T: Test> Clone for Matrix2d<T> {
    fn clone(&self) -> (copy: Self)
        ensures
            copy@ == self@,
            copy@.wf(),
    {
        proof {
            use_type_invariant(self);
        }
        Matrix2d { inner: copied(&self.inner), rows: self.rows, columns: self.columns }
    }
}

impl<T> Matrix2d<T> {
    #[verifier::type_invariant]
    spec fn inv(&self) -> bool {
        self.inner@.len() == self.rows * self.columns <= usize::MAX
    }
}

impl<T: Test> Matrix2d<T> {
    /// A matrix of the given shape with the not-a-number sentinel in every
    /// cell, so that a cell read before it was written shows.
    pub fn new(rows: usize, columns: usize) -> (m: Self)
        requires
            rows * columns <= usize::MAX,
        ensures
            m@ == Grid::filled(rows as nat, columns as nat, T::nan_spec()),
            m@.wf(),
    {
        Matrix2d { inner: repeated(T::nan(), rows * columns), rows, columns }
    }

    /// The matrix of the given shape that holds `cells` in row-major order.
    pub(crate) fn from_cells(rows: usize, columns: usize, cells: Vec<T>) -> (m: Self)
        requires
            cells@.len() == rows * columns,
        ensures
            m@ == (Grid { rows: rows as nat, columns: columns as nat, cells: cells@ }),
            m@.wf(),
    {
        assert(cells@.len() == cells.len());
        Matrix2d { inner: cells, rows, columns }
    }

    /// All cells in row-major order.
    pub(crate) fn cells(&self) -> (cells: &Vec<T>)
        ensures
            cells@ == self@.cells,
            self@.wf(),
    {
        proof {
            use_type_invariant(self);
        }
        &self.inner
    }

    /// Both dimensions of a matrix are numbers that `usize` holds.
    pub proof fn lemma_shape_fits(&self)
        ensures
            self@.rows <= usize::MAX,
            self@.columns <= usize::MAX,
    {
    }

    /// The number of rows.
    pub fn rows(&self) -> (n: usize)
        ensures
            n == self@.rows,
            self@.wf(),
            self@.cells.len() <= usize::MAX,
    {
        proof {
            use_type_invariant(self);
        }
        self.rows
    }

    /// The number of columns.
    pub fn columns(&self) -> (n: usize)
        ensures
            n == self@.columns,
            self@.wf(),
            self@.cells.len() <= usize::MAX,
    {
        proof {
            use_type_invariant(self);
        }
        self.columns
    }

    /// Whether both matrices have the same number of rows and of columns.
    pub fn compare_dims(&self, other_matrix: &Self) -> (same: bool)
        ensures
            same == self@.same_shape(other_matrix@),
    {
        self.columns == other_matrix.columns && self.rows == other_matrix.rows
    }

    /// Overwrites every cell with `n`.
    pub fn fill(&mut self, n: T)
        ensures
            final(self)@ == old(self)@.fill(n),
            final(self)@.wf(),
    {
        proof {
            use_type_invariant(&*self);
        }
        self.inner = repeated(n, self.inner.len());
    }

    /// The cell in row `r` and column `c`.
    pub fn get(&self, r: usize, c: usize) -> (value: T)
        requires
            r < self@.rows,
            c < self@.columns,
        ensures
            value == self@.at(r as int, c as int),
    {
        proof {
            use_type_invariant(self);
            lemma_flat_index(self.rows as int, self.columns as int, r as int, c as int);
        }
        self.inner[r * self.columns + c]
    }

    /// Writes `value` into the cell in row `r` and column `c`.
    pub fn set(&mut self, r: usize, c: usize, value: T)
        requires
            r < old(self)@.rows,
            c < old(self)@.columns,
        ensures
            final(self)@ == old(self)@.put(r as int, c as int, value),
            final(self)@.wf(),
    {
        proof {
            use_type_invariant(&*self);
            lemma_flat_index(self.rows as int, self.columns as int, r as int, c as int);
        }
        self.inner[r * self.columns + c] = value;
    }

    /// A mutable view of the cell in row `r` and column `c`: what is written
    /// through it is written into the matrix, and nothing else changes.
    pub fn cell_mut(&mut self, r: usize, c: usize) -> (cell: &mut T)
        requires
            r < old(self)@.rows,
            c < old(self)@.columns,
        ensures
            *cell == old(self)@.at(r as int, c as int),
            final(self)@ == old(self)@.put(r as int, c as int, *final(cell)),
            final(self)@.wf(),
    {
        proof {
            use_type_invariant(&*self);
            lemma_flat_index(self.rows as int, self.columns as int, r as int, c as int);
        }
        &mut self.inner[r * self.columns + c]
    }

    /// The cells of row `index`, as one contiguous slice.
    pub fn row(&self, index: usize) -> (cells: &[T])
        requires
            index < self@.rows,
        ensures
            cells@ == self@.row(index as int),
            cells@.len() == self@.columns,
    {
        proof {
            use_type_invariant(self);
            lemma_flat_index(self.rows as int, self.columns as int + 1, index as int, self.columns as int);
            assert((index + 1) * self.columns <= self.rows * self.columns) by (nonlinear_arith)
                requires
                    index < self.rows,
            ;
            assert((index + 1) * self.columns == index * self.columns + self.columns) by (nonlinear_arith);
        }
        slice_subrange(self.inner.as_slice(), index * self.columns, (index + 1) * self.columns)
    }

    /// Fills every cell with an independent sample drawn uniformly from
    /// `[-1/n, 1/n)`, where `n` is by convention the fan-in of the layer.
    ///
    /// Fails with `NumericConversionFailure`, and leaves the matrix as it was,
    /// where a bound or a sample cannot be computed.  It succeeds whenever the
    /// bounds exist and, unless the matrix has no cell, every draw between
    /// them gives a sample.
    pub fn randomize(&mut self, n: usize) -> (outcome: Result<(), MatrixError>)
        ensures
            final(self)@.wf(),
            match outcome {
                Ok(()) => {
                    &&& final(self)@.same_shape(old(self)@)
                    &&& init_range::<T>(n) matches Some((low, high)) && forall|i: int|
                        0 <= i < final(self)@.cells.len() ==> can_draw(
                            low,
                            high,
                            #[trigger] final(self)@.cells[i],
                        )
                },
                Err(e) => {
                    &&& e == MatrixError::NumericConversionFailure
                    &&& final(self)@ == old(self)@
                    &&& !(init_range::<T>(n) matches Some((low, high)) && (old(self)@.cells.len() == 0
                        || draws_never_fail(low, high)))
                },
            },
    {
        proof {
            use_type_invariant(&*self);
        }
        let fan_in = match T::from_usize(n) {
            Some(fan_in) => fan_in,
            None => { return Err(MatrixError::NumericConversionFailure); },
        };
        let low = T::one().neg().div(fan_in);
        let high = T::one().div(fan_in);
        let len: usize = self.inner.len();
        let mut cells: Vec<T> = Vec::with_capacity(len);
        let mut i: usize = 0;
        while i < len
            invariant
                i <= len,
                cells@.len() == i,
                self@ == old(self)@,
                len == self.inner@.len() == self.rows * self.columns <= usize::MAX,
                init_range::<T>(n) == Some((low, high)),
                forall|j: int| 0 <= j < i ==> can_draw(low, high, #[trigger] cells@[j]),
            decreases len - i,
        {
            match uniform_distribution(low, high) {
                Ok(v) => { cells.push(v); },
                Err(e) => { return Err(e); },
            }
            i += 1;
        }
        self.inner = cells;
        Ok(())
    }

    /// The same cells in the same row-major order, as a single column
    /// (`Axis::Row`) or a single row (`Axis::Collumn`).  The axis chooses the
    /// shape of the result only, never the order of the cells.
    pub fn flatten(&self, axis: Axis) -> (m: Self)
        ensures
            m@ == match axis {
                Axis::Row => self@.as_column(),
                Axis::Collumn => self@.as_row(),
            },
            m@.wf(),
    {
        proof {
            use_type_invariant(self);
        }
        let len: usize = self.inner.len();
        let cells = copied(&self.inner);
        match axis {
            Axis::Row => Matrix2d { inner: cells, rows: len, columns: 1 },
            Axis::Collumn => Matrix2d { inner: cells, rows: 1, columns: len },
        }
    }

    /// The position, in row-major order, of the greatest cell of a matrix
    /// that is a single row or a single column.
    ///
    /// The cells are scanned in order, starting from the smallest finite
    /// value; a cell takes over only if it is strictly greater, so of equal
    /// cells the first one is reported, and position 0 if no cell exceeds the
    /// starting value.  Any other shape is reported as `ShapeNotVector`.
    pub fn argmax(&self) -> (best: Result<usize, MatrixError>)
        ensures
            match best {
                Ok(i) => self@.is_vector() && i == self@.argmax(),
                Err(e) => !self@.is_vector() && e == MatrixError::ShapeNotVector,
            },
    {
        if self.rows != 1 && self.columns != 1 {
            return Err(MatrixError::ShapeNotVector);
        }
        let len: usize = self.inner.len();
        let mut max_value = T::min_value();
        let mut max_index: usize = 0;
        let mut i: usize = 0;
        while i < len
            invariant
                i <= len,
                len == self.inner@.len(),
                (max_index as nat, max_value) == Grid::<T>::scan_max(self.inner@, i as nat),
            decreases len - i,
        {
            let v = self.inner[i];
            if v.gt(max_value) {
                max_value = v;
                max_index = i;
            }
            i += 1;
        }
        Ok(max_index)
    }

    /// Cell `(r, c)` of the product `self · rhs`: the products along the
    /// shared dimension, added up from zero in order.
    fn dot_cell(&self, rhs: &Self, r: usize, c: usize) -> (sum: T)
        requires
            self@.columns == rhs@.rows,
            r < self@.rows,
            c < rhs@.columns,
        ensures
            sum == self@.dot_cell(rhs@, r as int, c as int),
    {
        proof {
            use_type_invariant(self);
            use_type_invariant(rhs);
        }
        let mut sum = T::zero();
        let mut k: usize = 0;
        while k < rhs.rows
            invariant
                k <= rhs.rows,
                self.columns == rhs.rows,
                r < self.rows,
                c < rhs.columns,
                self.inner@.len() == self.rows * self.columns <= usize::MAX,
                rhs.inner@.len() == rhs.rows * rhs.columns <= usize::MAX,
                sum == self@.dot_sum(rhs@, r as int, c as int, k as nat),
            decreases rhs.rows - k,
        {
            proof {
                lemma_flat_index(self.rows as int, self.columns as int, r as int, k as int);
                lemma_flat_index(rhs.rows as int, rhs.columns as int, k as int, c as int);
            }
            sum = sum.add(self.inner[r * self.columns + k].mul(rhs.inner[k * rhs.columns + c]));
            k += 1;
        }
        sum
    }

    /// The matrix product `self · rhs`.
    ///
    /// Needs `self.columns == rhs.rows` and reports `DimensionMismatch`
    /// otherwise.  Every cell of the result is the sum, from zero and in the
    /// order of the shared index, of the products of a row of `self` with a
    /// column of `rhs`.
    pub fn dot(&self, rhs: &Self) -> (product: Result<Self, MatrixError>)
        requires
            self@.rows * rhs@.columns <= usize::MAX,
        ensures
            match product {
                Ok(m) => self@.columns == rhs@.rows && m@ == self@.dot(rhs@) && m@.wf(),
                Err(e) => self@.columns != rhs@.rows && e == MatrixError::DimensionMismatch,
            },
    {
        if self.columns != rhs.rows {
            return Err(MatrixError::DimensionMismatch);
        }
        let n: usize = self.rows * rhs.columns;
        let mut cells: Vec<T> = Vec::with_capacity(n);
        let mut r1: usize = 0;
        while r1 < self.rows
            invariant
                r1 <= self.rows,
                self.columns == rhs.rows,
                n == self.rows * rhs.columns,
                cells@.len() == r1 * rhs.columns,
                forall|i: int| 0 <= i < cells@.len() ==> cells@[i] == self@.dot(rhs@).cells[i],
            decreases self.rows - r1,
        {
            let mut c2: usize = 0;
            while c2 < rhs.columns
                invariant
                    r1 < self.rows,
                    c2 <= rhs.columns,
                    self.columns == rhs.rows,
                    n == self.rows * rhs.columns,
                    cells@.len() == r1 * rhs.columns + c2,
                    forall|i: int| 0 <= i < cells@.len() ==> cells@[i] == self@.dot(rhs@).cells[i],
                decreases rhs.columns - c2,
            {
                proof {
                    lemma_flat_index(self.rows as int, rhs.columns as int, r1 as int, c2 as int);
                }
                let sum = self.dot_cell(rhs, r1, c2);
                cells.push(sum);
                c2 += 1;
            }
            proof {
                assert((r1 + 1) * rhs.columns == r1 * rhs.columns + rhs.columns) by (nonlinear_arith);
            }
            r1 += 1;
        }
        assert(cells@ =~= self@.dot(rhs@).cells);
        Ok(Matrix2d { inner: cells, rows: self.rows, columns: rhs.columns })
    }

    /// The matrix product, with the cells of the result computed in parallel.
    ///
    /// Takes and gives what `dot` does: the cells are handed out to worker
    /// threads, and each of them adds up its products in the order of the
    /// shared index, so the result does not depend on how the work was split.
    pub fn dot_par(&self, rhs: &Self) -> (product: Result<Self, MatrixError>)
        requires
            self@.rows * rhs@.columns <= usize::MAX,
        ensures
            match product {
                Ok(m) => self@.columns == rhs@.rows && m@ == self@.dot(rhs@) && m@.wf(),
                Err(e) => self@.columns != rhs@.rows && e == MatrixError::DimensionMismatch,
            },
    {
        if self.columns != rhs.rows {
            return Err(MatrixError::DimensionMismatch);
        }
        let rows: usize = self.rows;
        let columns: usize = rhs.columns;
        let n: usize = rows * columns;
        let mut cells: Vec<T> = repeated(T::nan(), n);
        let cell = |i: usize| -> (sum: T)
            requires
                i < n,
            ensures
                sum == self@.dot(rhs@).cells[i as int],
            {
                proof {
                    lemma_split_index(rows as int, columns as int, i as int);
                }
                let (x, y) = i_to_xy(i, columns);
                self.dot_cell(rhs, x, y)
            };
        par_fill(&mut cells, cell);
        assert(cells@ =~= self@.dot(rhs@).cells);
        Ok(Matrix2d { inner: cells, rows, columns })
    }

    /// The matrix with rows and columns exchanged.
    pub fn transpose(&self) -> (t: Self)
        ensures
            t@ == self@.transpose(),
            t@.wf(),
    {
        proof {
            use_type_invariant(self);
        }
        let n: usize = self.inner.len();
        let ghost rows = self.rows as int;
        let ghost columns = self.columns as int;
        let mut cells: Vec<T> = repeated(T::nan(), n);
        let mut i: usize = 0;
        while i < n
            invariant
                i <= n,
                n == rows * columns,
                rows == self.rows,
                columns == self.columns,
                self.inner@.len() == n,
                cells@.len() == n,
                forall|j: int| 0 <= j < i ==> cells@[transposed_index(rows, columns, j)] == self.inner@[j],
            decreases n - i,
        {
            proof {
                lemma_split_index(rows, columns, i as int);
                lemma_transposed_index(rows, columns, i as int);
            }
            let (x, y) = i_to_xy(i, self.columns);
            let new_i: usize = y * self.rows + x;
            cells.set(new_i, self.inner[i]);
            proof {
                assert forall|j: int| 0 <= j <= i implies cells@[transposed_index(rows, columns, j)]
                    == self.inner@[j] by {
                    lemma_transposed_index(rows, columns, j);
                }
            }
            i += 1;
        }
        proof {
            assert forall|p: int| 0 <= p < n implies cells@[p] == self@.transpose().cells[p] by {
                lemma_mul_is_commutative(rows, columns);
                lemma_transposed_index(columns, rows, p);
            }
            assert(cells@ =~= self@.transpose().cells);
        }
        Matrix2d { inner: cells, rows: self.columns, columns: self.rows }
    }

    /// The transposed matrix, with its cells fetched in parallel.
    pub fn transpose_par(&self) -> (t: Self)
        ensures
            t@ == self@.transpose(),
            t@.wf(),
    {
        proof {
            use_type_invariant(self);
        }
        let rows: usize = self.rows;
        let columns: usize = self.columns;
        let n: usize = self.inner.len();
        let mut cells: Vec<T> = repeated(T::nan(), n);
        let cell = |i: usize| -> (v: T)
            requires
                i < n,
            ensures
                v == self@.transpose().cells[i as int],
            {
                proof {
                    lemma_mul_is_commutative(rows as int, columns as int);
                    lemma_split_index(columns as int, rows as int, i as int);
                    lemma_transposed_index(columns as int, rows as int, i as int);
                }
                let (x, y) = i_to_xy(i, rows);
                let old_i: usize = y * columns + x;
                self.inner[old_i]
            };
        par_fill(&mut cells, cell);
        assert(cells@ =~= self@.transpose().cells);
        Matrix2d { inner: cells, rows: columns, columns: rows }
    }

    /// Every cell multiplied by `n`.
    pub fn scale(&self, n: T) -> (m: Self)
        ensures
            m@ == self@.scale(n),
            m@.wf(),
    {
        proof {
            use_type_invariant(self);
        }
        let len: usize = self.inner.len();
        let mut cells: Vec<T> = Vec::with_capacity(len);
        let mut i: usize = 0;
        while i < len
            invariant
                i <= len,
                len == self.inner@.len(),
                cells@.len() == i,
                forall|j: int| 0 <= j < i ==> cells@[j] == self.inner@[j].mul_spec(n),
            decreases len - i,
        {
            cells.push(self.inner[i].mul(n));
            i += 1;
        }
        assert(cells@ =~= self@.scale(n).cells);
        Matrix2d { inner: cells, rows: self.rows, columns: self.columns }
    }

    /// `n` added to every cell.
    pub fn add_scalar(&self, n: T) -> (m: Self)
        ensures
            m@ == self@.add_scalar(n),
            m@.wf(),
    {
        proof {
            use_type_invariant(self);
        }
        let len: usize = self.inner.len();
        let mut cells: Vec<T> = Vec::with_capacity(len);
        let mut i: usize = 0;
        while i < len
            invariant
                i <= len,
                len == self.inner@.len(),
                cells@.len() == i,
                forall|j: int| 0 <= j < i ==> cells@[j] == self.inner@[j].add_spec(n),
            decreases len - i,
        {
            cells.push(self.inner[i].add(n));
            i += 1;
        }
        assert(cells@ =~= self@.add_scalar(n).cells);
        Matrix2d { inner: cells, rows: self.rows, columns: self.columns }
    }

    /// `fun` applied to every cell, one call per cell in row-major order.
    ///
    /// The result has the shape of `self`, and each of its cells is a value
    /// that `fun` returns for the cell at the same place.
    pub fn apply<F>(&self, fun: &F) -> (m: Self) where F: Fn(&T) -> T
        requires
            forall|i: int| 0 <= i < self@.cells.len() ==> call_requires(fun, (&#[trigger] self@.cells[i],)),
        ensures
            m@.same_shape(self@),
            m@.wf(),
            m@.cells.len() == self@.cells.len(),
            forall|i: int|
                0 <= i < self@.cells.len() ==> call_ensures(fun, (&self@.cells[i],), #[trigger] m@.cells[i]),
    {
        proof {
            use_type_invariant(self);
        }
        let len: usize = self.inner.len();
        let mut cells: Vec<T> = Vec::with_capacity(len);
        let mut i: usize = 0;
        while i < len
            invariant
                i <= len,
                len == self.inner@.len(),
                cells@.len() == i,
                forall|j: int| 0 <= j < len ==> call_requires(fun, (&#[trigger] self@.cells[j],)),
                forall|j: int| 0 <= j < i ==> call_ensures(fun, (&self@.cells[j],), #[trigger] cells@[j]),
            decreases len - i,
        {
            assert(self@.cells[i as int] == self.inner@[i as int]);
            let v = fun(&self.inner[i]);
            cells.push(v);
            i += 1;
        }
        Matrix2d { inner: cells, rows: self.rows, columns: self.columns }
    }

    /// `fun` applied to every cell, the cells shared out among worker threads.
    ///
    /// Takes and gives what `apply` does.
    pub fn apply_par<F>(&self, fun: &F) -> (m: Self) where F: Fn(&T) -> T + Send + Sync
        requires
            forall|i: int| 0 <= i < self@.cells.len() ==> call_requires(fun, (&#[trigger] self@.cells[i],)),
        ensures
            m@.same_shape(self@),
            m@.wf(),
            m@.cells.len() == self@.cells.len(),
            forall|i: int|
                0 <= i < self@.cells.len() ==> call_ensures(fun, (&self@.cells[i],), #[trigger] m@.cells[i]),
    {
        proof {
            use_type_invariant(self);
        }
        let len: usize = self.inner.len();
        let mut cells: Vec<T> = repeated(T::nan(), len);
        let cell = |i: usize| -> (v: T)
            requires
                i < len,
            ensures
                call_ensures(fun, (&self@.cells[i as int],), v),
            {
                assert(self@.cells[i as int] == self.inner@[i as int]);
                fun(&self.inner[i])
            };
        par_fill(&mut cells, cell);
        Matrix2d { inner: cells, rows: self.rows, columns: self.columns }
    }

    /// Every cell multiplied by `n`, in parallel.
    pub fn scale_par(&self, n: T) -> (m: Self)
        ensures
            m@ == self@.scale(n),
            m@.wf(),
    {
        proof {
            use_type_invariant(self);
        }
        let len: usize = self.inner.len();
        let mut cells: Vec<T> = repeated(T::nan(), len);
        let cell = |i: usize| -> (v: T)
            requires
                i < len,
            ensures
                v == self.inner@[i as int].mul_spec(n),
            { self.inner[i].mul(n) };
        par_fill(&mut cells, cell);
        assert(cells@ =~= self@.scale(n).cells);
        Matrix2d { inner: cells, rows: self.rows, columns: self.columns }
    }

    /// `n` added to every cell, in parallel.
    pub fn add_scalar_par(&self, n: T) -> (m: Self)
        ensures
            m@ == self@.add_scalar(n),
            m@.wf(),
    {
        proof {
            use_type_invariant(self);
        }
        let len: usize = self.inner.len();
        let mut cells: Vec<T> = repeated(T::nan(), len);
        let cell = |i: usize| -> (v: T)
            requires
                i < len,
            ensures
                v == self.inner@[i as int].add_spec(n),
            { self.inner[i].add(n) };
        par_fill(&mut cells, cell);
        assert(cells@ =~= self@.add_scalar(n).cells);
        Matrix2d { inner: cells, rows: self.rows, columns: self.columns }
    }

    /// The sum of two matrices of one shape, cell by cell.
    ///
    /// Reports `DimensionMismatch` where the shapes differ.
    pub fn add(self, rhs: Self) -> (sum: Result<Self, MatrixError>)
        ensures
            match sum {
                Ok(m) => self@.same_shape(rhs@) && m@ == self@.plus(rhs@) && m@.wf(),
                Err(e) => !self@.same_shape(rhs@) && e == MatrixError::DimensionMismatch,
            },
    {
        proof {
            use_type_invariant(&self);
            use_type_invariant(&rhs);
        }
        if !self.compare_dims(&rhs) {
            return Err(MatrixError::DimensionMismatch);
        }
        let len: usize = self.inner.len();
        let mut cells: Vec<T> = Vec::with_capacity(len);
        let mut i: usize = 0;
        while i < len
            invariant
                i <= len,
                len == self.inner@.len(),
                len == rhs.inner@.len(),
                cells@.len() == i,
                forall|j: int| 0 <= j < i ==> cells@[j] == self.inner@[j].add_spec(rhs.inner@[j]),
            decreases len - i,
        {
            cells.push(self.inner[i].add(rhs.inner[i]));
            i += 1;
        }
        assert(cells@ =~= self@.plus(rhs@).cells);
        Ok(Matrix2d { inner: cells, rows: self.rows, columns: self.columns })
    }

    /// The difference of two matrices of one shape, cell by cell.
    ///
    /// Reports `DimensionMismatch` where the shapes differ.
    pub fn sub(self, rhs: Self) -> (difference: Result<Self, MatrixError>)
        ensures
            match difference {
                Ok(m) => self@.same_shape(rhs@) && m@ == self@.minus(rhs@) && m@.wf(),
                Err(e) => !self@.same_shape(rhs@) && e == MatrixError::DimensionMismatch,
            },
    {
        proof {
            use_type_invariant(&self);
            use_type_invariant(&rhs);
        }
        if !self.compare_dims(&rhs) {
            return Err(MatrixError::DimensionMismatch);
        }
        let len: usize = self.inner.len();
        let mut cells: Vec<T> = Vec::with_capacity(len);
        let mut i: usize = 0;
        while i < len
            invariant
                i <= len,
                len == self.inner@.len(),
                len == rhs.inner@.len(),
                cells@.len() == i,
                forall|j: int| 0 <= j < i ==> cells@[j] == self.inner@[j].sub_spec(rhs.inner@[j]),
            decreases len - i,
        {
            cells.push(self.inner[i].sub(rhs.inner[i]));
            i += 1;
        }
        assert(cells@ =~= self@.minus(rhs@).cells);
        Ok(Matrix2d { inner: cells, rows: self.rows, columns: self.columns })
    }

    /// The product of two matrices of one shape, cell by cell.
    ///
    /// Reports `DimensionMismatch` where the shapes differ.
    pub fn mul(self, rhs: Self) -> (product: Result<Self, MatrixError>)
        ensures
            match product {
                Ok(m) => self@.same_shape(rhs@) && m@ == self@.times(rhs@) && m@.wf(),
                Err(e) => !self@.same_shape(rhs@) && e == MatrixError::DimensionMismatch,
            },
    {
        proof {
            use_type_invariant(&self);
            use_type_invariant(&rhs);
        }
        if !self.compare_dims(&rhs) {
            return Err(MatrixError::DimensionMismatch);
        }
        let len: usize = self.inner.len();
        let mut cells: Vec<T> = Vec::with_capacity(len);
        let mut i: usize = 0;
        while i < len
            invariant
                i <= len,
                len == self.inner@.len(),
                len == rhs.inner@.len(),
                cells@.len() == i,
                forall|j: int| 0 <= j < i ==> cells@[j] == self.inner@[j].mul_spec(rhs.inner@[j]),
            decreases len - i,
        {
            cells.push(self.inner[i].mul(rhs.inner[i]));
            i += 1;
        }
        assert(cells@ =~= self@.times(rhs@).cells);
        Ok(Matrix2d { inner: cells, rows: self.rows, columns: self.columns })
    }

    /// The cell-by-cell product, computed in parallel.
    ///
    /// Takes and gives what `mul` does, but for borrowing `rhs`.
    pub fn mul_par(self, rhs: &Self) -> (product: Result<Self, MatrixError>)
        ensures
            match product {
                Ok(m) => self@.same_shape(rhs@) && m@ == self@.times(rhs@) && m@.wf(),
                Err(e) => !self@.same_shape(rhs@) && e == MatrixError::DimensionMismatch,
            },
    {
        proof {
            use_type_invariant(&self);
            use_type_invariant(rhs);
        }
        if !self.compare_dims(rhs) {
            return Err(MatrixError::DimensionMismatch);
        }
        let len: usize = self.inner.len();
        let mut cells: Vec<T> = repeated(T::nan(), len);
        let cell = |i: usize| -> (v: T)
            requires
                i < len,
            ensures
                v == self.inner@[i as int].mul_spec(rhs.inner@[i as int]),
            { self.inner[i].mul(rhs.inner[i]) };
        par_fill(&mut cells, cell);
        assert(cells@ =~= self@.times(rhs@).cells);
        Ok(Matrix2d { inner: cells, rows: self.rows, columns: self.columns })
    }

    /// The cell-by-cell sum, computed in parallel.
    ///
    /// Takes and gives what `add` does, but for borrowing `rhs`.
    pub fn add_par(self, rhs: &Self) -> (sum: Result<Self, MatrixError>)
        ensures
            match sum {
                Ok(m) => self@.same_shape(rhs@) && m@ == self@.plus(rhs@) && m@.wf(),
                Err(e) => !self@.same_shape(rhs@) && e == MatrixError::DimensionMismatch,
            },
    {
        proof {
            use_type_invariant(&self);
            use_type_invariant(rhs);
        }
        if !self.compare_dims(rhs) {
            return Err(MatrixError::DimensionMismatch);
        }
        let len: usize = self.inner.len();
        let mut cells: Vec<T> = repeated(T::nan(), len);
        let cell = |i: usize| -> (v: T)
            requires
                i < len,
            ensures
                v == self.inner@[i as int].add_spec(rhs.inner@[i as int]),
            { self.inner[i].add(rhs.inner[i]) };
        par_fill(&mut cells, cell);
        assert(cells@ =~= self@.plus(rhs@).cells);
        Ok(Matrix2d { inner: cells, rows: self.rows, columns: self.columns })
    }
}

} // verus!
