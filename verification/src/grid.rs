use vstd::prelude::*;
use vstd::arithmetic::div_mod::lemma_fundamental_div_mod_converse;
use vstd::arithmetic::mul::{lemma_mul_inequality, lemma_mul_is_commutative, lemma_mul_is_distributive_add_other_way};
use crate::scalar::Test;

verus! {

/// The mathematical value of a matrix: its shape and its cells in row-major
/// order.  Cell `(r, c)` stands at position `r * columns + c`.
pub struct Grid<T> {
    pub rows: nat,
    pub columns: nat,
    pub cells: Seq<T>,
}

impl<T> Grid<T> {
    /// There are exactly `rows * columns` cells.
    pub open spec fn wf(self) -> bool {
        self.cells.len() == self.rows * self.columns
    }

    /// The cell in row `r` and column `c`.
    pub open spec fn at(self, r: int, c: int) -> T {
        self.cells[r * self.columns + c]
    }

    /// The cells of row `r`, left to right.
    pub open spec fn row(self, r: int) -> Seq<T> {
        self.cells.subrange(r * self.columns, (r + 1) * self.columns)
    }

    pub open spec fn same_shape(self, other: Grid<T>) -> bool {
        self.rows == other.rows && self.columns == other.columns
    }

    /// A single row or a single column.
    pub open spec fn is_vector(self) -> bool {
        self.rows == 1 || self.columns == 1
    }

    /// The grid of the given shape with `value` in every cell.
    pub open spec fn filled(rows: nat, columns: nat, value: T) -> Grid<T> {
        Grid { rows, columns, cells: Seq::new(rows * columns, |i: int| value) }
    }

    /// The same shape with `value` in every cell.
    pub open spec fn fill(self, value: T) -> Grid<T> {
        Grid { rows: self.rows, columns: self.columns, cells: Seq::new(self.cells.len(), |i: int| value) }
    }

    /// The same grid with cell `(r, c)` replaced by `value`.
    pub open spec fn put(self, r: int, c: int, value: T) -> Grid<T> {
        Grid { rows: self.rows, columns: self.columns, cells: self.cells.update(r * self.columns + c, value) }
    }

    /// The same cells in the same order, as one column.
    pub open spec fn as_column(self) -> Grid<T> {
        Grid { rows: self.rows * self.columns, columns: 1, cells: self.cells }
    }

    /// The same cells in the same order, as one row.
    pub open spec fn as_row(self) -> Grid<T> {
        Grid { rows: 1, columns: self.rows * self.columns, cells: self.cells }
    }

    /// Rows and columns exchanged: cell `(c, r)` of the result is cell `(r, c)`
    /// of `self`.
    pub open spec fn transpose(self) -> Grid<T> {
        Grid {
            rows: self.columns,
            columns: self.rows,
            cells: Seq::new(
                self.rows * self.columns,
                |i: int| self.at(i % (self.rows as int), i / (self.rows as int)),
            ),
        }
    }

    /// `f` applied to every cell.
    pub open spec fn map(self, f: spec_fn(T) -> T) -> Grid<T> {
        Grid { rows: self.rows, columns: self.columns, cells: Seq::new(self.cells.len(), |i: int| f(self.cells[i])) }
    }

    /// `f` applied to every pair of cells that stand at the same place.
    pub open spec fn zip(self, other: Grid<T>, f: spec_fn(T, T) -> T) -> Grid<T> {
        Grid {
            rows: self.rows,
            columns: self.columns,
            cells: Seq::new(self.cells.len(), |i: int| f(self.cells[i], other.cells[i])),
        }
    }
}

impl<T: Test> Grid<T> {
    /// The sum of two grids of one shape, cell by cell.
    pub open spec fn plus(self, other: Grid<T>) -> Grid<T> {
        self.zip(other, |a: T, b: T| a.add_spec(b))
    }

    /// The difference of two grids of one shape, cell by cell.
    pub open spec fn minus(self, other: Grid<T>) -> Grid<T> {
        self.zip(other, |a: T, b: T| a.sub_spec(b))
    }

    /// The product of two grids of one shape, cell by cell.
    pub open spec fn times(self, other: Grid<T>) -> Grid<T> {
        self.zip(other, |a: T, b: T| a.mul_spec(b))
    }

    /// Every cell multiplied by `n`.
    pub open spec fn scale(self, n: T) -> Grid<T> {
        self.map(|a: T| a.mul_spec(n))
    }

    /// `n` added to every cell.
    pub open spec fn add_scalar(self, n: T) -> Grid<T> {
        self.map(|a: T| a.add_spec(n))
    }

    /// The sum of the first `k` products of row `r` of `self` with column `c`
    /// of `rhs`, added up from zero in the order of the shared index.
    pub open spec fn dot_sum(self, rhs: Grid<T>, r: int, c: int, k: nat) -> T
        decreases k,
    {
        if k == 0 {
            T::zero_spec()
        } else {
            self.dot_sum(rhs, r, c, (k - 1) as nat).add_spec(
                self.at(r, k - 1).mul_spec(rhs.at(k - 1, c)),
            )
        }
    }

    /// Cell `(r, c)` of the matrix product.
    pub open spec fn dot_cell(self, rhs: Grid<T>, r: int, c: int) -> T {
        self.dot_sum(rhs, r, c, self.columns)
    }

    /// The matrix product `self · rhs`, meant for `self.columns == rhs.rows`.
    pub open spec fn dot(self, rhs: Grid<T>) -> Grid<T> {
        Grid {
            rows: self.rows,
            columns: rhs.columns,
            cells: Seq::new(
                self.rows * rhs.columns,
                |i: int| self.dot_cell(rhs, i / (rhs.columns as int), i % (rhs.columns as int)),
            ),
        }
    }

    /// The state of a scan for the greatest cell after the first `k` cells:
    /// the position and the value of the best cell so far.  The scan starts
    /// from position 0 with the smallest finite value, and a cell takes over
    /// only if it is strictly greater, so of equal cells the first one stays.
    /// The order of an element type is given by `gt_spec` alone and nothing is
    /// assumed of it, which is why the result is stated as this scan.
    pub open spec fn scan_max(cells: Seq<T>, k: nat) -> (nat, T)
        decreases k,
    {
        if k == 0 {
            (0, T::min_value_spec())
        } else {
            let before = Self::scan_max(cells, (k - 1) as nat);
            if cells[k - 1].gt_spec(before.1) {
                ((k - 1) as nat, cells[k - 1])
            } else {
                before
            }
        }
    }

    /// The position of the greatest cell in row-major order.
    pub open spec fn argmax(self) -> nat {
        Self::scan_max(self.cells, self.cells.len()).0
    }
}

/// Position `r * columns + c` lies inside a grid of `rows` rows, and splits
/// back into `r` and `c`.
pub proof fn lemma_flat_index(rows: int, columns: int, r: int, c: int)
    requires
        0 <= r < rows,
        0 <= c < columns,
    ensures
        0 <= r * columns + c < rows * columns,
        (r * columns + c) / columns == r,
        (r * columns + c) % columns == c,
{
    lemma_mul_is_commutative(r, columns);
    lemma_fundamental_div_mod_converse(r * columns + c, columns, r, c);
    assert(0 <= r * columns) by (nonlinear_arith)
        requires
            0 <= r,
            0 <= columns,
    ;
    assert((r + 1) * columns <= rows * columns) by {
        lemma_mul_inequality(r + 1, rows, columns);
    }
    assert((r + 1) * columns == r * columns + columns) by {
        lemma_mul_is_distributive_add_other_way(columns, r, 1);
    }
}

/// A position inside a grid splits into a row and a column inside it.
pub proof fn lemma_split_index(rows: int, columns: int, i: int)
    requires
        0 <= i < rows * columns,
        0 <= rows,
        0 <= columns,
    ensures
        0 < columns,
        0 <= i / columns < rows,
        0 <= i % columns < columns,
        (i / columns) * columns + i % columns == i,
{
    assert(columns > 0) by (nonlinear_arith)
        requires
            0 <= i < rows * columns,
            0 <= columns,
    ;
    vstd::arithmetic::div_mod::lemma_fundamental_div_mod(i, columns);
    vstd::arithmetic::div_mod::lemma_div_pos_is_pos(i, columns);
    vstd::arithmetic::div_mod::lemma_mod_bound(i, columns);
    lemma_mul_is_commutative(columns, i / columns);
    if i / columns >= rows {
        lemma_mul_inequality(rows, i / columns, columns);
    }
}

/// Where the cell at row-major position `j` of a `rows × columns` grid stands
/// in the transposed grid.
pub open spec fn transposed_index(rows: int, columns: int, j: int) -> int {
    (j % columns) * rows + j / columns
}

/// Transposing a position keeps it inside the grid, and transposing it back
/// gives the position again.
pub proof fn lemma_transposed_index(rows: int, columns: int, j: int)
    requires
        0 <= j < rows * columns,
        0 <= rows,
        0 <= columns,
    ensures
        0 <= transposed_index(rows, columns, j) < rows * columns,
        transposed_index(columns, rows, transposed_index(rows, columns, j)) == j,
{
    lemma_split_index(rows, columns, j);
    lemma_flat_index(columns, rows, j % columns, j / columns);
    lemma_mul_is_commutative(rows, columns);
}

} // verus!
