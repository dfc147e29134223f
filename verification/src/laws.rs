use vstd::prelude::*;
use vstd::arithmetic::mul::lemma_mul_is_commutative;
use crate::error::MatrixError;
use crate::grid::{lemma_transposed_index, Grid};
use crate::matrix::Matrix2d;
use crate::scalar::Test;

verus! {

/// The sequential and the parallel matrix product agree.
///
/// Whatever `dot` and `dot_par` return for the same two operands, either both
/// report the same error or both give a matrix, and then the two matrices are
/// equal cell by cell.
pub proof fn lemma_dot_par_agrees<T: Test>(
    lhs: Matrix2d<T>,
    rhs: Matrix2d<T>,
    sequential: Result<Matrix2d<T>, MatrixError>,
    parallel: Result<Matrix2d<T>, MatrixError>,
)
    requires
        call_ensures(Matrix2d::<T>::dot, (&lhs, &rhs), sequential),
        call_ensures(Matrix2d::<T>::dot_par, (&lhs, &rhs), parallel),
    ensures
        match (sequential, parallel) {
            (Ok(s), Ok(p)) => s@ == p@,
            (Err(e), Err(f)) => e == f,
            _ => false,
        },
{
}

/// The sequential and the parallel transposition agree: whatever `transpose`
/// and `transpose_par` return for the same matrix is equal cell by cell.
pub proof fn lemma_transpose_par_agrees<T: Test>(m: Matrix2d<T>, sequential: Matrix2d<T>, parallel: Matrix2d<T>)
    requires
        call_ensures(Matrix2d::<T>::transpose, (&m,), sequential),
        call_ensures(Matrix2d::<T>::transpose_par, (&m,), parallel),
    ensures
        sequential@ == parallel@,
{
}

/// The sequential and the parallel scalar operations agree.
pub proof fn lemma_scalar_par_agrees<T: Test>(
    m: Matrix2d<T>,
    n: T,
    scaled: Matrix2d<T>,
    scaled_par: Matrix2d<T>,
    shifted: Matrix2d<T>,
    shifted_par: Matrix2d<T>,
)
    requires
        call_ensures(Matrix2d::<T>::scale, (&m, n), scaled),
        call_ensures(Matrix2d::<T>::scale_par, (&m, n), scaled_par),
        call_ensures(Matrix2d::<T>::add_scalar, (&m, n), shifted),
        call_ensures(Matrix2d::<T>::add_scalar_par, (&m, n), shifted_par),
    ensures
        scaled@ == scaled_par@,
        shifted@ == shifted_par@,
{
}

/// The sequential and the parallel cell-by-cell sum and product agree: on the
/// same operands both report the same error, or both give the same matrix.
pub proof fn lemma_elementwise_par_agrees<T: Test>(
    lhs: Matrix2d<T>,
    rhs: Matrix2d<T>,
    sum: Result<Matrix2d<T>, MatrixError>,
    sum_par: Result<Matrix2d<T>, MatrixError>,
    product: Result<Matrix2d<T>, MatrixError>,
    product_par: Result<Matrix2d<T>, MatrixError>,
)
    requires
        call_ensures(Matrix2d::<T>::add, (lhs, rhs), sum),
        call_ensures(Matrix2d::<T>::add_par, (lhs, &rhs), sum_par),
        call_ensures(Matrix2d::<T>::mul, (lhs, rhs), product),
        call_ensures(Matrix2d::<T>::mul_par, (lhs, &rhs), product_par),
    ensures
        match (sum, sum_par) {
            (Ok(s), Ok(p)) => s@ == p@,
            (Err(e), Err(f)) => e == f,
            _ => false,
        },
        match (product, product_par) {
            (Ok(s), Ok(p)) => s@ == p@,
            (Err(e), Err(f)) => e == f,
            _ => false,
        },
{
}

/// Transposing twice gives the matrix again.
pub proof fn lemma_transpose_involution<T>(g: Grid<T>)
    requires
        g.wf(),
    ensures
        g.transpose().transpose() == g,
{
    let back = g.transpose().transpose();
    lemma_mul_is_commutative(g.rows as int, g.columns as int);
    assert forall|i: int| 0 <= i < g.cells.len() implies back.cells[i] == g.cells[i] by {
        lemma_transposed_index(g.rows as int, g.columns as int, i);
    }
    assert(back.cells =~= g.cells);
}

/// The sum of two matrices of one shape does not depend on their order,
/// where the sum of the element type does not: `A + B == B + A`.
///
/// The element type promises no commutativity, so the law asks it of each
/// pair of cells that are added.
pub proof fn lemma_plus_commutes<T: Test>(a: Grid<T>, b: Grid<T>)
    requires
        a.wf(),
        b.wf(),
        a.same_shape(b),
        forall|i: int|
            0 <= i < a.cells.len() ==> #[trigger] a.cells[i].add_spec(b.cells[i]) == b.cells[i].add_spec(
                a.cells[i],
            ),
    ensures
        a.plus(b) == b.plus(a),
{
    assert(a.plus(b).cells =~= b.plus(a).cells);
}

/// The cell-by-cell product of two matrices of one shape does not depend on
/// their order, where the product of the element type does not.
pub proof fn lemma_times_commutes<T: Test>(a: Grid<T>, b: Grid<T>)
    requires
        a.wf(),
        b.wf(),
        a.same_shape(b),
        forall|i: int|
            0 <= i < a.cells.len() ==> #[trigger] a.cells[i].mul_spec(b.cells[i]) == b.cells[i].mul_spec(
                a.cells[i],
            ),
    ensures
        a.times(b) == b.times(a),
{
    assert(a.times(b).cells =~= b.times(a).cells);
}

/// One exceeds zero and the smallest finite value, and zero does not exceed
/// one: what the scan for the greatest cell needs of the order of an element
/// type to find the one among zeros.
pub open spec fn one_above_zero<T: Test>() -> bool {
    &&& T::one_spec().gt_spec(T::zero_spec())
    &&& T::one_spec().gt_spec(T::min_value_spec())
    &&& !T::zero_spec().gt_spec(T::one_spec())
}

/// Whether `cells` holds one at position `hot` and zero everywhere else.
pub open spec fn is_one_hot<T: Test>(cells: Seq<T>, hot: int) -> bool {
    &&& 0 <= hot < cells.len()
    &&& forall|i: int|
        0 <= i < cells.len() ==> #[trigger] cells[i] == (if i == hot {
            T::one_spec()
        } else {
            T::zero_spec()
        })
}

/// The scan over a one-hot vector: before the one the best value is zero or
/// the starting value, from the one on the best cell is the one.
proof fn lemma_scan_one_hot<T: Test>(cells: Seq<T>, hot: int, k: nat)
    requires
        one_above_zero::<T>(),
        is_one_hot(cells, hot),
        k <= cells.len(),
    ensures
        k <= hot ==> Grid::<T>::scan_max(cells, k).1 == T::zero_spec() || Grid::<T>::scan_max(cells, k).1
            == T::min_value_spec(),
        k > hot ==> Grid::<T>::scan_max(cells, k) == (hot as nat, T::one_spec()),
    decreases k,
{
    if k > 0 {
        lemma_scan_one_hot(cells, hot, (k - 1) as nat);
    }
}

/// `argmax` on a one-hot vector gives the position of the one.
///
/// This holds for every element type whose order puts one above zero and
/// above the value from which the scan starts.
pub proof fn lemma_argmax_one_hot<T: Test>(g: Grid<T>, hot: int)
    requires
        g.wf(),
        g.is_vector(),
        one_above_zero::<T>(),
        is_one_hot(g.cells, hot),
    ensures
        g.argmax() == hot,
{
    lemma_scan_one_hot(g.cells, hot, g.cells.len());
}

} // verus!
