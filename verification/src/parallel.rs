use rayon::iter::{IndexedParallelIterator, IntoParallelRefMutIterator, ParallelIterator};
use vstd::prelude::*;

verus! {

/// Overwrites every cell with what `f` gives for its position, the cells
/// shared out among the worker threads of rayon's global pool.
///
/// Calls rayon's `par_iter_mut().enumerate().for_each(..)` on the vector.
/// The contract claims of it what rayon documents: `enumerate` pairs every
/// item with its index, `for_each` runs the closure once on every pair and
/// returns when all are done; so afterwards the vector has its old length and
/// cell `i` holds a value that `f` returned for `i`.  Nothing is claimed of
/// which thread computes which cell, nor of the order in which they do.
/// The call fails only where rayon cannot start its thread pool.
#[verifier::external_body]
pub(crate) fn par_fill<T: Send, F: Fn(usize) -> T + Send + Sync>(cells: &mut Vec<T>, f: F)
    requires
        forall|i: usize| i < old(cells)@.len() ==> call_requires(f, (i,)),
    ensures
        final(cells)@.len() == old(cells)@.len(),
        forall|i: usize|
            i < old(cells)@.len() ==> call_ensures(f, (i,), #[trigger] final(cells)@[i as int]),
{
    cells.par_iter_mut().enumerate().for_each(|(i, cell)| *cell = f(i));
}

} // verus!
