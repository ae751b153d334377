//! The identity of the global system's size.
use vstd::prelude::*;
use crate::input::keypoint::Keypoint;
use crate::matrix::{is_square, Matrix};
use crate::scalar::{is_one, is_zero, Scalar};

verus! {

/// `m` is the `n` by `n` identity: `unit` on the diagonal, `z` elsewhere.
pub open spec fn is_unit_matrix<T>(m: Seq<Seq<T>>, n: nat, z: T, unit: T) -> bool {
    &&& is_square(m, n)
    &&& forall|r: int, c: int|
        0 <= r < n && 0 <= c < n ==> #[trigger] m[r][c] == if r == c {
            unit
        } else {
            z
        }
}

/// The identity matrix with two rows per node.
pub fn create_global_unit_matrix<T: Scalar>(kp_list: &[Keypoint<T>]) -> (m: Matrix<T>)
    requires
        2 * kp_list@.len() <= usize::MAX,
    ensures
        exists|z: T, unit: T|
            #![trigger is_unit_matrix(m@, 2 * kp_list@.len(), z, unit)]
            is_zero(z) && is_one(unit) && is_unit_matrix(m@, 2 * kp_list@.len(), z, unit),
{
    let size: usize = 2 * kp_list.len();
    let z = T::zero();
    let unit = T::one();
    let mut m = Matrix::filled(size, z);
    let mut i: usize = 0;
    while i < size
        invariant
            i <= size,
            is_square(m@, size as nat),
            forall|r: int, c: int|
                0 <= r < size && 0 <= c < size ==> #[trigger] m@[r][c] == if r == c && r < i {
                    unit
                } else {
                    z
                },
        decreases size - i,
    {
        m.set(i, i, unit);
        i += 1;
    }
    assert(is_unit_matrix(m@, size as nat, z, unit));
    m
}

} // verus!
