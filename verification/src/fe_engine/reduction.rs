//! Leaving the fixed degrees of freedom out of a system, and putting them back.
use vstd::prelude::*;
use crate::error::TrussError;
use crate::fe_engine::dof_filter_vector::DofConstraint;
use crate::matrix::{is_square, Matrix};
use crate::scalar::{finite_answers, is_zero, Scalar};

verus! {

/// The degrees of freedom that are solved for, in ascending order: all but the
/// fixed ones. Position `m` holds the degree of freedom that equation `m` of the
/// reduced system stands for.
pub open spec fn retained_dofs<T>(filter: Seq<DofConstraint<T>>) -> Seq<int>
    decreases filter.len(),
{
    if filter.len() == 0 {
        Seq::empty()
    } else if filter.last() is Fixed {
        retained_dofs(filter.drop_last())
    } else {
        retained_dofs(filter.drop_last()).push(filter.len() - 1)
    }
}

/// `retained_dofs` lists exactly the degrees of freedom that are not fixed, each
/// once and in ascending order, so that it is a one-to-one, order-preserving
/// correspondence between them and the equations of the reduced system.
pub proof fn lemma_retained_dofs<T>(filter: Seq<DofConstraint<T>>)
    ensures
        retained_dofs(filter).len() <= filter.len(),
        forall|m: int|
            0 <= m < retained_dofs(filter).len() ==> 0 <= #[trigger] retained_dofs(filter)[m]
                < filter.len() && !(filter[retained_dofs(filter)[m]] is Fixed),
        forall|m: int, n: int|
            0 <= m < n < retained_dofs(filter).len() ==> retained_dofs(filter)[m] < retained_dofs(
                filter,
            )[n],
        forall|dof: int|
            0 <= dof < filter.len() && !(#[trigger] filter[dof] is Fixed) ==> retained_dofs(
                filter,
            ).contains(dof),
    decreases filter.len(),
{
    if filter.len() > 0 {
        let front = filter.drop_last();
        let last = filter.len() - 1;
        lemma_retained_dofs(front);
        let kept = retained_dofs(filter);
        assert forall|dof: int| 0 <= dof < filter.len() && !(#[trigger] filter[dof] is Fixed)
            implies kept.contains(dof) by {
            if dof < last {
                assert(front[dof] == filter[dof]);
                let m = choose|m: int|
                    0 <= m < retained_dofs(front).len() && retained_dofs(front)[m] == dof;
                assert(kept[m] == dof);
            } else {
                assert(kept[kept.len() - 1] == dof);
            }
        }
        assert forall|m: int| 0 <= m < kept.len() implies 0 <= #[trigger] kept[m] < filter.len()
            && !(filter[kept[m]] is Fixed) by {
        }
    }
}

/// `reduced_k` and `reduced_f` are `k` and `force` without the rows and columns of
/// the fixed degrees of freedom, the others in their order.
pub open spec fn is_reduced_system<T>(
    k: Seq<Seq<T>>,
    force: Seq<T>,
    filter: Seq<DofConstraint<T>>,
    reduced_k: Seq<Seq<T>>,
    reduced_f: Seq<T>,
) -> bool {
    let kept = retained_dofs(filter);
    &&& is_square(reduced_k, kept.len())
    &&& reduced_f.len() == kept.len()
    &&& forall|m: int, n: int|
        0 <= m < kept.len() && 0 <= n < kept.len() ==> #[trigger] reduced_k[m][n]
            == k[kept[m]][kept[n]]
    &&& forall|m: int| 0 <= m < kept.len() ==> #[trigger] reduced_f[m] == force[kept[m]]
}

/// The degrees of freedom that are not fixed, ascending.
fn collect_retained<T>(filter: &[DofConstraint<T>]) -> (kept: Vec<usize>)
    ensures
        kept@.len() == retained_dofs(filter@).len(),
        forall|m: int| 0 <= m < kept@.len() ==> #[trigger] kept@[m] == retained_dofs(filter@)[m],
{
    let mut kept: Vec<usize> = Vec::new();
    let mut d: usize = 0;
    while d < filter.len()
        invariant
            d <= filter@.len(),
            kept@.len() == retained_dofs(filter@.take(d as int)).len(),
            forall|m: int|
                0 <= m < kept@.len() ==> #[trigger] kept@[m] == retained_dofs(
                    filter@.take(d as int),
                )[m],
        decreases filter@.len() - d,
    {
        proof {
            let next = filter@.take(d + 1);
            assert(next.drop_last() == filter@.take(d as int));
        }
        match filter[d] {
            DofConstraint::Fixed => {},
            _ => {
                kept.push(d);
            },
        }
        d += 1;
    }
    assert(filter@.take(d as int) == filter@);
    kept
}

/// Removes the fixed degrees of freedom from the system `k * u = force`: the
/// reduced matrix and right-hand side hold the entries of the others, in order.
pub fn reduce_system<T: Copy>(
    k: &Matrix<T>,
    force: &Vec<T>,
    filter: &[DofConstraint<T>],
) -> (reduced: (Matrix<T>, Vec<T>))
    requires
        k@.len() == filter@.len(),
        force@.len() == filter@.len(),
    ensures
        is_reduced_system(k@, force@, filter@, reduced.0@, reduced.1@),
{
    let kept = collect_retained(filter);
    let size = k.size();
    proof {
        lemma_retained_dofs(filter@);
    }
    let count = kept.len();
    let mut rows: Vec<Vec<T>> = Vec::new();
    let mut reduced_f: Vec<T> = Vec::new();
    let mut m: usize = 0;
    while m < count
        invariant
            m <= count,
            count == kept@.len(),
            count == retained_dofs(filter@).len(),
            size == filter@.len(),
            is_square(k@, size as nat),
            force@.len() == size,
            forall|i: int| 0 <= i < count ==> #[trigger] kept@[i] == retained_dofs(filter@)[i],
            forall|i: int| 0 <= i < count ==> 0 <= #[trigger] retained_dofs(filter@)[i] < size,
            rows@.len() == m,
            reduced_f@.len() == m,
            forall|i: int| 0 <= i < m ==> (#[trigger] rows@[i])@.len() == count,
            forall|i: int, j: int|
                0 <= i < m && 0 <= j < count ==> #[trigger] rows@[i]@[j]
                    == k@[kept@[i] as int][kept@[j] as int],
            forall|i: int| 0 <= i < m ==> #[trigger] reduced_f@[i] == force@[kept@[i] as int],
        decreases count - m,
    {
        let row_dof = kept[m];
        let mut row: Vec<T> = Vec::new();
        let mut n: usize = 0;
        while n < count
            invariant
                n <= count,
                count == kept@.len(),
                size == k@.len(),
                is_square(k@, size as nat),
                row_dof < size,
                forall|i: int| 0 <= i < count ==> 0 <= #[trigger] kept@[i] < size,
                row@.len() == n,
                forall|j: int|
                    0 <= j < n ==> #[trigger] row@[j] == k@[row_dof as int][kept@[j] as int],
            decreases count - n,
        {
            row.push(k.get(row_dof, kept[n]));
            n += 1;
        }
        rows.push(row);
        reduced_f.push(force[row_dof]);
        m += 1;
    }
    (Matrix::of_square_rows(rows), reduced_f)
}

/// `full` holds the solved values at the degrees of freedom that were solved for,
/// and a zero at each fixed one.
pub open spec fn is_expanded<T: Scalar>(
    solution: Seq<T>,
    filter: Seq<DofConstraint<T>>,
    full: Seq<T>,
) -> bool {
    let kept = retained_dofs(filter);
    &&& solution.len() == kept.len()
    &&& full.len() == filter.len()
    &&& forall|m: int| 0 <= m < kept.len() ==> #[trigger] full[kept[m]] == solution[m]
    &&& forall|dof: int|
        0 <= dof < filter.len() && #[trigger] filter[dof] is Fixed ==> is_zero(full[dof])
}

/// `solution` is no answer to the reduced system: the solver gave none, or one of
/// the wrong length, or one with an entry that was found not to be finite.
pub open spec fn is_unusable_solution<T: Scalar>(
    solution: Option<Vec<T>>,
    filter: Seq<DofConstraint<T>>,
) -> bool {
    match solution {
        None => true,
        Some(s) => s@.len() != retained_dofs(filter).len() || exists|m: int|
            0 <= m < s@.len() && finite_answers(#[trigger] s@[m], false),
    }
}

/// `result` is what becomes of the solver's answer `solution`: the full
/// displacement vector where the answer is usable, `SingularSystem` where not.
pub open spec fn is_expansion_outcome<T: Scalar>(
    solution: Option<Vec<T>>,
    filter: Seq<DofConstraint<T>>,
    result: Result<Vec<T>, TrussError>,
) -> bool {
    match result {
        Ok(full) => {
            &&& solution matches Some(s)
            &&& is_expanded(s@, filter, full@)
            &&& forall|m: int| 0 <= m < s@.len() ==> finite_answers(#[trigger] s@[m], true)
        },
        Err(e) => e is SingularSystem && is_unusable_solution(solution, filter),
    }
}

/// Turns the solver's answer to the reduced system into the displacement of every
/// degree of freedom: the solved value where one was solved for, zero where the
/// degree of freedom is fixed.
///
/// Fails with `SingularSystem` where the solver gave no answer, or one that does
/// not have one entry per equation, or one with an entry that is not finite.
pub fn expand_displacement_vector<T: Scalar>(
    solution: Option<Vec<T>>,
    filter: &[DofConstraint<T>],
) -> (result: Result<Vec<T>, TrussError>)
    ensures
        is_expansion_outcome(solution, filter@, result),
{
    let s = match solution {
        None => {
            return Err(TrussError::SingularSystem);
        },
        Some(s) => s,
    };
    let kept = collect_retained(filter);
    if s.len() != kept.len() {
        return Err(TrussError::SingularSystem);
    }
    let mut m: usize = 0;
    while m < s.len()
        invariant
            m <= s@.len(),
            solution == Some(s),
            forall|i: int| 0 <= i < m ==> finite_answers(#[trigger] s@[i], true),
        decreases s@.len() - m,
    {
        let finite = s[m].is_finite();
        if !finite {
            return Err(TrussError::SingularSystem);
        }
        m += 1;
    }
    let z = T::zero();
    let count = s.len();
    let ghost all = retained_dofs(filter@);
    let mut full: Vec<T> = Vec::new();
    let mut next: usize = 0;
    let mut d: usize = 0;
    while d < filter.len()
        invariant
            d <= filter@.len(),
            is_zero(z),
            all == retained_dofs(filter@),
            count == all.len(),
            count == s@.len(),
            next == retained_dofs(filter@.take(d as int)).len(),
            next <= count,
            full@.len() == d,
            forall|i: int| 0 <= i < next ==> 0 <= #[trigger] all[i] < d && full@[all[i]] == s@[i],
            forall|dof: int|
                0 <= dof < d && #[trigger] filter@[dof] is Fixed ==> is_zero(full@[dof]),
        decreases filter@.len() - d,
    {
        proof {
            let longer = filter@.take(d + 1);
            assert(longer.drop_last() == filter@.take(d as int));
            lemma_retained_prefix(filter@, d + 1);
            if !(filter@[d as int] is Fixed) {
                assert(retained_dofs(longer)[next as int] == d);
            }
        }
        match filter[d] {
            DofConstraint::Fixed => {
                full.push(z);
            },
            _ => {
                full.push(s[next]);
                next += 1;
            },
        }
        d += 1;
    }
    assert(filter@.take(d as int) == filter@);
    Ok(full)
}

/// The degrees of freedom retained among the first `count` are the first of
/// those retained in all.
pub proof fn lemma_retained_prefix<T>(filter: Seq<DofConstraint<T>>, count: int)
    requires
        0 <= count <= filter.len(),
    ensures
        retained_dofs(filter.take(count)).len() <= retained_dofs(filter).len(),
        forall|m: int|
            0 <= m < retained_dofs(filter.take(count)).len() ==> #[trigger] retained_dofs(
                filter.take(count),
            )[m] == retained_dofs(filter)[m],
    decreases filter.len() - count,
{
    if count < filter.len() {
        lemma_retained_prefix(filter, count + 1);
        let shorter = retained_dofs(filter.take(count));
        let longer = retained_dofs(filter.take(count + 1));
        assert(filter.take(count + 1).drop_last() == filter.take(count));
        assert forall|m: int| 0 <= m < shorter.len() implies #[trigger] shorter[m]
            == retained_dofs(filter)[m] by {
            assert(shorter[m] == longer[m]);
        }
    } else {
        assert(filter.take(count) == filter);
    }
}

} // verus!
