//! What the supports do to each degree of freedom.
use vstd::prelude::*;
use crate::error::{is_unknown_reference, TrussError};
use crate::fe_engine::utils::{
    all_known, dof_map, first_dof, global_stiffness_matrix_keypoint_hashmap, is_first_unknown,
    node_names, node_position,
};
use crate::input::boundary_condition::{BoundaryCondition, Fixture, SupportMode};
use crate::input::keypoint::Keypoint;

verus! {

/// The state of one degree of freedom.
#[derive(Debug)]
pub enum DofConstraint<T> {
    /// Nothing holds it.
    Free,
    /// Its displacement is zero.
    Fixed,
    /// A spring of this stiffness holds it.
    Spring(T),
}

/// The node names that the supports refer to, in the supports' order.
pub open spec fn support_refs<T>(bc_list: Seq<BoundaryCondition<T>>) -> Seq<Seq<char>> {
    Seq::new(bc_list.len(), |i: int| bc_list[i].keypoint@)
}

/// The state that a support of this mode puts a degree of freedom in.
pub open spec fn constraint_of<T>(mode: SupportMode<T>) -> DofConstraint<T> {
    match mode {
        SupportMode::Fixed => DofConstraint::Fixed,
        SupportMode::Spring(k) => DofConstraint::Spring(k),
    }
}

/// Whether a support with this fixture, at the node in position `p`, acts on the
/// degree of freedom `dof`.
pub open spec fn acts_on(fixture: Fixture, p: int, dof: int) -> bool {
    match fixture {
        Fixture::X => dof == 2 * p,
        Fixture::Y => dof == 2 * p + 1,
        Fixture::Both => dof == 2 * p || dof == 2 * p + 1,
    }
}

/// The state of `dof` once the first `count` supports have been applied, each
/// overriding those before it.
pub open spec fn constraint_after<T>(
    names: Seq<Seq<char>>,
    bc_list: Seq<BoundaryCondition<T>>,
    count: nat,
    dof: int,
) -> DofConstraint<T>
    decreases count,
{
    if count == 0 {
        DofConstraint::Free
    } else {
        let bc = bc_list[count - 1];
        match node_position(names, bc.keypoint@) {
            Some(p) if acts_on(bc.fixture, p, dof) => constraint_of(bc.mode),
            _ => constraint_after(names, bc_list, (count - 1) as nat, dof),
        }
    }
}

/// The state that a support of this mode puts a degree of freedom in.
fn constraint_for<T: Copy>(mode: &SupportMode<T>) -> (state: DofConstraint<T>)
    ensures
        state == constraint_of(*mode),
{
    match mode {
        SupportMode::Fixed => DofConstraint::Fixed,
        SupportMode::Spring(k) => DofConstraint::Spring(*k),
    }
}

/// One state per degree of freedom, two per node in node order: `Free` unless a
/// support acts on it, else what the last such support says.
///
/// Fails with `UnknownNodeReference`, naming the first support whose node is not
/// in `kp_list`.
pub fn create_dof_filter_vector<T: Copy>(
    kp_list: &[Keypoint<T>],
    bc_list: &[BoundaryCondition<T>],
) -> (result: Result<Vec<DofConstraint<T>>, TrussError>)
    requires
        2 * kp_list@.len() <= usize::MAX,
    ensures
        match result {
            Ok(filter) => {
                &&& all_known(node_names(kp_list@), support_refs(bc_list@))
                &&& filter@.len() == 2 * kp_list@.len()
                &&& forall|dof: int|
                    0 <= dof < filter@.len() ==> #[trigger] filter@[dof] == constraint_after(
                        node_names(kp_list@),
                        bc_list@,
                        bc_list@.len(),
                        dof,
                    )
            },
            Err(e) => exists|i: int|
                is_first_unknown(node_names(kp_list@), support_refs(bc_list@), i)
                    && is_unknown_reference(e, #[trigger] bc_list@[i].name@),
        },
{
    let ghost names = node_names(kp_list@);
    let ghost refs = support_refs(bc_list@);
    let kp_map = global_stiffness_matrix_keypoint_hashmap(kp_list);
    let size: usize = 2 * kp_list.len();
    let mut filter: Vec<DofConstraint<T>> = Vec::new();
    let mut d: usize = 0;
    while d < size
        invariant
            d <= size,
            filter@.len() == d,
            forall|dof: int| 0 <= dof < d ==> #[trigger] filter@[dof] == DofConstraint::<T>::Free,
        decreases size - d,
    {
        filter.push(DofConstraint::Free);
        d += 1;
    }
    let mut i: usize = 0;
    while i < bc_list.len()
        invariant
            i <= bc_list@.len(),
            size == 2 * kp_list@.len(),
            names == node_names(kp_list@),
            refs == support_refs(bc_list@),
            kp_map@ == dof_map(names),
            filter@.len() == size,
            forall|j: int| 0 <= j < i ==> node_position(names, #[trigger] refs[j]) is Some,
            forall|dof: int|
                0 <= dof < size ==> #[trigger] filter@[dof] == constraint_after(
                    names,
                    bc_list@,
                    i as nat,
                    dof,
                ),
        decreases bc_list@.len() - i,
    {
        let bc = &bc_list[i];
        match first_dof(&kp_map, &bc.keypoint, Ghost(names)) {
            None => {
                let e = TrussError::UnknownNodeReference(bc.name.clone());
                assert(is_unknown_reference(e, bc_list@[i as int].name@));
                return Err(e);
            },
            Some(base) => {
                match bc.fixture {
                    Fixture::X => {
                        filter.set(base, constraint_for(&bc.mode));
                    },
                    Fixture::Y => {
                        filter.set(base + 1, constraint_for(&bc.mode));
                    },
                    Fixture::Both => {
                        filter.set(base, constraint_for(&bc.mode));
                        filter.set(base + 1, constraint_for(&bc.mode));
                    },
                }
            },
        }
        i += 1;
    }
    Ok(filter)
}

} // verus!
