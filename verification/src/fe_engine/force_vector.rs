//! The applied loads, per degree of freedom.
use vstd::prelude::*;
use crate::error::{is_unknown_reference, TrussError};
use crate::fe_engine::utils::{
    all_known, dof_map, first_dof, global_stiffness_matrix_keypoint_hashmap, is_first_unknown,
    node_names, node_position,
};
use crate::input::keypoint::Keypoint;
use crate::input::pointload::Pointload;
use crate::scalar::{is_running_sum, is_zero, lemma_running_sum_push, Scalar};

verus! {

/// The node names that the loads refer to, in the loads' order.
pub open spec fn load_refs<T>(pl_list: Seq<Pointload<T>>) -> Seq<Seq<char>> {
    Seq::new(pl_list.len(), |i: int| pl_list[i].keypoint@)
}

/// The force components that the first `count` loads apply to `dof`, in the
/// loads' order.
pub open spec fn load_terms<T>(
    names: Seq<Seq<char>>,
    pl_list: Seq<Pointload<T>>,
    count: nat,
    dof: int,
) -> Seq<T>
    decreases count,
{
    if count == 0 {
        Seq::empty()
    } else {
        let before = load_terms(names, pl_list, (count - 1) as nat, dof);
        let pl = pl_list[count - 1];
        match node_position(names, pl.keypoint@) {
            Some(p) if dof == 2 * p => before.push(pl.load_x),
            Some(p) if dof == 2 * p + 1 => before.push(pl.load_y),
            _ => before,
        }
    }
}

/// `force` holds, for each degree of freedom, the running sum from `z` of the
/// load components applied to it.
pub open spec fn is_load_vector<T: Scalar>(
    names: Seq<Seq<char>>,
    pl_list: Seq<Pointload<T>>,
    z: T,
    force: Seq<T>,
) -> bool {
    &&& force.len() == 2 * names.len()
    &&& forall|dof: int|
        0 <= dof < force.len() ==> is_running_sum(
            z,
            load_terms(names, pl_list, pl_list.len(), dof),
            #[trigger] force[dof],
        )
}

/// The force applied to every degree of freedom, two per node in node order: the
/// loads on its node added up in their order, starting from zero.
///
/// Fails with `UnknownNodeReference`, naming the first load whose node is not in
/// `kp_list`.
pub fn create_force_vector<T: Scalar>(kp_list: &[Keypoint<T>], pl_list: &[Pointload<T>]) -> (result:
    Result<Vec<T>, TrussError>)
    requires
        2 * kp_list@.len() <= usize::MAX,
    ensures
        result matches Ok(force) ==> {
            &&& all_known(node_names(kp_list@), load_refs(pl_list@))
            &&& exists|z: T|
                #![trigger is_load_vector(node_names(kp_list@), pl_list@, z, force@)]
                is_zero(z) && is_load_vector(node_names(kp_list@), pl_list@, z, force@)
        },
        result matches Err(e) ==> exists|i: int|
            is_first_unknown(node_names(kp_list@), load_refs(pl_list@), i) && is_unknown_reference(
                e,
                #[trigger] pl_list@[i].name@,
            ),
{
    let ghost names = node_names(kp_list@);
    let ghost refs = load_refs(pl_list@);
    let kp_map = global_stiffness_matrix_keypoint_hashmap(kp_list);
    let size: usize = 2 * kp_list.len();
    let z = T::zero();
    let mut force: Vec<T> = Vec::new();
    let mut d: usize = 0;
    while d < size
        invariant
            d <= size,
            force@.len() == d,
            forall|dof: int| 0 <= dof < d ==> #[trigger] force@[dof] == z,
        decreases size - d,
    {
        force.push(z);
        d += 1;
    }
    let mut i: usize = 0;
    while i < pl_list.len()
        invariant
            i <= pl_list@.len(),
            is_zero(z),
            size == 2 * kp_list@.len(),
            names == node_names(kp_list@),
            refs == load_refs(pl_list@),
            kp_map@ == dof_map(names),
            force@.len() == size,
            forall|j: int| 0 <= j < i ==> node_position(names, #[trigger] refs[j]) is Some,
            forall|dof: int|
                0 <= dof < size ==> is_running_sum(
                    z,
                    load_terms(names, pl_list@, i as nat, dof),
                    #[trigger] force@[dof],
                ),
        decreases pl_list@.len() - i,
    {
        let pl = &pl_list[i];
        match first_dof(&kp_map, &pl.keypoint, Ghost(names)) {
            None => {
                let e = TrussError::UnknownNodeReference(pl.name.clone());
                assert(is_unknown_reference(e, pl_list@[i as int].name@));
                return Err(e);
            },
            Some(base) => {
                let ghost before = force@;
                let sum_x = force[base].plus(pl.load_x);
                let sum_y = force[base + 1].plus(pl.load_y);
                force.set(base, sum_x);
                force.set(base + 1, sum_y);
                proof {
                    lemma_running_sum_push(
                        z,
                        load_terms(names, pl_list@, i as nat, base as int),
                        before[base as int],
                        pl.load_x,
                        sum_x,
                    );
                    lemma_running_sum_push(
                        z,
                        load_terms(names, pl_list@, i as nat, base + 1),
                        before[base + 1],
                        pl.load_y,
                        sum_y,
                    );
                }
            },
        }
        i += 1;
    }
    let result: Result<Vec<T>, TrussError> = Ok(force);
    assert(result matches Ok(f) && is_load_vector(node_names(kp_list@), pl_list@, z, f@));
    result
}

} // verus!
