//! Writing the solved forces and displacements onto the nodes.
use vstd::prelude::*;
use crate::fe_engine::utils::{
    dof_map, first_dof, global_stiffness_matrix_keypoint_hashmap, lemma_node_position_in_range,
    node_names, node_position,
};
use crate::input::keypoint::Keypoint;

verus! {

/// The first degree of freedom of the node in position `i`, as the map from names
/// has it: twice `i`, unless a later node bears the same name.
pub open spec fn first_dof_of_node(names: Seq<Seq<char>>, i: int) -> int {
    2 * node_position(names, names[i]).unwrap()
}

/// `after` is `before` with the force and displacement of its degrees of freedom
/// written onto it, and name and place untouched.
pub open spec fn is_merged<T>(
    before: Keypoint<T>,
    base: int,
    force: Seq<T>,
    displacement: Seq<T>,
    after: Keypoint<T>,
) -> bool {
    &&& after.name == before.name
    &&& after.x == before.x
    &&& after.y == before.y
    &&& after.fx == force[base]
    &&& after.fy == force[base + 1]
    &&& after.ux == displacement[base]
    &&& after.uy == displacement[base + 1]
}

/// Writes onto every node the force on it and its displacement, read from the two
/// vectors at the node's degrees of freedom. Nothing else changes.
pub fn generate_result_keypoint<T: Copy>(
    kp_list: &mut [Keypoint<T>],
    force_vector: &Vec<T>,
    displacement_vector: &Vec<T>,
)
    requires
        2 * old(kp_list)@.len() <= usize::MAX,
        force_vector@.len() == 2 * old(kp_list)@.len(),
        displacement_vector@.len() == 2 * old(kp_list)@.len(),
    ensures
        final(kp_list)@.len() == old(kp_list)@.len(),
        forall|i: int|
            0 <= i < old(kp_list)@.len() ==> is_merged(
                old(kp_list)@[i],
                first_dof_of_node(node_names(old(kp_list)@), i),
                force_vector@,
                displacement_vector@,
                #[trigger] final(kp_list)@[i],
            ),
{
    let kp_map = global_stiffness_matrix_keypoint_hashmap(kp_list);
    let ghost names = node_names(kp_list@);
    let count = kp_list.len();
    let mut i: usize = 0;
    while i < count
        invariant
            i <= count,
            count == old(kp_list)@.len(),
            kp_list@.len() == count,
            2 * count <= usize::MAX,
            force_vector@.len() == 2 * count,
            displacement_vector@.len() == 2 * count,
            names == node_names(old(kp_list)@),
            kp_map@ == dof_map(names),
            forall|j: int| i <= j < count ==> #[trigger] kp_list@[j] == old(kp_list)@[j],
            forall|j: int|
                0 <= j < i ==> is_merged(
                    old(kp_list)@[j],
                    first_dof_of_node(names, j),
                    force_vector@,
                    displacement_vector@,
                    #[trigger] kp_list@[j],
                ),
        decreases count - i,
    {
        proof {
            lemma_node_position_in_range(names, names[i as int]);
        }
        let base = first_dof(&kp_map, &kp_list[i].name, Ghost(names));
        if let Some(base) = base {
            kp_list[i].fx = force_vector[base];
            kp_list[i].fy = force_vector[base + 1];
            kp_list[i].ux = displacement_vector[base];
            kp_list[i].uy = displacement_vector[base + 1];
        }
        i += 1;
    }
}

} // verus!
