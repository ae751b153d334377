//! Degrees of freedom by node name.
use vstd::prelude::*;
use vstd::hash_map::StringHashMap;
use crate::input::keypoint::Keypoint;

verus! {

/// The names of the nodes, in their order.
pub open spec fn node_names<T>(kp_list: Seq<Keypoint<T>>) -> Seq<Seq<char>> {
    Seq::new(kp_list.len(), |i: int| kp_list[i].name@)
}

/// The position, in the node list, of the node called `name`: of the last one,
/// should several bear that name. `None` where no node does.
pub open spec fn node_position(names: Seq<Seq<char>>, name: Seq<char>) -> Option<int>
    decreases names.len(),
{
    if names.len() == 0 {
        None
    } else if names.last() == name {
        Some(names.len() - 1)
    } else {
        node_position(names.drop_last(), name)
    }
}

/// The first degree of freedom of each named node: twice its position. A node's
/// displacement along x has that index, its displacement along y the next one.
pub open spec fn dof_map(names: Seq<Seq<char>>) -> Map<Seq<char>, usize> {
    Map::new(
        |name: Seq<char>| node_position(names, name) is Some,
        |name: Seq<char>| (2 * node_position(names, name).unwrap()) as usize,
    )
}

/// A position that `node_position` gives lies in the list and bears the name.
pub proof fn lemma_node_position_in_range(names: Seq<Seq<char>>, name: Seq<char>)
    ensures
        node_position(names, name) matches Some(p) ==> 0 <= p < names.len() && names[p] == name,
        node_position(names, name) is None ==> forall|i: int|
            0 <= i < names.len() ==> names[i] != name,
    decreases names.len(),
{
    if names.len() > 0 && names.last() != name {
        lemma_node_position_in_range(names.drop_last(), name);
        if node_position(names, name) is None {
            assert forall|i: int| 0 <= i < names.len() implies names[i] != name by {
                if i < names.len() - 1 {
                    assert(names.drop_last()[i] == names[i]);
                }
            }
        }
    }
}

/// Where no two nodes share a name, each node's first degree of freedom is twice
/// its own position.
pub proof fn lemma_distinct_names_map_to_own_position(names: Seq<Seq<char>>, i: int)
    requires
        0 <= i < names.len(),
        2 * names.len() <= usize::MAX,
        forall|a: int, b: int| 0 <= a < b < names.len() ==> names[a] != names[b],
    ensures
        node_position(names, names[i]) == Some(i),
        dof_map(names).contains_key(names[i]),
        dof_map(names)[names[i]] == 2 * i,
{
    lemma_node_position_in_range(names, names[i]);
}

/// Every one of `refs` names a node.
pub open spec fn all_known(names: Seq<Seq<char>>, refs: Seq<Seq<char>>) -> bool {
    forall|i: int| 0 <= i < refs.len() ==> node_position(names, #[trigger] refs[i]) is Some
}

/// `i` is the first of `refs` that names no node.
pub open spec fn is_first_unknown(names: Seq<Seq<char>>, refs: Seq<Seq<char>>, i: int) -> bool {
    &&& 0 <= i < refs.len()
    &&& node_position(names, refs[i]) is None
    &&& forall|j: int| 0 <= j < i ==> node_position(names, #[trigger] refs[j]) is Some
}

/// Looks up the first degree of freedom of the node called `name`.
pub(crate) fn first_dof(
    kp_map: &StringHashMap<usize>,
    name: &String,
    Ghost(names): Ghost<Seq<Seq<char>>>,
) -> (base: Option<usize>)
    requires
        kp_map@ == dof_map(names),
        2 * names.len() <= usize::MAX,
    ensures
        match base {
            Some(b) => node_position(names, name@) == Some(b as int / 2) && b % 2 == 0 && b + 1 < 2
                * names.len(),
            None => node_position(names, name@) is None,
        },
{
    proof {
        lemma_node_position_in_range(names, name@);
    }
    match kp_map.get(name.as_str()) {
        Some(b) => Some(*b),
        None => None,
    }
}

/// Builds the map from node name to first degree of freedom.
pub fn global_stiffness_matrix_keypoint_hashmap<T>(kp_list: &[Keypoint<T>]) -> (kp_map:
    StringHashMap<usize>)
    requires
        2 * kp_list@.len() <= usize::MAX,
    ensures
        kp_map@ == dof_map(node_names(kp_list@)),
{
    let mut kp_map: StringHashMap<usize> = StringHashMap::new();
    let mut i: usize = 0;
    let ghost names = node_names(kp_list@);
    while i < kp_list.len()
        invariant
            i <= kp_list@.len(),
            2 * kp_list@.len() <= usize::MAX,
            names == node_names(kp_list@),
            kp_map@ == dof_map(names.take(i as int)),
        decreases kp_list@.len() - i,
    {
        proof {
            let next = names.take(i + 1);
            assert(next.drop_last() == names.take(i as int));
        }
        kp_map.insert(kp_list[i].name.clone(), 2 * i);
        i += 1;
    }
    assert(names.take(i as int) == names);
    kp_map
}

} // verus!
