//! What holds of every assembled stiffness matrix.
use vstd::prelude::*;
use crate::fe_engine::global_stiffness_matrix::{
    cell_terms, is_assembled_from, is_global_stiffness_matrix, is_member_outcome, local_dof,
    member_ends,
};
use crate::fe_engine::utils::node_names;
use crate::input::connection::Connection;
use crate::input::keypoint::Keypoint;
use crate::material_formulation::local_stiffness_matrix_bar::{
    lemma_bar_matrix_is_symmetric, lemma_bar_matrix_is_unique,
};
use crate::scalar::{is_deterministic, lemma_running_sum_unique, sum_is_function, Scalar};

verus! {

/// Where every member's own matrix equals its transpose, the members add to the
/// cell `(c, r)` what they add to the cell `(r, c)`.
proof fn lemma_cell_terms_transposed<T>(
    names: Seq<Seq<char>>,
    conn_list: Seq<Connection>,
    locals: Seq<Seq<Seq<T>>>,
    count: nat,
    r: int,
    c: int,
)
    requires
        count <= conn_list.len(),
        forall|m: int, a: int, b: int|
            0 <= m < count && 0 <= a < 4 && 0 <= b < 4 ==> locals[m][a][b] == locals[m][b][a],
    ensures
        cell_terms(names, conn_list, locals, count, r, c) == cell_terms(
            names,
            conn_list,
            locals,
            count,
            c,
            r,
        ),
    decreases count,
{
    if count > 0 {
        lemma_cell_terms_transposed(names, conn_list, locals, (count - 1) as nat, r, c);
        match member_ends(names, conn_list[count - 1]) {
            Some((near, far)) => match (local_dof(near, far, r), local_dof(near, far, c)) {
                (Some(a), Some(b)) => {
                    assert(locals[count - 1][a][b] == locals[count - 1][b][a]);
                },
                _ => {},
            },
            None => {},
        }
    }
}

/// The global stiffness matrix equals its transpose: the entry in row `r`, column
/// `c` is the entry in row `c`, column `r`, whatever the nodes and members.
pub proof fn lemma_global_stiffness_matrix_is_symmetric<T: Scalar>(
    kp_list: Seq<Keypoint<T>>,
    conn_list: Seq<Connection>,
    e_module: T,
    area: T,
    k: Seq<Seq<T>>,
    r: int,
    c: int,
)
    requires
        sum_is_function::<T>(),
        is_global_stiffness_matrix(kp_list, conn_list, e_module, area, k),
        0 <= r < 2 * kp_list.len(),
        0 <= c < 2 * kp_list.len(),
    ensures
        k[r][c] == k[c][r],
{
    let names = node_names(kp_list);
    let (z, locals) = choose|z: T, locals: Seq<Seq<Seq<T>>>| #[trigger]
        is_assembled_from(kp_list, conn_list, e_module, area, z, locals, k);
    assert forall|m: int, a: int, b: int|
        0 <= m < conn_list.len() && 0 <= a < 4 && 0 <= b < 4 implies locals[m][a][b]
        == locals[m][b][a] by {
        assert(is_member_outcome(kp_list, conn_list[m], e_module, area, Ok(locals[m])));
        let ends = member_ends(names, conn_list[m]).unwrap();
        lemma_bar_matrix_is_symmetric(
            kp_list[ends.0],
            kp_list[ends.1],
            e_module,
            area,
            locals[m],
        );
    }
    lemma_cell_terms_transposed(names, conn_list, locals, conn_list.len(), r, c);
    lemma_running_sum_unique(
        z,
        cell_terms(names, conn_list, locals, conn_list.len(), r, c),
        k[r][c],
        k[c][r],
    );
}

/// Where two runs give every member the same matrix, they add the same entries to
/// every cell.
proof fn lemma_cell_terms_agree<T>(
    names: Seq<Seq<char>>,
    conn_list: Seq<Connection>,
    locals_1: Seq<Seq<Seq<T>>>,
    locals_2: Seq<Seq<Seq<T>>>,
    count: nat,
    r: int,
    c: int,
)
    requires
        forall|m: int| 0 <= m < count ==> locals_1[m] == locals_2[m],
    ensures
        cell_terms(names, conn_list, locals_1, count, r, c) == cell_terms(
            names,
            conn_list,
            locals_2,
            count,
            r,
            c,
        ),
    decreases count,
{
    if count > 0 {
        lemma_cell_terms_agree(names, conn_list, locals_1, locals_2, (count - 1) as nat, r, c);
        assert(locals_1[count - 1] == locals_2[count - 1]);
    }
}

/// Assembly is repeatable: where the operations of `T` are functions, the same
/// nodes, members and material have one global stiffness matrix.
pub proof fn lemma_global_stiffness_matrix_is_unique<T: Scalar>(
    kp_list: Seq<Keypoint<T>>,
    conn_list: Seq<Connection>,
    e_module: T,
    area: T,
    k_1: Seq<Seq<T>>,
    k_2: Seq<Seq<T>>,
)
    requires
        is_deterministic::<T>(),
        is_global_stiffness_matrix(kp_list, conn_list, e_module, area, k_1),
        is_global_stiffness_matrix(kp_list, conn_list, e_module, area, k_2),
    ensures
        k_1 == k_2,
{
    let names = node_names(kp_list);
    let size = 2 * kp_list.len();
    let (z_1, locals_1) = choose|z: T, locals: Seq<Seq<Seq<T>>>| #[trigger]
        is_assembled_from(kp_list, conn_list, e_module, area, z, locals, k_1);
    let (z_2, locals_2) = choose|z: T, locals: Seq<Seq<Seq<T>>>| #[trigger]
        is_assembled_from(kp_list, conn_list, e_module, area, z, locals, k_2);
    assert(z_1 == z_2);
    assert forall|m: int| 0 <= m < conn_list.len() implies locals_1[m] == locals_2[m] by {
        assert(is_member_outcome(kp_list, conn_list[m], e_module, area, Ok(locals_1[m])));
        assert(is_member_outcome(kp_list, conn_list[m], e_module, area, Ok(locals_2[m])));
        let ends = member_ends(names, conn_list[m]).unwrap();
        lemma_bar_matrix_is_unique(
            kp_list[ends.0],
            kp_list[ends.1],
            e_module,
            area,
            locals_1[m],
            locals_2[m],
        );
    }
    assert forall|r: int| 0 <= r < size implies k_1[r] =~= k_2[r] by {
        assert(k_1[r].len() == size && k_2[r].len() == size);
        assert forall|c: int| 0 <= c < size implies k_1[r][c] == k_2[r][c] by {
            lemma_cell_terms_agree(names, conn_list, locals_1, locals_2, conn_list.len(), r, c);
            lemma_running_sum_unique(
                z_1,
                cell_terms(names, conn_list, locals_1, conn_list.len(), r, c),
                k_1[r][c],
                k_2[r][c],
            );
        }
    }
    assert(k_1 =~= k_2);
}

} // verus!
