//! The global system: assembling it, applying the supports, solving it, and
//! recovering the forces.
use vstd::prelude::*;
use crate::error::{is_degenerate_geometry, is_unknown_reference, TrussError};
use crate::fe_engine::dof_filter_vector::DofConstraint;
use crate::fe_engine::utils::{
    dof_map, first_dof, global_stiffness_matrix_keypoint_hashmap, node_names, node_position,
};
use crate::input::connection::Connection;
use crate::input::keypoint::Keypoint;
use crate::material_formulation::local_stiffness_matrix_bar::{
    is_degenerate_bar, is_local_bar_matrix, local_bar_matrix,
};
use crate::fe_engine::reduction::{
    expand_displacement_vector, is_expansion_outcome, is_reduced_system, reduce_system,
    retained_dofs,
};
use crate::matrix::{is_square, Matrix};
use crate::scalar::{is_product, is_running_sum, is_sum, is_zero, lemma_running_sum_push, Scalar};

verus! {

/// The positions, in the node list, of the two ends of `conn`; `None` where either
/// end names no node.
pub open spec fn member_ends(names: Seq<Seq<char>>, conn: Connection) -> Option<(int, int)> {
    match (node_position(names, conn.kp_1@), node_position(names, conn.kp_2@)) {
        (Some(near), Some(far)) => Some((near, far)),
        _ => None,
    }
}

/// The row, or column, of a member's own matrix that belongs to the degree of
/// freedom `dof`, for a member from the node in position `near` to the one in
/// position `far`: 0 and 1 for the first end's x and y, 2 and 3 for the second
/// end's. `None` where the member does not touch `dof`.
pub open spec fn local_dof(near: int, far: int, dof: int) -> Option<int> {
    if dof == 2 * near {
        Some(0)
    } else if dof == 2 * near + 1 {
        Some(1)
    } else if dof == 2 * far {
        Some(2)
    } else if dof == 2 * far + 1 {
        Some(3)
    } else {
        None
    }
}

/// `outcome` is what forming the stiffness of the member `conn` comes to: an
/// error where an end names no node (`UnknownNodeReference`), where both ends are
/// the same node or the bar is found to have no usable length
/// (`DegenerateGeometry`), each naming the member; else the bar's matrix.
pub open spec fn is_member_outcome<T: Scalar>(
    kp_list: Seq<Keypoint<T>>,
    conn: Connection,
    e_module: T,
    area: T,
    outcome: Result<Seq<Seq<T>>, TrussError>,
) -> bool {
    match member_ends(node_names(kp_list), conn) {
        None => outcome matches Err(e) && is_unknown_reference(e, conn.name@),
        Some((near, far)) => match outcome {
            Ok(local) => near != far && is_local_bar_matrix(
                kp_list[near],
                kp_list[far],
                e_module,
                area,
                local,
            ),
            Err(e) => is_degenerate_geometry(e, conn.name@) && (near == far || is_degenerate_bar(
                kp_list[near],
                kp_list[far],
            )),
        },
    }
}

/// The entries that the first `count` members, whose own matrices are `locals`,
/// add to the cell in row `r`, column `c` of the global matrix, in the members'
/// order. A member adds its entry `(a, b)` to the cell whose row is the degree of
/// freedom of `a` and whose column is that of `b`.
pub open spec fn cell_terms<T>(
    names: Seq<Seq<char>>,
    conn_list: Seq<Connection>,
    locals: Seq<Seq<Seq<T>>>,
    count: nat,
    r: int,
    c: int,
) -> Seq<T>
    decreases count,
{
    if count == 0 {
        Seq::empty()
    } else {
        let before = cell_terms(names, conn_list, locals, (count - 1) as nat, r, c);
        match member_ends(names, conn_list[count - 1]) {
            Some((near, far)) => match (local_dof(near, far, r), local_dof(near, far, c)) {
                (Some(a), Some(b)) => before.push(locals[count - 1][a][b]),
                _ => before,
            },
            None => before,
        }
    }
}

/// `k` is the global stiffness matrix of the model: square, with two rows per
/// node, each cell the running sum from zero of the entries that the members add
/// to it, every member's own matrix being that of its bar.
pub open spec fn is_global_stiffness_matrix<T: Scalar>(
    kp_list: Seq<Keypoint<T>>,
    conn_list: Seq<Connection>,
    e_module: T,
    area: T,
    k: Seq<Seq<T>>,
) -> bool {
    exists|z: T, locals: Seq<Seq<Seq<T>>>| #[trigger]
        is_assembled_from(kp_list, conn_list, e_module, area, z, locals, k)
}

/// `k` is assembled from the zero `z` and the members' own matrices `locals`:
/// every member's matrix is that of its bar, and each cell of `k` is the running
/// sum from `z` of the entries that the members add to it.
pub open spec fn is_assembled_from<T: Scalar>(
    kp_list: Seq<Keypoint<T>>,
    conn_list: Seq<Connection>,
    e_module: T,
    area: T,
    z: T,
    locals: Seq<Seq<Seq<T>>>,
    k: Seq<Seq<T>>,
) -> bool {
    &&& is_zero(z)
    &&& locals.len() == conn_list.len()
    &&& forall|m: int|
        0 <= m < conn_list.len() ==> is_member_outcome(
            kp_list,
            conn_list[m],
            e_module,
            area,
            Ok(#[trigger] locals[m]),
        )
    &&& is_scattered(node_names(kp_list), conn_list, locals, z, k)
}

/// Each cell of `k` is the running sum from `z` of the entries that the members
/// add to it.
pub open spec fn is_scattered<T: Scalar>(
    names: Seq<Seq<char>>,
    conn_list: Seq<Connection>,
    locals: Seq<Seq<Seq<T>>>,
    z: T,
    k: Seq<Seq<T>>,
) -> bool {
    &&& is_square(k, 2 * names.len())
    &&& forall|r: int, c: int|
        0 <= r < 2 * names.len() && 0 <= c < 2 * names.len() ==> is_running_sum(
            z,
            cell_terms(names, conn_list, locals, conn_list.len(), r, c),
            #[trigger] k[r][c],
        )
}

/// The stiffness of the member `conn` was formed.
pub open spec fn is_sound_member<T: Scalar>(
    kp_list: Seq<Keypoint<T>>,
    conn: Connection,
    e_module: T,
    area: T,
) -> bool {
    exists|local: Seq<Seq<T>>| #[trigger]
        is_member_outcome(kp_list, conn, e_module, area, Ok(local))
}

/// The member `i` is the first whose stiffness cannot be formed, and `e` says why.
pub open spec fn is_first_failing_member<T: Scalar>(
    kp_list: Seq<Keypoint<T>>,
    conn_list: Seq<Connection>,
    e_module: T,
    area: T,
    i: int,
    e: TrussError,
) -> bool {
    &&& 0 <= i < conn_list.len()
    &&& is_member_outcome(kp_list, conn_list[i], e_module, area, Err(e))
    &&& forall|j: int|
        0 <= j < i ==> is_sound_member(kp_list, #[trigger] conn_list[j], e_module, area)
}

/// The degree of freedom that a member's own row or column `a` stands for, where
/// the member's ends have `base_1` and `base_2` as their first degrees of freedom.
fn member_dof(base_1: usize, base_2: usize, a: usize) -> (dof: usize)
    requires
        a < 4,
        base_1 + 1 <= usize::MAX,
        base_2 + 1 <= usize::MAX,
    ensures
        dof == if a == 0 {
            base_1 as int
        } else if a == 1 {
            base_1 + 1
        } else if a == 2 {
            base_2 as int
        } else {
            base_2 + 1
        },
{
    if a == 0 {
        base_1
    } else if a == 1 {
        base_1 + 1
    } else if a == 2 {
        base_2
    } else {
        base_2 + 1
    }
}

/// Adds each of the sixteen entries of `local` to its cell of `k`.
fn scatter_member<T: Scalar>(k: &mut Matrix<T>, local: &Matrix<T>, base_1: usize, base_2: usize)
    requires
        local@.len() == 4,
        base_1 % 2 == 0,
        base_2 % 2 == 0,
        base_1 != base_2,
        base_1 + 1 < old(k)@.len(),
        base_2 + 1 < old(k)@.len(),
    ensures
        is_square(final(k)@, old(k)@.len()),
        forall|r: int, c: int|
            0 <= r < old(k)@.len() && 0 <= c < old(k)@.len() ==> match (
                local_dof(base_1 as int / 2, base_2 as int / 2, r),
                local_dof(base_1 as int / 2, base_2 as int / 2, c),
            ) {
                (Some(a), Some(b)) => is_sum(
                    old(k)@[r][c],
                    local@[a][b],
                    #[trigger] final(k)@[r][c],
                ),
                _ => final(k)@[r][c] == old(k)@[r][c],
            },
{
    let size = k.size();
    let entries = local.size();
    let ghost before = k@;
    let ghost near = base_1 as int / 2;
    let ghost far = base_2 as int / 2;
    let mut a: usize = 0;
    while a < entries
        invariant
            a <= entries == 4,
            size == before.len(),
            near == base_1 as int / 2,
            far == base_2 as int / 2,
            base_1 % 2 == 0,
            base_2 % 2 == 0,
            base_1 != base_2,
            base_1 + 1 < size,
            base_2 + 1 < size,
            is_square(local@, 4),
            is_square(before, size as nat),
            is_square(k@, size as nat),
            forall|r: int, c: int|
                0 <= r < size && 0 <= c < size ==> match (
                    local_dof(near, far, r),
                    local_dof(near, far, c),
                ) {
                    (Some(ra), Some(cb)) if ra < a => is_sum(
                        before[r][c],
                        local@[ra][cb],
                        #[trigger] k@[r][c],
                    ),
                    _ => k@[r][c] == before[r][c],
                },
        decreases entries - a,
    {
        let row = member_dof(base_1, base_2, a);
        let mut b: usize = 0;
        while b < entries
            invariant
                b <= entries == 4,
                a < 4,
                size == before.len(),
                near == base_1 as int / 2,
                far == base_2 as int / 2,
                base_1 % 2 == 0,
                base_2 % 2 == 0,
                base_1 != base_2,
                base_1 + 1 < size,
                base_2 + 1 < size,
                row < size,
                local_dof(near, far, row as int) == Some(a as int),
                is_square(local@, 4),
                is_square(before, size as nat),
                is_square(k@, size as nat),
                forall|r: int, c: int|
                    0 <= r < size && 0 <= c < size ==> match (
                        local_dof(near, far, r),
                        local_dof(near, far, c),
                    ) {
                        (Some(ra), Some(cb)) if ra < a || (ra == a && cb < b) => is_sum(
                            before[r][c],
                            local@[ra][cb],
                            #[trigger] k@[r][c],
                        ),
                        _ => k@[r][c] == before[r][c],
                    },
            decreases entries - b,
        {
            let col = member_dof(base_1, base_2, b);
            assert(local_dof(near, far, col as int) == Some(b as int));
            let sum = k.get(row, col).plus(local.get(a, b));
            k.set(row, col, sum);
            b += 1;
        }
        a += 1;
    }
}

/// Forms the stiffness of one member: the first degrees of freedom of its two
/// ends, and its own matrix.
fn member_stiffness<T: Scalar>(
    kp_list: &[Keypoint<T>],
    kp_map: &vstd::hash_map::StringHashMap<usize>,
    conn: &Connection,
    e_module: T,
    area: T,
) -> (outcome: Result<(usize, usize, Matrix<T>), TrussError>)
    requires
        2 * kp_list@.len() <= usize::MAX,
        kp_map@ == dof_map(node_names(kp_list@)),
    ensures
        match outcome {
            Ok((base_1, base_2, local)) => {
                &&& member_ends(node_names(kp_list@), *conn) == Some(
                    (base_1 as int / 2, base_2 as int / 2),
                )
                &&& base_1 % 2 == 0
                &&& base_2 % 2 == 0
                &&& base_1 != base_2
                &&& base_1 + 1 < 2 * kp_list@.len()
                &&& base_2 + 1 < 2 * kp_list@.len()
                &&& is_member_outcome(kp_list@, *conn, e_module, area, Ok(local@))
            },
            Err(e) => is_member_outcome(kp_list@, *conn, e_module, area, Err(e)),
        },
{
    let ghost names = node_names(kp_list@);
    let base_1 = match first_dof(kp_map, &conn.kp_1, Ghost(names)) {
        Some(b) => b,
        None => {
            return Err(TrussError::UnknownNodeReference(conn.name.clone()));
        },
    };
    let base_2 = match first_dof(kp_map, &conn.kp_2, Ghost(names)) {
        Some(b) => b,
        None => {
            return Err(TrussError::UnknownNodeReference(conn.name.clone()));
        },
    };
    if base_1 == base_2 {
        return Err(TrussError::DegenerateGeometry(conn.name.clone()));
    }
    match local_bar_matrix(&kp_list[base_1 / 2], &kp_list[base_2 / 2], e_module, area) {
        Ok(local) => Ok((base_1, base_2, local)),
        Err(_) => Err(TrussError::DegenerateGeometry(conn.name.clone())),
    }
}

/// The global stiffness matrix of the truss, before any support is applied: a
/// square matrix with two rows per node, into which every member's own matrix
/// has been added at the degrees of freedom of the member's two ends.
///
/// Fails at the first member whose stiffness cannot be formed: with
/// `UnknownNodeReference` where one of its ends names no node, with
/// `DegenerateGeometry` where its ends are one node or its length is found to be
/// zero or not finite. Either error names the member.
pub fn create_global_stiffness_matrix<T: Scalar>(
    kp_list: &[Keypoint<T>],
    conn_list: &[Connection],
    e_module: T,
    area: T,
) -> (result: Result<Matrix<T>, TrussError>)
    requires
        2 * kp_list@.len() <= usize::MAX,
    ensures
        match result {
            Ok(k) => is_global_stiffness_matrix(kp_list@, conn_list@, e_module, area, k@),
            Err(e) => exists|i: int| #[trigger]
                is_first_failing_member(kp_list@, conn_list@, e_module, area, i, e),
        },
{
    let ghost names = node_names(kp_list@);
    let kp_map = global_stiffness_matrix_keypoint_hashmap(kp_list);
    let size: usize = 2 * kp_list.len();
    let z = T::zero();
    let mut k = Matrix::filled(size, z);
    let ghost mut locals: Seq<Seq<Seq<T>>> = Seq::empty();
    let mut m: usize = 0;
    while m < conn_list.len()
        invariant
            m <= conn_list@.len(),
            is_zero(z),
            size == 2 * kp_list@.len(),
            names == node_names(kp_list@),
            kp_map@ == dof_map(names),
            locals.len() == m,
            forall|j: int|
                0 <= j < m ==> is_member_outcome(
                    kp_list@,
                    conn_list@[j],
                    e_module,
                    area,
                    Ok(#[trigger] locals[j]),
                ),
            is_square(k@, size as nat),
            forall|r: int, c: int|
                0 <= r < size && 0 <= c < size ==> is_running_sum(
                    z,
                    cell_terms(names, conn_list@, locals, m as nat, r, c),
                    #[trigger] k@[r][c],
                ),
        decreases conn_list@.len() - m,
    {
        match member_stiffness(kp_list, &kp_map, &conn_list[m], e_module, area) {
            Err(e) => {
                proof {
                    assert forall|j: int| 0 <= j < m implies is_sound_member(
                        kp_list@,
                        #[trigger] conn_list@[j],
                        e_module,
                        area,
                    ) by {
                        assert(is_member_outcome(
                            kp_list@,
                            conn_list@[j],
                            e_module,
                            area,
                            Ok(locals[j]),
                        ));
                    }
                    assert(is_first_failing_member(
                        kp_list@,
                        conn_list@,
                        e_module,
                        area,
                        m as int,
                        e,
                    ));
                }
                return Err(e);
            },
            Ok((base_1, base_2, local)) => {
                let ghost before = k@;
                let ghost longer = locals.push(local@);
                scatter_member(&mut k, &local, base_1, base_2);
                proof {
                    let near = base_1 as int / 2;
                    let far = base_2 as int / 2;
                    assert forall|r: int, c: int|
                        0 <= r < size && 0 <= c < size implies is_running_sum(
                        z,
                        cell_terms(names, conn_list@, longer, (m + 1) as nat, r, c),
                        #[trigger] k@[r][c],
                    ) by {
                        lemma_cell_terms_ignore_later(
                            names,
                            conn_list@,
                            locals,
                            local@,
                            m as nat,
                            r,
                            c,
                        );
                        match (local_dof(near, far, r), local_dof(near, far, c)) {
                            (Some(a), Some(b)) => {
                                lemma_running_sum_push(
                                    z,
                                    cell_terms(names, conn_list@, longer, m as nat, r, c),
                                    before[r][c],
                                    local@[a][b],
                                    k@[r][c],
                                );
                            },
                            _ => {},
                        }
                    }
                    assert forall|j: int| 0 <= j < m + 1 implies is_member_outcome(
                        kp_list@,
                        conn_list@[j],
                        e_module,
                        area,
                        Ok(#[trigger] longer[j]),
                    ) by {
                        if j < m {
                            assert(longer[j] == locals[j]);
                        }
                    }
                    locals = longer;
                }
            },
        }
        m += 1;
    }
    proof {
        assert(is_assembled_from(kp_list@, conn_list@, e_module, area, z, locals, k@));
    }
    Ok(k)
}

/// What the first `count` members add to a cell does not depend on the matrices
/// of later members.
proof fn lemma_cell_terms_ignore_later<T>(
    names: Seq<Seq<char>>,
    conn_list: Seq<Connection>,
    locals: Seq<Seq<Seq<T>>>,
    local: Seq<Seq<T>>,
    count: nat,
    r: int,
    c: int,
)
    requires
        count <= locals.len(),
    ensures
        cell_terms(names, conn_list, locals.push(local), count, r, c) == cell_terms(
            names,
            conn_list,
            locals,
            count,
            r,
            c,
        ),
    decreases count,
{
    if count > 0 {
        lemma_cell_terms_ignore_later(names, conn_list, locals, local, (count - 1) as nat, r, c);
        assert(locals.push(local)[count - 1] == locals[count - 1]);
    }
}

/// `modified` is `k` with the stiffness of each spring added to the diagonal entry
/// of the degree of freedom that the spring holds, and every other entry unchanged.
pub open spec fn is_spring_augmented<T: Scalar>(
    k: Seq<Seq<T>>,
    filter: Seq<DofConstraint<T>>,
    modified: Seq<Seq<T>>,
) -> bool {
    &&& is_square(modified, filter.len())
    &&& forall|r: int, c: int|
        0 <= r < filter.len() && 0 <= c < filter.len() ==> match filter[r] {
            DofConstraint::Spring(stiffness) if r == c => is_sum(
                k[r][c],
                stiffness,
                #[trigger] modified[r][c],
            ),
            _ => modified[r][c] == k[r][c],
        }
}

/// A copy of the global stiffness matrix in which every spring support has added
/// its stiffness to the diagonal entry of its degree of freedom. Fixed degrees of
/// freedom are left as they are: the reduction removes them.
pub fn apply_boundary_conditions<T: Scalar>(
    global_stiffness_matrix: &Matrix<T>,
    dof_filter_vector: &[DofConstraint<T>],
) -> (modified: Matrix<T>)
    requires
        global_stiffness_matrix@.len() == dof_filter_vector@.len(),
    ensures
        is_spring_augmented(global_stiffness_matrix@, dof_filter_vector@, modified@),
{
    let mut modified = global_stiffness_matrix.duplicate();
    let size = modified.size();
    let ghost k = global_stiffness_matrix@;
    let ghost filter = dof_filter_vector@;
    let mut i: usize = 0;
    while i < size
        invariant
            i <= size,
            size == filter.len(),
            filter == dof_filter_vector@,
            is_square(k, size as nat),
            is_square(modified@, size as nat),
            forall|r: int, c: int|
                0 <= r < size && 0 <= c < size ==> match filter[r] {
                    DofConstraint::Spring(stiffness) if r == c && r < i => is_sum(
                        k[r][c],
                        stiffness,
                        #[trigger] modified@[r][c],
                    ),
                    _ => modified@[r][c] == k[r][c],
                },
        decreases size - i,
    {
        match dof_filter_vector[i] {
            DofConstraint::Spring(stiffness) => {
                let sum = modified.get(i, i).plus(stiffness);
                modified.set(i, i, sum);
            },
            _ => {},
        }
        i += 1;
    }
    modified
}

/// `solution` is what the solver answered for the reduced system; where every
/// degree of freedom is fixed, nothing is left to solve and the answer is empty.
pub open spec fn is_reduced_solution<T, S: FnOnce(Matrix<T>, Vec<T>) -> Option<Vec<T>>>(
    solve: S,
    k: Seq<Seq<T>>,
    force: Seq<T>,
    filter: Seq<DofConstraint<T>>,
    solution: Option<Vec<T>>,
) -> bool {
    if retained_dofs(filter).len() == 0 {
        solution matches Some(s) && s@.len() == 0
    } else {
        exists|reduced_k: Matrix<T>, reduced_f: Vec<T>|
            is_reduced_system(k, force, filter, reduced_k@, reduced_f@) && call_ensures(
                solve,
                (reduced_k, reduced_f),
                solution,
            )
    }
}

/// The displacement of every degree of freedom under the given forces.
///
/// The fixed degrees of freedom are taken out of the system, `solve` is asked to
/// solve what is left, `modified * u = force` reduced, and its answer is put back
/// in place, with zero at each fixed degree of freedom.
///
/// Fails with `SingularSystem` where `solve` finds no solution, or gives one that
/// is not finite throughout.
pub fn calculate_resulting_displacement_vector<
    T: Scalar,
    S: FnOnce(Matrix<T>, Vec<T>) -> Option<Vec<T>>,
>(
    modified_global_stiffness_matrix: &Matrix<T>,
    force_vector: &Vec<T>,
    dof_filter_vector: &[DofConstraint<T>],
    solve: S,
) -> (result: Result<Vec<T>, TrussError>)
    requires
        modified_global_stiffness_matrix@.len() == dof_filter_vector@.len(),
        force_vector@.len() == dof_filter_vector@.len(),
        forall|reduced_k: Matrix<T>, reduced_f: Vec<T>|
            is_reduced_system(
                modified_global_stiffness_matrix@,
                force_vector@,
                dof_filter_vector@,
                reduced_k@,
                reduced_f@,
            ) ==> call_requires(solve, (reduced_k, reduced_f)),
    ensures
        exists|solution: Option<Vec<T>>|
            is_reduced_solution(
                solve,
                modified_global_stiffness_matrix@,
                force_vector@,
                dof_filter_vector@,
                solution,
            ) && is_expansion_outcome(solution, dof_filter_vector@, result),
{
    let (reduced_k, reduced_f) = reduce_system(
        modified_global_stiffness_matrix,
        force_vector,
        dof_filter_vector,
    );
    let solution = if reduced_f.len() == 0 {
        Some(reduced_f)
    } else {
        solve(reduced_k, reduced_f)
    };
    let result = expand_displacement_vector(solution, dof_filter_vector);
    assert(is_reduced_solution(
        solve,
        modified_global_stiffness_matrix@,
        force_vector@,
        dof_filter_vector@,
        solution,
    ));
    result
}

/// `products[j]` is `row[j] * u[j]` for every `j`, and `out` is their running sum
/// from zero.
pub open spec fn is_dot_product<T: Scalar>(row: Seq<T>, u: Seq<T>, out: T) -> bool {
    exists|z: T, products: Seq<T>|
        {
            &&& is_zero(z)
            &&& products.len() == u.len()
            &&& forall|j: int| 0 <= j < u.len() ==> is_product(row[j], u[j], #[trigger] products[j])
            &&& #[trigger] is_running_sum(z, products, out)
        }
}

/// The force on every degree of freedom: the product of the global stiffness
/// matrix, as assembled and before any support was applied, with the displacement
/// vector. At a free degree of freedom this is the applied load, at a fixed one the
/// reaction, at a sprung one the force in the spring.
pub fn calculate_resulting_force_vector<T: Scalar>(
    global_stiffness_matrix: &Matrix<T>,
    resulting_displacement_vector: &Vec<T>,
) -> (resulting_force_vector: Vec<T>)
    requires
        global_stiffness_matrix@.len() == resulting_displacement_vector@.len(),
    ensures
        resulting_force_vector@.len() == resulting_displacement_vector@.len(),
        forall|i: int|
            0 <= i < resulting_force_vector@.len() ==> is_dot_product(
                global_stiffness_matrix@[i],
                resulting_displacement_vector@,
                #[trigger] resulting_force_vector@[i],
            ),
{
    let size = global_stiffness_matrix.size();
    let ghost k = global_stiffness_matrix@;
    let ghost u = resulting_displacement_vector@;
    let z = T::zero();
    let mut force: Vec<T> = Vec::new();
    let mut i: usize = 0;
    while i < size
        invariant
            i <= size,
            is_zero(z),
            k == global_stiffness_matrix@,
            u == resulting_displacement_vector@,
            is_square(k, size as nat),
            u.len() == size,
            force@.len() == i,
            forall|r: int| 0 <= r < i ==> is_dot_product(k[r], u, #[trigger] force@[r]),
        decreases size - i,
    {
        let mut acc = z;
        let ghost mut products: Seq<T> = Seq::empty();
        let mut j: usize = 0;
        while j < size
            invariant
                j <= size,
                i < size,
                k == global_stiffness_matrix@,
                u == resulting_displacement_vector@,
                is_square(k, size as nat),
                u.len() == size,
                products.len() == j,
                forall|c: int|
                    0 <= c < j ==> is_product(k[i as int][c], u[c], #[trigger] products[c]),
                is_running_sum(z, products, acc),
            decreases size - j,
        {
            let term = global_stiffness_matrix.get(i, j).times(resulting_displacement_vector[j]);
            let next = acc.plus(term);
            proof {
                lemma_running_sum_push(z, products, acc, term, next);
                products = products.push(term);
            }
            acc = next;
            j += 1;
        }
        force.push(acc);
        i += 1;
    }
    force
}

} // verus!
