//! Runs are repeatable.
use vstd::prelude::*;
use crate::error::{is_unknown_reference, TrussError};
use crate::fe_engine::analysis::{
    is_displacement, is_dof_filter, is_failure_after_assembly, is_force_vector,
    is_matrix_vector_product, is_run, Steps,
};
use crate::fe_engine::assembly_laws::lemma_global_stiffness_matrix_is_unique;
use crate::fe_engine::dof_filter_vector::{support_refs, DofConstraint};
use crate::fe_engine::force_vector::{is_load_vector, load_refs, load_terms};
use crate::fe_engine::global_stiffness_matrix::{
    is_dot_product, is_first_failing_member, is_global_stiffness_matrix, is_member_outcome,
    is_reduced_solution, is_assembled_from, is_sound_member, is_spring_augmented, member_ends,
};
use crate::fe_engine::reduction::{
    is_expansion_outcome, is_reduced_system, is_unusable_solution, lemma_retained_dofs,
    retained_dofs,
};
use crate::fe_engine::utils::{is_first_unknown, node_names};
use crate::input::boundary_condition::BoundaryCondition;
use crate::input::connection::Connection;
use crate::input::keypoint::Keypoint;
use crate::input::pointload::Pointload;
use crate::material_formulation::local_stiffness_matrix_bar::lemma_bar_is_sound_or_degenerate;
use crate::matrix::Matrix;
use crate::scalar::{
    finite_answers, is_deterministic, is_product, is_running_sum, is_zero,
    lemma_running_sum_unique, Scalar,
};

verus! {

/// Two errors say the same: they are of one kind and name the same line or
/// entity.
pub open spec fn is_same_error(e_1: TrussError, e_2: TrussError) -> bool {
    match (e_1, e_2) {
        (TrussError::Parse(l_1), TrussError::Parse(l_2)) => l_1 == l_2,
        (TrussError::UnknownNodeReference(n_1), TrussError::UnknownNodeReference(n_2)) => n_1@
            == n_2@,
        (TrussError::DegenerateGeometry(n_1), TrussError::DegenerateGeometry(n_2)) => n_1@ == n_2@,
        (TrussError::SingularSystem, TrussError::SingularSystem) => true,
        _ => false,
    }
}

/// Two answers of a solver say the same: both are none, or both hold the same
/// values.
pub open spec fn is_same_solution<T>(s_1: Option<Vec<T>>, s_2: Option<Vec<T>>) -> bool {
    match (s_1, s_2) {
        (None, None) => true,
        (Some(a), Some(b)) => a@ == b@,
        _ => false,
    }
}

/// `solve` is a function of the system it is handed: the same matrix and
/// right-hand side never get two different answers.
pub open spec fn is_solver_function<T, S: FnOnce(Matrix<T>, Vec<T>) -> Option<Vec<T>>>(
    solve: S,
) -> bool {
    forall|
        k_1: Matrix<T>,
        f_1: Vec<T>,
        s_1: Option<Vec<T>>,
        k_2: Matrix<T>,
        f_2: Vec<T>,
        s_2: Option<Vec<T>>,
    |
        #![trigger call_ensures(solve, (k_1, f_1), s_1), call_ensures(solve, (k_2, f_2), s_2)]
        k_1@ == k_2@ && f_1@ == f_2@ && call_ensures(solve, (k_1, f_1), s_1) && call_ensures(
            solve,
            (k_2, f_2),
            s_2,
        ) ==> is_same_solution(s_1, s_2)
}

/// Two outcomes of a run say the same: the same steps, or the same error.
pub open spec fn is_same_outcome<T>(
    outcome_1: Result<Steps<T>, TrussError>,
    outcome_2: Result<Steps<T>, TrussError>,
) -> bool {
    match (outcome_1, outcome_2) {
        (Ok(steps_1), Ok(steps_2)) => steps_1 == steps_2,
        (Err(e_1), Err(e_2)) => is_same_error(e_1, e_2),
        _ => false,
    }
}

/// No member both has its stiffness formed and fails.
proof fn lemma_member_is_sound_or_fails<T: Scalar>(
    kp_list: Seq<Keypoint<T>>,
    conn: Connection,
    e_module: T,
    area: T,
    e: TrussError,
)
    requires
        is_deterministic::<T>(),
        is_member_outcome(kp_list, conn, e_module, area, Err(e)),
    ensures
        !is_sound_member(kp_list, conn, e_module, area),
{
    if is_sound_member(kp_list, conn, e_module, area) {
        let local = choose|local: Seq<Seq<T>>| #[trigger]
            is_member_outcome(kp_list, conn, e_module, area, Ok(local));
        let ends = member_ends(node_names(kp_list), conn).unwrap();
        lemma_bar_is_sound_or_degenerate(kp_list[ends.0], kp_list[ends.1], e_module, area, local);
    }
}

/// The first member that fails is one member, and fails in one way.
proof fn lemma_first_failing_member_is_unique<T: Scalar>(
    kp_list: Seq<Keypoint<T>>,
    conn_list: Seq<Connection>,
    e_module: T,
    area: T,
    i_1: int,
    e_1: TrussError,
    i_2: int,
    e_2: TrussError,
)
    requires
        is_deterministic::<T>(),
        is_first_failing_member(kp_list, conn_list, e_module, area, i_1, e_1),
        is_first_failing_member(kp_list, conn_list, e_module, area, i_2, e_2),
    ensures
        i_1 == i_2,
        is_same_error(e_1, e_2),
{
    lemma_member_is_sound_or_fails(kp_list, conn_list[i_1], e_module, area, e_1);
    lemma_member_is_sound_or_fails(kp_list, conn_list[i_2], e_module, area, e_2);
}

/// No model both has a global stiffness matrix and a member that fails.
proof fn lemma_assembly_succeeds_or_fails<T: Scalar>(
    kp_list: Seq<Keypoint<T>>,
    conn_list: Seq<Connection>,
    e_module: T,
    area: T,
    k: Seq<Seq<T>>,
    i: int,
    e: TrussError,
)
    requires
        is_deterministic::<T>(),
        is_first_failing_member(kp_list, conn_list, e_module, area, i, e),
    ensures
        !is_global_stiffness_matrix(kp_list, conn_list, e_module, area, k),
{
    if is_global_stiffness_matrix(kp_list, conn_list, e_module, area, k) {
        let (z, locals) = choose|z: T, locals: Seq<Seq<Seq<T>>>| #[trigger]
        is_assembled_from(kp_list, conn_list, e_module, area, z, locals, k);
        assert(is_member_outcome(kp_list, conn_list[i], e_module, area, Ok(locals[i])));
        lemma_member_is_sound_or_fails(kp_list, conn_list[i], e_module, area, e);
    }
}

/// The states of the degrees of freedom are one sequence.
proof fn lemma_dof_filter_is_unique<T>(
    names: Seq<Seq<char>>,
    bc_list: Seq<BoundaryCondition<T>>,
    filter_1: Seq<DofConstraint<T>>,
    filter_2: Seq<DofConstraint<T>>,
)
    requires
        is_dof_filter(names, bc_list, filter_1),
        is_dof_filter(names, bc_list, filter_2),
    ensures
        filter_1 == filter_2,
{
    assert(filter_1 =~= filter_2);
}

/// The loads add up to one vector.
proof fn lemma_force_vector_is_unique<T: Scalar>(
    names: Seq<Seq<char>>,
    pl_list: Seq<Pointload<T>>,
    force_1: Seq<T>,
    force_2: Seq<T>,
)
    requires
        is_deterministic::<T>(),
        is_force_vector(names, pl_list, force_1),
        is_force_vector(names, pl_list, force_2),
    ensures
        force_1 == force_2,
{
    let z_1 = choose|z: T|
        #![trigger is_load_vector(names, pl_list, z, force_1)]
        is_zero(z) && is_load_vector(names, pl_list, z, force_1);
    let z_2 = choose|z: T|
        #![trigger is_load_vector(names, pl_list, z, force_2)]
        is_zero(z) && is_load_vector(names, pl_list, z, force_2);
    assert(z_1 == z_2);
    assert forall|dof: int| 0 <= dof < force_1.len() implies force_1[dof] == force_2[dof] by {
        lemma_running_sum_unique(
            z_1,
            load_terms(names, pl_list, pl_list.len(), dof),
            force_1[dof],
            force_2[dof],
        );
    }
    assert(force_1 =~= force_2);
}

/// Adding the springs gives one matrix.
proof fn lemma_spring_augmented_is_unique<T: Scalar>(
    k: Seq<Seq<T>>,
    filter: Seq<DofConstraint<T>>,
    modified_1: Seq<Seq<T>>,
    modified_2: Seq<Seq<T>>,
)
    requires
        is_deterministic::<T>(),
        is_spring_augmented(k, filter, modified_1),
        is_spring_augmented(k, filter, modified_2),
    ensures
        modified_1 == modified_2,
{
    assert forall|r: int| 0 <= r < filter.len() implies modified_1[r] =~= modified_2[r] by {
        assert(modified_1[r].len() == filter.len() && modified_2[r].len() == filter.len());
        assert forall|c: int| 0 <= c < filter.len() implies modified_1[r][c]
            == modified_2[r][c] by {
        }
    }
    assert(modified_1 =~= modified_2);
}

/// A solver that is a function gives the reduced system one answer.
proof fn lemma_reduced_solution_is_unique<T, S: FnOnce(Matrix<T>, Vec<T>) -> Option<Vec<T>>>(
    solve: S,
    k: Seq<Seq<T>>,
    force: Seq<T>,
    filter: Seq<DofConstraint<T>>,
    solution_1: Option<Vec<T>>,
    solution_2: Option<Vec<T>>,
)
    requires
        is_solver_function(solve),
        is_reduced_solution(solve, k, force, filter, solution_1),
        is_reduced_solution(solve, k, force, filter, solution_2),
    ensures
        is_same_solution(solution_1, solution_2),
{
    if retained_dofs(filter).len() == 0 {
        assert(solution_1->Some_0@ =~= solution_2->Some_0@);
    } else {
        let (k_1, f_1) = choose|reduced_k: Matrix<T>, reduced_f: Vec<T>|
            is_reduced_system(k, force, filter, reduced_k@, reduced_f@) && call_ensures(
                solve,
                (reduced_k, reduced_f),
                solution_1,
            );
        let (k_2, f_2) = choose|reduced_k: Matrix<T>, reduced_f: Vec<T>|
            is_reduced_system(k, force, filter, reduced_k@, reduced_f@) && call_ensures(
                solve,
                (reduced_k, reduced_f),
                solution_2,
            );
        let size = retained_dofs(filter).len();
        assert forall|m: int| 0 <= m < size implies k_1@[m] =~= k_2@[m] by {
            assert(k_1@[m].len() == size && k_2@[m].len() == size);
            assert forall|n: int| 0 <= n < size implies k_1@[m][n] == k_2@[m][n] by {
            }
        }
        assert(k_1@ =~= k_2@);
        assert(f_1@ =~= f_2@);
    }
}

/// Answers that say the same are put back in place the same way, or are both
/// unusable.
proof fn lemma_expansion_outcome_is_unique<T: Scalar>(
    solution_1: Option<Vec<T>>,
    solution_2: Option<Vec<T>>,
    filter: Seq<DofConstraint<T>>,
    result_1: Result<Vec<T>, TrussError>,
    result_2: Result<Vec<T>, TrussError>,
)
    requires
        is_deterministic::<T>(),
        is_same_solution(solution_1, solution_2),
        is_expansion_outcome(solution_1, filter, result_1),
        is_expansion_outcome(solution_2, filter, result_2),
    ensures
        match (result_1, result_2) {
            (Ok(full_1), Ok(full_2)) => full_1@ == full_2@,
            (Err(e_1), Err(e_2)) => is_same_error(e_1, e_2),
            _ => false,
        },
{
    lemma_retained_dofs(filter);
    let kept = retained_dofs(filter);
    match (result_1, result_2) {
        (Ok(full_1), Ok(full_2)) => {
            let s_1 = solution_1->Some_0;
            let s_2 = solution_2->Some_0;
            assert forall|dof: int| 0 <= dof < filter.len() implies full_1@[dof]
                == full_2@[dof] by {
                if filter[dof] is Fixed {
                    assert(is_zero(full_1@[dof]) && is_zero(full_2@[dof]));
                } else {
                    assert(kept.contains(dof));
                    let m = choose|m: int| 0 <= m < kept.len() && kept[m] == dof;
                    assert(full_1@[kept[m]] == s_1@[m]);
                    assert(full_2@[kept[m]] == s_2@[m]);
                }
            }
            assert(full_1@ =~= full_2@);
        },
        (Ok(full), Err(e)) => {
            lemma_usable_is_not_unusable(solution_1, solution_2, filter, full);
        },
        (Err(e), Ok(full)) => {
            lemma_usable_is_not_unusable(solution_2, solution_1, filter, full);
        },
        (Err(e_1), Err(e_2)) => {},
    }
}

/// An answer that was put back in place is not unusable, nor is one that says the
/// same.
proof fn lemma_usable_is_not_unusable<T: Scalar>(
    usable: Option<Vec<T>>,
    other: Option<Vec<T>>,
    filter: Seq<DofConstraint<T>>,
    full: Vec<T>,
)
    requires
        is_deterministic::<T>(),
        is_same_solution(usable, other),
        is_expansion_outcome(usable, filter, Ok(full)),
    ensures
        !is_unusable_solution(other, filter),
{
    if is_unusable_solution(other, filter) {
        let s = usable->Some_0;
        let o = other->Some_0;
        assert(o@.len() == retained_dofs(filter).len());
        let m = choose|m: int| 0 <= m < o@.len() && finite_answers(#[trigger] o@[m], false);
        assert(finite_answers(s@[m], true));
    }
}

/// Solving for the displacements comes to one outcome.
proof fn lemma_displacement_is_unique<T: Scalar, S: FnOnce(Matrix<T>, Vec<T>) -> Option<Vec<T>>>(
    modified: Seq<Seq<T>>,
    filter: Seq<DofConstraint<T>>,
    force: Seq<T>,
    solve: S,
    outcome_1: Result<Seq<T>, TrussError>,
    outcome_2: Result<Seq<T>, TrussError>,
)
    requires
        is_deterministic::<T>(),
        is_solver_function(solve),
        is_displacement(modified, filter, force, solve, outcome_1),
        is_displacement(modified, filter, force, solve, outcome_2),
    ensures
        match (outcome_1, outcome_2) {
            (Ok(u_1), Ok(u_2)) => u_1 == u_2,
            (Err(e_1), Err(e_2)) => is_same_error(e_1, e_2),
            _ => false,
        },
{
    let (solution_1, result_1) = choose|
        solution: Option<Vec<T>>,
        result: Result<Vec<T>, TrussError>,
    |
        {
            &&& #[trigger] is_reduced_solution(solve, modified, force, filter, solution)
            &&& #[trigger] is_expansion_outcome(solution, filter, result)
            &&& match (outcome_1, result) {
                (Ok(u), Ok(full)) => u == full@,
                (Err(e), Err(err)) => e == err,
                _ => false,
            }
        };
    let (solution_2, result_2) = choose|
        solution: Option<Vec<T>>,
        result: Result<Vec<T>, TrussError>,
    |
        {
            &&& #[trigger] is_reduced_solution(solve, modified, force, filter, solution)
            &&& #[trigger] is_expansion_outcome(solution, filter, result)
            &&& match (outcome_2, result) {
                (Ok(u), Ok(full)) => u == full@,
                (Err(e), Err(err)) => e == err,
                _ => false,
            }
        };
    lemma_reduced_solution_is_unique(solve, modified, force, filter, solution_1, solution_2);
    lemma_expansion_outcome_is_unique(solution_1, solution_2, filter, result_1, result_2);
}

/// A matrix and a vector have one product.
proof fn lemma_matrix_vector_product_is_unique<T: Scalar>(
    k: Seq<Seq<T>>,
    u: Seq<T>,
    recovered_1: Seq<T>,
    recovered_2: Seq<T>,
)
    requires
        is_deterministic::<T>(),
        is_matrix_vector_product(k, u, recovered_1),
        is_matrix_vector_product(k, u, recovered_2),
    ensures
        recovered_1 == recovered_2,
{
    assert forall|i: int| 0 <= i < u.len() implies recovered_1[i] == recovered_2[i] by {
        assert(is_dot_product(k[i], u, recovered_1[i]));
        assert(is_dot_product(k[i], u, recovered_2[i]));
        let (z_1, products_1) = choose|z: T, products: Seq<T>|
            {
                &&& is_zero(z)
                &&& products.len() == u.len()
                &&& forall|j: int|
                    0 <= j < u.len() ==> is_product(k[i][j], u[j], #[trigger] products[j])
                &&& #[trigger] is_running_sum(z, products, recovered_1[i])
            };
        let (z_2, products_2) = choose|z: T, products: Seq<T>|
            {
                &&& is_zero(z)
                &&& products.len() == u.len()
                &&& forall|j: int|
                    0 <= j < u.len() ==> is_product(k[i][j], u[j], #[trigger] products[j])
                &&& #[trigger] is_running_sum(z, products, recovered_2[i])
            };
        assert(z_1 == z_2);
        assert forall|j: int| 0 <= j < u.len() implies products_1[j] == products_2[j] by {
            assert(is_product(k[i][j], u[j], products_1[j]));
            assert(is_product(k[i][j], u[j], products_2[j]));
        }
        assert(products_1 =~= products_2);
        lemma_running_sum_unique(z_1, products_1, recovered_1[i], recovered_2[i]);
    }
    assert(recovered_1 =~= recovered_2);
}

/// With the matrix assembled, a run fails in one way.
proof fn lemma_failure_after_assembly_is_unique<
    T: Scalar,
    S: FnOnce(Matrix<T>, Vec<T>) -> Option<Vec<T>>,
>(
    names: Seq<Seq<char>>,
    bc_list: Seq<BoundaryCondition<T>>,
    pl_list: Seq<Pointload<T>>,
    k: Seq<Seq<T>>,
    solve: S,
    e_1: TrussError,
    e_2: TrussError,
)
    requires
        is_deterministic::<T>(),
        is_solver_function(solve),
        is_failure_after_assembly(names, bc_list, pl_list, k, solve, e_1),
        is_failure_after_assembly(names, bc_list, pl_list, k, solve, e_2),
    ensures
        is_same_error(e_1, e_2),
{
    let step = failure_step(names, bc_list, pl_list, k, solve, e_1);
    assert(step == failure_step(names, bc_list, pl_list, k, solve, e_2));
    lemma_failure_step(names, bc_list, pl_list, k, solve, e_1);
    lemma_failure_step(names, bc_list, pl_list, k, solve, e_2);
    if step == 0 {
        let i_1 = choose|i: int|
            is_first_unknown(names, support_refs(bc_list), i) && is_unknown_reference(
                e_1,
                #[trigger] bc_list[i].name@,
            );
        let i_2 = choose|i: int|
            is_first_unknown(names, support_refs(bc_list), i) && is_unknown_reference(
                e_2,
                #[trigger] bc_list[i].name@,
            );
        assert(i_1 == i_2);
    } else if step == 1 {
        let i_1 = choose|i: int|
            is_first_unknown(names, load_refs(pl_list), i) && is_unknown_reference(
                e_1,
                #[trigger] pl_list[i].name@,
            );
        let i_2 = choose|i: int|
            is_first_unknown(names, load_refs(pl_list), i) && is_unknown_reference(
                e_2,
                #[trigger] pl_list[i].name@,
            );
        assert(i_1 == i_2);
    } else {
        let (filter_1, force_1, modified_1) = choose|
            filter: Seq<DofConstraint<T>>,
            force: Seq<T>,
            modified: Seq<Seq<T>>,
        |
            {
                &&& #[trigger] is_dof_filter(names, bc_list, filter)
                &&& #[trigger] is_force_vector(names, pl_list, force)
                &&& #[trigger] is_spring_augmented(k, filter, modified)
                &&& is_displacement(modified, filter, force, solve, Err(e_1))
            };
        let (filter_2, force_2, modified_2) = choose|
            filter: Seq<DofConstraint<T>>,
            force: Seq<T>,
            modified: Seq<Seq<T>>,
        |
            {
                &&& #[trigger] is_dof_filter(names, bc_list, filter)
                &&& #[trigger] is_force_vector(names, pl_list, force)
                &&& #[trigger] is_spring_augmented(k, filter, modified)
                &&& is_displacement(modified, filter, force, solve, Err(e_2))
            };
        lemma_dof_filter_is_unique(names, bc_list, filter_1, filter_2);
        lemma_force_vector_is_unique(names, pl_list, force_1, force_2);
        lemma_spring_augmented_is_unique(k, filter_1, modified_1, modified_2);
        lemma_displacement_is_unique(modified_1, filter_1, force_1, solve, Err(e_1), Err(e_2));
    }
}

/// The step at which a run that fails with `e` after assembly does so: 0 for the
/// supports, 1 for the loads, 2 for the solution.
spec fn failure_step<T: Scalar, S: FnOnce(Matrix<T>, Vec<T>) -> Option<Vec<T>>>(
    names: Seq<Seq<char>>,
    bc_list: Seq<BoundaryCondition<T>>,
    pl_list: Seq<Pointload<T>>,
    k: Seq<Seq<T>>,
    solve: S,
    e: TrussError,
) -> int {
    if exists|i: int| is_first_unknown(names, support_refs(bc_list), i) {
        0
    } else if exists|i: int| is_first_unknown(names, load_refs(pl_list), i) {
        1
    } else {
        2
    }
}

/// A run that fails after assembly fails at the step that `failure_step` names.
proof fn lemma_failure_step<T: Scalar, S: FnOnce(Matrix<T>, Vec<T>) -> Option<Vec<T>>>(
    names: Seq<Seq<char>>,
    bc_list: Seq<BoundaryCondition<T>>,
    pl_list: Seq<Pointload<T>>,
    k: Seq<Seq<T>>,
    solve: S,
    e: TrussError,
)
    requires
        is_failure_after_assembly(names, bc_list, pl_list, k, solve, e),
    ensures
        failure_step(names, bc_list, pl_list, k, solve, e) == 0 ==> exists|i: int|
            is_first_unknown(names, support_refs(bc_list), i) && is_unknown_reference(
                e,
                #[trigger] bc_list[i].name@,
            ),
        failure_step(names, bc_list, pl_list, k, solve, e) == 1 ==> exists|i: int|
            is_first_unknown(names, load_refs(pl_list), i) && is_unknown_reference(
                e,
                #[trigger] pl_list[i].name@,
            ),
        failure_step(names, bc_list, pl_list, k, solve, e) == 2 ==> exists|
            filter: Seq<DofConstraint<T>>,
            force: Seq<T>,
            modified: Seq<Seq<T>>,
        |
            {
                &&& #[trigger] is_dof_filter(names, bc_list, filter)
                &&& #[trigger] is_force_vector(names, pl_list, force)
                &&& #[trigger] is_spring_augmented(k, filter, modified)
                &&& is_displacement(modified, filter, force, solve, Err(e))
            },
{
}

/// Runs are repeatable: where the operations of `T` and the solver are functions,
/// one model has one outcome, the same steps or the same error, however often it
/// is run.
pub proof fn lemma_run_is_unique<T: Scalar, S: FnOnce(Matrix<T>, Vec<T>) -> Option<Vec<T>>>(
    kp_list: Seq<Keypoint<T>>,
    conn_list: Seq<Connection>,
    bc_list: Seq<BoundaryCondition<T>>,
    pl_list: Seq<Pointload<T>>,
    e_module: T,
    area: T,
    solve: S,
    outcome_1: Result<Steps<T>, TrussError>,
    outcome_2: Result<Steps<T>, TrussError>,
)
    requires
        is_deterministic::<T>(),
        is_solver_function(solve),
        is_run(kp_list, conn_list, bc_list, pl_list, e_module, area, solve, outcome_1),
        is_run(kp_list, conn_list, bc_list, pl_list, e_module, area, solve, outcome_2),
    ensures
        is_same_outcome(outcome_1, outcome_2),
{
    match (outcome_1, outcome_2) {
        (Ok(a), Ok(b)) => {
            lemma_steps_are_unique(
                kp_list,
                conn_list,
                bc_list,
                pl_list,
                e_module,
                area,
                solve,
                a,
                b,
            );
        },
        (Err(e_1), Err(e_2)) => {
            lemma_failure_is_unique(
                kp_list,
                conn_list,
                bc_list,
                pl_list,
                e_module,
                area,
                solve,
                e_1,
                e_2,
            );
        },
        (Ok(a), Err(e)) => {
            lemma_success_excludes_failure(
                kp_list,
                conn_list,
                bc_list,
                pl_list,
                e_module,
                area,
                solve,
                a,
                e,
            );
        },
        (Err(e), Ok(b)) => {
            lemma_success_excludes_failure(
                kp_list,
                conn_list,
                bc_list,
                pl_list,
                e_module,
                area,
                solve,
                b,
                e,
            );
        },
    }
}

/// Two runs that succeed compute the same steps.
proof fn lemma_steps_are_unique<T: Scalar, S: FnOnce(Matrix<T>, Vec<T>) -> Option<Vec<T>>>(
    kp_list: Seq<Keypoint<T>>,
    conn_list: Seq<Connection>,
    bc_list: Seq<BoundaryCondition<T>>,
    pl_list: Seq<Pointload<T>>,
    e_module: T,
    area: T,
    solve: S,
    a: Steps<T>,
    b: Steps<T>,
)
    requires
        is_deterministic::<T>(),
        is_solver_function(solve),
        is_run(kp_list, conn_list, bc_list, pl_list, e_module, area, solve, Ok(a)),
        is_run(kp_list, conn_list, bc_list, pl_list, e_module, area, solve, Ok(b)),
    ensures
        a == b,
{
    let names = node_names(kp_list);
    lemma_global_stiffness_matrix_is_unique(
        kp_list,
        conn_list,
        e_module,
        area,
        a.stiffness,
        b.stiffness,
    );
    lemma_dof_filter_is_unique(names, bc_list, a.filter, b.filter);
    lemma_force_vector_is_unique(names, pl_list, a.force, b.force);
    lemma_spring_augmented_is_unique(a.stiffness, a.filter, a.modified, b.modified);
    lemma_displacement_is_unique(
        a.modified,
        a.filter,
        a.force,
        solve,
        Ok(a.displacement),
        Ok(b.displacement),
    );
    lemma_matrix_vector_product_is_unique(a.stiffness, a.displacement, a.recovered, b.recovered);
}

/// Two runs that fail report the same error.
proof fn lemma_failure_is_unique<T: Scalar, S: FnOnce(Matrix<T>, Vec<T>) -> Option<Vec<T>>>(
    kp_list: Seq<Keypoint<T>>,
    conn_list: Seq<Connection>,
    bc_list: Seq<BoundaryCondition<T>>,
    pl_list: Seq<Pointload<T>>,
    e_module: T,
    area: T,
    solve: S,
    e_1: TrussError,
    e_2: TrussError,
)
    requires
        is_deterministic::<T>(),
        is_solver_function(solve),
        is_run(kp_list, conn_list, bc_list, pl_list, e_module, area, solve, Err(e_1)),
        is_run(kp_list, conn_list, bc_list, pl_list, e_module, area, solve, Err(e_2)),
    ensures
        is_same_error(e_1, e_2),
{
    let names = node_names(kp_list);
    let fails_1 = exists|i: int| #[trigger]
        is_first_failing_member(kp_list, conn_list, e_module, area, i, e_1);
    let fails_2 = exists|i: int| #[trigger]
        is_first_failing_member(kp_list, conn_list, e_module, area, i, e_2);
    if fails_1 && fails_2 {
        let i_1 = choose|i: int| #[trigger]
            is_first_failing_member(kp_list, conn_list, e_module, area, i, e_1);
        let i_2 = choose|i: int| #[trigger]
            is_first_failing_member(kp_list, conn_list, e_module, area, i, e_2);
        lemma_first_failing_member_is_unique(
            kp_list,
            conn_list,
            e_module,
            area,
            i_1,
            e_1,
            i_2,
            e_2,
        );
    } else if fails_1 {
        let i_1 = choose|i: int| #[trigger]
            is_first_failing_member(kp_list, conn_list, e_module, area, i, e_1);
        let k = choose|k: Seq<Seq<T>>|
            {
                &&& #[trigger] is_global_stiffness_matrix(kp_list, conn_list, e_module, area, k)
                &&& is_failure_after_assembly(names, bc_list, pl_list, k, solve, e_2)
            };
        lemma_assembly_succeeds_or_fails(kp_list, conn_list, e_module, area, k, i_1, e_1);
    } else if fails_2 {
        let i_2 = choose|i: int| #[trigger]
            is_first_failing_member(kp_list, conn_list, e_module, area, i, e_2);
        let k = choose|k: Seq<Seq<T>>|
            {
                &&& #[trigger] is_global_stiffness_matrix(kp_list, conn_list, e_module, area, k)
                &&& is_failure_after_assembly(names, bc_list, pl_list, k, solve, e_1)
            };
        lemma_assembly_succeeds_or_fails(kp_list, conn_list, e_module, area, k, i_2, e_2);
    } else {
        let k_1 = choose|k: Seq<Seq<T>>|
            {
                &&& #[trigger] is_global_stiffness_matrix(kp_list, conn_list, e_module, area, k)
                &&& is_failure_after_assembly(names, bc_list, pl_list, k, solve, e_1)
            };
        let k_2 = choose|k: Seq<Seq<T>>|
            {
                &&& #[trigger] is_global_stiffness_matrix(kp_list, conn_list, e_module, area, k)
                &&& is_failure_after_assembly(names, bc_list, pl_list, k, solve, e_2)
            };
        lemma_global_stiffness_matrix_is_unique(kp_list, conn_list, e_module, area, k_1, k_2);
        lemma_failure_after_assembly_is_unique(names, bc_list, pl_list, k_1, solve, e_1, e_2);
    }
}

/// A run that reached its end had no step that fails.
proof fn lemma_success_excludes_failure<T: Scalar, S: FnOnce(Matrix<T>, Vec<T>) -> Option<Vec<T>>>(
    kp_list: Seq<Keypoint<T>>,
    conn_list: Seq<Connection>,
    bc_list: Seq<BoundaryCondition<T>>,
    pl_list: Seq<Pointload<T>>,
    e_module: T,
    area: T,
    solve: S,
    steps: Steps<T>,
    e: TrussError,
)
    requires
        is_deterministic::<T>(),
        is_solver_function(solve),
        is_run(kp_list, conn_list, bc_list, pl_list, e_module, area, solve, Ok(steps)),
    ensures
        !is_run(kp_list, conn_list, bc_list, pl_list, e_module, area, solve, Err(e)),
{
    let names = node_names(kp_list);
    if !is_run(kp_list, conn_list, bc_list, pl_list, e_module, area, solve, Err(e)) {
    } else if exists|i: int| #[trigger]
        is_first_failing_member(kp_list, conn_list, e_module, area, i, e) {
        let i = choose|i: int| #[trigger]
            is_first_failing_member(kp_list, conn_list, e_module, area, i, e);
        lemma_assembly_succeeds_or_fails(kp_list, conn_list, e_module, area, steps.stiffness, i, e);
    } else {
        let k = choose|k: Seq<Seq<T>>|
            {
                &&& #[trigger] is_global_stiffness_matrix(kp_list, conn_list, e_module, area, k)
                &&& is_failure_after_assembly(names, bc_list, pl_list, k, solve, e)
            };
        lemma_global_stiffness_matrix_is_unique(
            kp_list,
            conn_list,
            e_module,
            area,
            k,
            steps.stiffness,
        );
        lemma_failure_step(names, bc_list, pl_list, k, solve, e);
        if failure_step(names, bc_list, pl_list, k, solve, e) == 2 {
            let (filter, force, modified) = choose|
                filter: Seq<DofConstraint<T>>,
                force: Seq<T>,
                modified: Seq<Seq<T>>,
            |
                {
                    &&& #[trigger] is_dof_filter(names, bc_list, filter)
                    &&& #[trigger] is_force_vector(names, pl_list, force)
                    &&& #[trigger] is_spring_augmented(k, filter, modified)
                    &&& is_displacement(modified, filter, force, solve, Err(e))
                };
            lemma_dof_filter_is_unique(names, bc_list, filter, steps.filter);
            lemma_force_vector_is_unique(names, pl_list, force, steps.force);
            lemma_spring_augmented_is_unique(k, filter, modified, steps.modified);
            lemma_displacement_is_unique(
                modified,
                filter,
                force,
                solve,
                Err(e),
                Ok(steps.displacement),
            );
        }
    }
}

} // verus!
