//! One run, from the model to the results on its nodes.
use vstd::prelude::*;
use crate::data_formatting::generate_result_structs::{
    first_dof_of_node, generate_result_keypoint, is_merged,
};
use crate::error::{is_unknown_reference, TrussError};
use crate::fe_engine::dof_filter_vector::{
    constraint_after, create_dof_filter_vector, support_refs, DofConstraint,
};
use crate::fe_engine::force_vector::{create_force_vector, is_load_vector, load_refs};
use crate::fe_engine::global_stiffness_matrix::{
    apply_boundary_conditions, calculate_resulting_displacement_vector,
    calculate_resulting_force_vector, create_global_stiffness_matrix, is_dot_product,
    is_first_failing_member, is_global_stiffness_matrix, is_reduced_solution, is_spring_augmented,
};
use crate::fe_engine::reduction::is_expansion_outcome;
use crate::fe_engine::utils::{all_known, is_first_unknown, node_names};
use crate::input::boundary_condition::BoundaryCondition;
use crate::input::connection::Connection;
use crate::input::keypoint::Keypoint;
use crate::input::pointload::Pointload;
use crate::matrix::Matrix;
use crate::scalar::{is_zero, Scalar};

verus! {

/// What one run has computed, step by step.
#[derive(Debug)]
pub struct Analysis<T> {
    /// The global stiffness matrix as assembled, before any support is applied.
    pub global_stiffness_matrix: Matrix<T>,
    /// The state of every degree of freedom.
    pub dof_filter_vector: Vec<DofConstraint<T>>,
    /// The applied force on every degree of freedom.
    pub force_vector: Vec<T>,
    /// The global stiffness matrix with the springs added.
    pub modified_global_stiffness_matrix: Matrix<T>,
    /// The displacement of every degree of freedom.
    pub resulting_displacement_vector: Vec<T>,
    /// The force on every degree of freedom, applied or reacting.
    pub resulting_force_vector: Vec<T>,
}

/// The steps of a run as mathematical values.
pub struct Steps<T> {
    /// The global stiffness matrix as assembled.
    pub stiffness: Seq<Seq<T>>,
    /// The state of every degree of freedom.
    pub filter: Seq<DofConstraint<T>>,
    /// The applied force on every degree of freedom.
    pub force: Seq<T>,
    /// The global stiffness matrix with the springs added.
    pub modified: Seq<Seq<T>>,
    /// The displacement of every degree of freedom.
    pub displacement: Seq<T>,
    /// The force on every degree of freedom, applied or reacting.
    pub recovered: Seq<T>,
}

impl<T> View for Analysis<T> {
    type V = Steps<T>;

    open spec fn view(&self) -> Steps<T> {
        Steps {
            stiffness: self.global_stiffness_matrix@,
            filter: self.dof_filter_vector@,
            force: self.force_vector@,
            modified: self.modified_global_stiffness_matrix@,
            displacement: self.resulting_displacement_vector@,
            recovered: self.resulting_force_vector@,
        }
    }
}

/// The state of every degree of freedom under the supports `bc_list`, all of
/// which name a node.
pub open spec fn is_dof_filter<T>(
    names: Seq<Seq<char>>,
    bc_list: Seq<BoundaryCondition<T>>,
    filter: Seq<DofConstraint<T>>,
) -> bool {
    &&& all_known(names, support_refs(bc_list))
    &&& filter.len() == 2 * names.len()
    &&& forall|dof: int|
        0 <= dof < filter.len() ==> #[trigger] filter[dof] == constraint_after(
            names,
            bc_list,
            bc_list.len(),
            dof,
        )
}

/// `force` holds the loads `pl_list`, all of which name a node, added up per
/// degree of freedom.
pub open spec fn is_force_vector<T: Scalar>(
    names: Seq<Seq<char>>,
    pl_list: Seq<Pointload<T>>,
    force: Seq<T>,
) -> bool {
    &&& all_known(names, load_refs(pl_list))
    &&& exists|z: T|
        #![trigger is_load_vector(names, pl_list, z, force)]
        is_zero(z) && is_load_vector(names, pl_list, z, force)
}

/// `recovered` is the product of the matrix `k` with the vector `u`.
pub open spec fn is_matrix_vector_product<T: Scalar>(
    k: Seq<Seq<T>>,
    u: Seq<T>,
    recovered: Seq<T>,
) -> bool {
    &&& recovered.len() == u.len()
    &&& forall|i: int|
        0 <= i < recovered.len() ==> is_dot_product(k[i], u, #[trigger] recovered[i])
}

/// What a run comes to: failure with an error, or the steps that it computed.
///
/// The steps come in this order, and the first that fails ends the run: the
/// members are assembled; the supports are encoded; the loads are added up; the
/// springs are added to a copy of the matrix, the fixed degrees of freedom are
/// taken out, `solve` is asked, and its answer is put back in place; the forces
/// are recovered from the matrix as assembled.
pub open spec fn is_run<T: Scalar, S: FnOnce(Matrix<T>, Vec<T>) -> Option<Vec<T>>>(
    kp_list: Seq<Keypoint<T>>,
    conn_list: Seq<Connection>,
    bc_list: Seq<BoundaryCondition<T>>,
    pl_list: Seq<Pointload<T>>,
    e_module: T,
    area: T,
    solve: S,
    outcome: Result<Steps<T>, TrussError>,
) -> bool {
    let names = node_names(kp_list);
    match outcome {
        Ok(steps) => {
            &&& is_global_stiffness_matrix(kp_list, conn_list, e_module, area, steps.stiffness)
            &&& is_dof_filter(names, bc_list, steps.filter)
            &&& is_force_vector(names, pl_list, steps.force)
            &&& is_spring_augmented(steps.stiffness, steps.filter, steps.modified)
            &&& is_displacement(
                steps.modified,
                steps.filter,
                steps.force,
                solve,
                Ok(steps.displacement),
            )
            &&& is_matrix_vector_product(steps.stiffness, steps.displacement, steps.recovered)
        },
        Err(e) => {
            ||| exists|i: int| #[trigger]
                is_first_failing_member(kp_list, conn_list, e_module, area, i, e)
            ||| exists|k: Seq<Seq<T>>|
                {
                    &&& #[trigger] is_global_stiffness_matrix(
                        kp_list,
                        conn_list,
                        e_module,
                        area,
                        k,
                    )
                    &&& is_failure_after_assembly(names, bc_list, pl_list, k, solve, e)
                }
        },
    }
}

/// With the matrix `k` assembled, the run fails with `e`: at the first support
/// that names no node; else at the first load that names no node; else because
/// the system has no usable solution.
pub open spec fn is_failure_after_assembly<
    T: Scalar,
    S: FnOnce(Matrix<T>, Vec<T>) -> Option<Vec<T>>,
>(
    names: Seq<Seq<char>>,
    bc_list: Seq<BoundaryCondition<T>>,
    pl_list: Seq<Pointload<T>>,
    k: Seq<Seq<T>>,
    solve: S,
    e: TrussError,
) -> bool {
    ||| exists|i: int|
        is_first_unknown(names, support_refs(bc_list), i) && is_unknown_reference(
            e,
            #[trigger] bc_list[i].name@,
        )
    ||| {
        &&& all_known(names, support_refs(bc_list))
        &&& exists|i: int|
            is_first_unknown(names, load_refs(pl_list), i) && is_unknown_reference(
                e,
                #[trigger] pl_list[i].name@,
            )
    }
    ||| exists|filter: Seq<DofConstraint<T>>, force: Seq<T>, modified: Seq<Seq<T>>|
        {
            &&& #[trigger] is_dof_filter(names, bc_list, filter)
            &&& #[trigger] is_force_vector(names, pl_list, force)
            &&& #[trigger] is_spring_augmented(k, filter, modified)
            &&& is_displacement(modified, filter, force, solve, Err(e))
        }
}

/// `outcome` is what solving `modified * u = force` for the displacements comes
/// to: the fixed degrees of freedom are taken out, `solve` answers, and the answer
/// is put back in place or found unusable.
pub open spec fn is_displacement<T: Scalar, S: FnOnce(Matrix<T>, Vec<T>) -> Option<Vec<T>>>(
    modified: Seq<Seq<T>>,
    filter: Seq<DofConstraint<T>>,
    force: Seq<T>,
    solve: S,
    outcome: Result<Seq<T>, TrussError>,
) -> bool {
    exists|solution: Option<Vec<T>>, result: Result<Vec<T>, TrussError>|
        {
            &&& #[trigger] is_reduced_solution(solve, modified, force, filter, solution)
            &&& #[trigger] is_expansion_outcome(solution, filter, result)
            &&& match (outcome, result) {
                (Ok(u), Ok(full)) => u == full@,
                (Err(e), Err(err)) => e == err,
                _ => false,
            }
        }
}

/// A fixed degree of freedom does not move: in every run that succeeds, its
/// displacement is zero.
pub proof fn lemma_fixed_dofs_do_not_move<
    T: Scalar,
    S: FnOnce(Matrix<T>, Vec<T>) -> Option<Vec<T>>,
>(
    kp_list: Seq<Keypoint<T>>,
    conn_list: Seq<Connection>,
    bc_list: Seq<BoundaryCondition<T>>,
    pl_list: Seq<Pointload<T>>,
    e_module: T,
    area: T,
    solve: S,
    steps: Steps<T>,
    dof: int,
)
    requires
        is_run(kp_list, conn_list, bc_list, pl_list, e_module, area, solve, Ok(steps)),
        0 <= dof < steps.filter.len(),
        steps.filter[dof] is Fixed,
    ensures
        steps.displacement.len() == steps.filter.len(),
        is_zero(steps.displacement[dof]),
{
}

/// Runs one analysis, writes the results onto the nodes, on each the force on it
/// and its displacement, and returns what the steps computed.
///
/// `solve` is handed the reduced system, a square matrix and a right-hand side of
/// its size, and answers with the solution, or with `None` where there is none.
///
/// On failure the nodes are left as they were. The errors, in the order in which
/// they are looked for: `UnknownNodeReference` or `DegenerateGeometry` for the
/// first member that has one; `UnknownNodeReference` for the first support, then
/// for the first load, that names no node; `SingularSystem` where `solve` finds no
/// solution or one that is not finite.
pub fn analyse<T: Scalar, S: FnOnce(Matrix<T>, Vec<T>) -> Option<Vec<T>>>(
    kp_list: &mut [Keypoint<T>],
    conn_list: &[Connection],
    bc_list: &[BoundaryCondition<T>],
    pl_list: &[Pointload<T>],
    e_module: T,
    area: T,
    solve: S,
) -> (result: Result<Analysis<T>, TrussError>)
    requires
        2 * old(kp_list)@.len() <= usize::MAX,
        forall|reduced_k: Matrix<T>, reduced_f: Vec<T>|
            reduced_k@.len() == reduced_f@.len() ==> call_requires(solve, (reduced_k, reduced_f)),
    ensures
        final(kp_list)@.len() == old(kp_list)@.len(),
        match result {
            Ok(run) => {
                &&& is_run(
                    old(kp_list)@,
                    conn_list@,
                    bc_list@,
                    pl_list@,
                    e_module,
                    area,
                    solve,
                    Ok(run@),
                )
                &&& forall|i: int|
                    0 <= i < old(kp_list)@.len() ==> is_merged(
                        old(kp_list)@[i],
                        first_dof_of_node(node_names(old(kp_list)@), i),
                        run.resulting_force_vector@,
                        run.resulting_displacement_vector@,
                        #[trigger] final(kp_list)@[i],
                    )
            },
            Err(e) => final(kp_list)@ == old(kp_list)@ && is_run(
                old(kp_list)@,
                conn_list@,
                bc_list@,
                pl_list@,
                e_module,
                area,
                solve,
                Err(e),
            ),
        },
{
    let ghost names = node_names(kp_list@);
    let k = match create_global_stiffness_matrix(kp_list, conn_list, e_module, area) {
        Ok(k) => k,
        Err(e) => {
            return Err(e);
        },
    };
    let filter = match create_dof_filter_vector(kp_list, bc_list) {
        Ok(filter) => filter,
        Err(e) => {
            assert(is_failure_after_assembly(names, bc_list@, pl_list@, k@, solve, e));
            return Err(e);
        },
    };
    assert(is_dof_filter(names, bc_list@, filter@));
    let force = match create_force_vector(kp_list, pl_list) {
        Ok(force) => force,
        Err(e) => {
            assert(is_failure_after_assembly(names, bc_list@, pl_list@, k@, solve, e));
            return Err(e);
        },
    };
    assert(is_force_vector(names, pl_list@, force@));
    let modified = apply_boundary_conditions(&k, filter.as_slice());
    let displaced = calculate_resulting_displacement_vector(
        &modified,
        &force,
        filter.as_slice(),
        solve,
    );
    proof {
        let solution = choose|solution: Option<Vec<T>>|
            is_reduced_solution(solve, modified@, force@, filter@, solution)
                && is_expansion_outcome(solution, filter@, displaced);
        assert(is_reduced_solution(solve, modified@, force@, filter@, solution));
        assert(is_expansion_outcome(solution, filter@, displaced));
    }
    let u = match displaced {
        Ok(u) => u,
        Err(e) => {
            assert(is_displacement(modified@, filter@, force@, solve, Err(e)));
            assert(is_failure_after_assembly(names, bc_list@, pl_list@, k@, solve, e));
            return Err(e);
        },
    };
    assert(is_displacement(modified@, filter@, force@, solve, Ok(u@)));
    let recovered = calculate_resulting_force_vector(&k, &u);
    assert(is_matrix_vector_product(k@, u@, recovered@));
    generate_result_keypoint(kp_list, &recovered, &u);
    Ok(
        Analysis {
            global_stiffness_matrix: k,
            dof_filter_vector: filter,
            force_vector: force,
            modified_global_stiffness_matrix: modified,
            resulting_displacement_vector: u,
            resulting_force_vector: recovered,
        },
    )
}

} // verus!
