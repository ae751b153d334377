//! The recovered forces are in equilibrium.
use vstd::prelude::*;
use crate::exact::{
    is_exact, lemma_exact_relations, lemma_negation_of_negation, lemma_negation_of_zero,
    lemma_product_distributes, lemma_product_of_negation, lemma_product_of_zero,
    lemma_product_with_zero, lemma_quotient_of_negation, lemma_running_sum_is_sum,
    lemma_sum_of_negations,
    lemma_sum_of_push, lemma_sum_of_sums, lemma_sum_of_spike, lemma_sum_of_zeros,
    lemma_sum_with_negation, lemma_sum_with_zero, Arithmetic,
};
use crate::error::TrussError;
use crate::fe_engine::analysis::{is_matrix_vector_product, is_run, Steps};
use crate::fe_engine::dof_filter_vector::DofConstraint;
use crate::fe_engine::reduction::{
    is_expansion_outcome, is_reduced_system, lemma_retained_dofs, retained_dofs,
};
use crate::input::boundary_condition::BoundaryCondition;
use crate::input::pointload::Pointload;
use crate::matrix::Matrix;
use crate::fe_engine::global_stiffness_matrix::{
    cell_terms, is_assembled_from, is_dot_product, is_global_stiffness_matrix, is_member_outcome,
    is_reduced_solution, local_dof, member_ends,
};
use crate::fe_engine::utils::{lemma_node_position_in_range, node_names};
use crate::input::connection::Connection;
use crate::input::keypoint::Keypoint;
use crate::material_formulation::local_stiffness_matrix_bar::{
    is_bar_derivation, is_local_bar_matrix, is_stiffness_term,
};
use crate::matrix::is_square;
use crate::scalar::{is_product, is_running_sum, is_zero, Scalar};

verus! {

/// In every column of `local`, the entries of the second end are the negations of
/// those of the first end: what a bar does to one end, it does the opposite of to
/// the other.
pub open spec fn has_opposite_ends<T: Scalar>(model: Arithmetic<T>, local: Seq<Seq<T>>) -> bool {
    &&& is_square(local, 4)
    &&& forall|b: int|
        0 <= b < 4 ==> #[trigger] local[2][b] == model.negated(local[0][b]) && local[3][b]
            == model.negated(local[1][b])
}

/// In exact arithmetic, the stiffness term of a negated cosine is the negation of
/// the term of the cosine.
proof fn lemma_stiffness_term_of_negation<T: Scalar>(
    model: Arithmetic<T>,
    u: T,
    w: T,
    e: T,
    a: T,
    len: T,
    plain: T,
    negated: T,
)
    requires
        is_exact(model),
        is_stiffness_term(u, w, e, a, len, plain),
        is_stiffness_term(model.negated(u), w, e, a, len, negated),
    ensures
        negated == model.negated(plain),
{
    lemma_exact_relations(model);
    let uw = model.times(u, w);
    let uwe = model.times(uw, e);
    let uwea = model.times(uwe, a);
    lemma_product_of_negation(model, u, w);
    lemma_product_of_negation(model, uw, e);
    lemma_product_of_negation(model, uwe, a);
    lemma_quotient_of_negation(model, uwea, len);
}

/// In exact arithmetic, the stiffness matrix of a bar has opposite ends.
pub proof fn lemma_bar_matrix_has_opposite_ends<T: Scalar>(
    model: Arithmetic<T>,
    kp_1: Keypoint<T>,
    kp_2: Keypoint<T>,
    e_module: T,
    area: T,
    k: Seq<Seq<T>>,
)
    requires
        is_exact(model),
        is_local_bar_matrix(kp_1, kp_2, e_module, area, k),
    ensures
        has_opposite_ends(model, k),
{
    lemma_exact_relations(model);
    let (dx, dy, len, c, s, nc, ns) = choose|dx: T, dy: T, len: T, c: T, s: T, nc: T, ns: T|
        #![trigger is_bar_derivation(kp_1, kp_2, e_module, area, dx, dy, len, c, s, nc, ns, k)]
        is_bar_derivation(kp_1, kp_2, e_module, area, dx, dy, len, c, s, nc, ns, k);
    lemma_stiffness_term_of_negation(model, c, c, e_module, area, len, k[0][0], k[0][2]);
    lemma_stiffness_term_of_negation(model, c, s, e_module, area, len, k[0][1], k[0][3]);
    lemma_stiffness_term_of_negation(model, s, s, e_module, area, len, k[1][1], k[1][3]);
    lemma_negation_of_negation(model, k[0][0]);
    lemma_negation_of_negation(model, k[0][1]);
    lemma_negation_of_negation(model, k[1][1]);
}

/// The value of the cell in row `r`, column `c` once the first `count` members
/// have been added.
pub open spec fn cell_sum<T: Scalar>(
    model: Arithmetic<T>,
    names: Seq<Seq<char>>,
    conn_list: Seq<Connection>,
    locals: Seq<Seq<Seq<T>>>,
    count: nat,
    r: int,
    c: int,
) -> T {
    model.total(cell_terms(names, conn_list, locals, count, r, c))
}

/// The products of row `r` of the matrix of the first `count` members with `u`.
pub open spec fn row_products<T: Scalar>(
    model: Arithmetic<T>,
    names: Seq<Seq<char>>,
    conn_list: Seq<Connection>,
    locals: Seq<Seq<Seq<T>>>,
    count: nat,
    u: Seq<T>,
    r: int,
) -> Seq<T> {
    Seq::new(
        u.len(),
        |j: int| model.times(cell_sum(model, names, conn_list, locals, count, r, j), u[j]),
    )
}

/// The forces that the first `count` members exert on the degrees of freedom
/// under the displacements `u`.
pub open spec fn member_forces<T: Scalar>(
    model: Arithmetic<T>,
    names: Seq<Seq<char>>,
    conn_list: Seq<Connection>,
    locals: Seq<Seq<Seq<T>>>,
    count: nat,
    u: Seq<T>,
) -> Seq<T> {
    Seq::new(
        u.len(),
        |r: int| model.total(row_products(model, names, conn_list, locals, count, u, r)),
    )
}

/// What the member in position `m` adds to the cell in row `r`, column `c`: its
/// entry for that cell, or zero where it does not touch the cell.
pub open spec fn member_share<T: Scalar>(
    model: Arithmetic<T>,
    names: Seq<Seq<char>>,
    conn_list: Seq<Connection>,
    locals: Seq<Seq<Seq<T>>>,
    m: int,
    r: int,
    c: int,
) -> T {
    match member_ends(names, conn_list[m]) {
        Some((near, far)) => match (local_dof(near, far, r), local_dof(near, far, c)) {
            (Some(a), Some(b)) => locals[m][a][b],
            _ => model.zero,
        },
        None => model.zero,
    }
}

/// The force that the member in position `m` alone exerts on the degree of freedom
/// `r` under the displacements `u`.
pub open spec fn share_force<T: Scalar>(
    model: Arithmetic<T>,
    names: Seq<Seq<char>>,
    conn_list: Seq<Connection>,
    locals: Seq<Seq<Seq<T>>>,
    m: int,
    u: Seq<T>,
    r: int,
) -> T {
    model.total(
        Seq::new(
            u.len(),
            |j: int| model.times(member_share(model, names, conn_list, locals, m, r, j), u[j]),
        ),
    )
}

/// Every one of the first `count` members joins two different nodes of the list,
/// and its matrix has opposite ends.
pub open spec fn members_are_sound<T: Scalar>(
    model: Arithmetic<T>,
    names: Seq<Seq<char>>,
    conn_list: Seq<Connection>,
    locals: Seq<Seq<Seq<T>>>,
    count: nat,
) -> bool {
    &&& count <= conn_list.len()
    &&& count <= locals.len()
    &&& forall|m: int|
        0 <= m < count ==> {
            &&& #[trigger] member_ends(names, conn_list[m]) matches Some((near, far))
            &&& near != far
            &&& 0 <= near < names.len()
            &&& 0 <= far < names.len()
            &&& has_opposite_ends(model, locals[m])
        }
}

/// A member adds its share to every cell.
proof fn lemma_cell_sum_step<T: Scalar>(
    model: Arithmetic<T>,
    names: Seq<Seq<char>>,
    conn_list: Seq<Connection>,
    locals: Seq<Seq<Seq<T>>>,
    count: nat,
    r: int,
    c: int,
)
    requires
        is_exact(model),
    ensures
        cell_sum(model, names, conn_list, locals, count + 1, r, c) == model.plus(
            cell_sum(model, names, conn_list, locals, count, r, c),
            member_share(model, names, conn_list, locals, count as int, r, c),
        ),
{
    let before = cell_terms(names, conn_list, locals, count, r, c);
    let share = member_share(model, names, conn_list, locals, count as int, r, c);
    lemma_sum_with_zero(model, model.total(before));
    lemma_sum_of_push(model, before, share);
}

/// A member adds the force of its share to the force on every degree of freedom.
proof fn lemma_force_step<T: Scalar>(
    model: Arithmetic<T>,
    names: Seq<Seq<char>>,
    conn_list: Seq<Connection>,
    locals: Seq<Seq<Seq<T>>>,
    count: nat,
    u: Seq<T>,
    r: int,
)
    requires
        is_exact(model),
        0 <= r < u.len(),
    ensures
        member_forces(model, names, conn_list, locals, count + 1, u)[r] == model.plus(
            member_forces(model, names, conn_list, locals, count, u)[r],
            share_force(model, names, conn_list, locals, count as int, u, r),
        ),
{
    let before = row_products(model, names, conn_list, locals, count, u, r);
    let after = row_products(model, names, conn_list, locals, count + 1, u, r);
    let added = Seq::new(
        u.len(),
        |j: int|
            model.times(member_share(model, names, conn_list, locals, count as int, r, j), u[j]),
    );
    assert forall|j: int| 0 <= j < u.len() implies after[j] == model.plus(before[j], added[j]) by {
        lemma_cell_sum_step(model, names, conn_list, locals, count, r, j);
        lemma_product_distributes(
        model,
            cell_sum(model, names, conn_list, locals, count, r, j),
            member_share(model, names, conn_list, locals, count as int, r, j),
            u[j],
        );
    }
    lemma_sum_of_sums(model, before, added, after);
}

/// The forces of one member's share on the two ends of the member are opposite,
/// and there is none on any other node.
proof fn lemma_share_forces_balance<T: Scalar>(
    model: Arithmetic<T>,
    names: Seq<Seq<char>>,
    conn_list: Seq<Connection>,
    locals: Seq<Seq<Seq<T>>>,
    m: int,
    u: Seq<T>,
)
    requires
        is_exact(model),
        u.len() == 2 * names.len(),
        members_are_sound(model, names, conn_list, locals, (m + 1) as nat),
        m >= 0,
    ensures
        model.total(
            Seq::new(u.len(), |r: int| share_force(model, names, conn_list, locals, m, u, r)),
        ) == model.zero,
{
    let ends = member_ends(names, conn_list[m]).unwrap();
    let near = ends.0;
    let far = ends.1;
    let n = u.len() as int;
    let shares = Seq::new(u.len(), |r: int| share_force(model, names, conn_list, locals, m, u, r));
    let z = model.zero;
    // The forces along x at the two ends, and those along y, as sequences of their own.
    let along_x = Seq::new(
        u.len(),
        |r: int|
            if r == 2 * near || r == 2 * far {
                shares[r]
            } else {
                z
            },
    );
    let along_y = Seq::new(
        u.len(),
        |r: int|
            if r == 2 * near + 1 || r == 2 * far + 1 {
                shares[r]
            } else {
                z
            },
    );
    assert forall|r: int| 0 <= r < n implies shares[r] == model.plus(along_x[r], along_y[r]) by {
        lemma_sum_with_zero(model, shares[r]);
        lemma_sum_with_zero(model, z);
        if local_dof(near, far, r) is None {
            lemma_untouched_row_has_no_force(model, names, conn_list, locals, m, u, r);
        }
    }
    lemma_sum_of_sums(model, along_x, along_y, shares);
    lemma_opposite_rows_have_opposite_forces(model, names, conn_list, locals, m, u, 0);
    lemma_opposite_rows_have_opposite_forces(model, names, conn_list, locals, m, u, 1);
    lemma_sum_of_opposite_pair(model, along_x, 2 * near, 2 * far);
    lemma_sum_of_opposite_pair(model, along_y, 2 * near + 1, 2 * far + 1);
    lemma_sum_with_zero(model, z);
}

/// A member exerts no force on a degree of freedom that it does not touch.
proof fn lemma_untouched_row_has_no_force<T: Scalar>(
    model: Arithmetic<T>,
    names: Seq<Seq<char>>,
    conn_list: Seq<Connection>,
    locals: Seq<Seq<Seq<T>>>,
    m: int,
    u: Seq<T>,
    r: int,
)
    requires
        is_exact(model),
        member_ends(names, conn_list[m]) matches Some((near, far)) && local_dof(near, far, r)
            is None,
    ensures
        share_force(model, names, conn_list, locals, m, u, r) == model.zero,
{
    let products = Seq::new(
        u.len(),
        |j: int| model.times(member_share(model, names, conn_list, locals, m, r, j), u[j]),
    );
    assert forall|j: int| 0 <= j < products.len() implies products[j] == model.zero by {
        lemma_product_of_zero(model, u[j]);
    }
    lemma_sum_of_zeros(model, products);
}

/// The force of a member's share on its second end is the negation of that on its
/// first end, along x (`axis` 0) and along y (`axis` 1).
proof fn lemma_opposite_rows_have_opposite_forces<T: Scalar>(
    model: Arithmetic<T>,
    names: Seq<Seq<char>>,
    conn_list: Seq<Connection>,
    locals: Seq<Seq<Seq<T>>>,
    m: int,
    u: Seq<T>,
    axis: int,
)
    requires
        is_exact(model),
        u.len() == 2 * names.len(),
        members_are_sound(model, names, conn_list, locals, (m + 1) as nat),
        m >= 0,
        0 <= axis < 2,
    ensures
        member_ends(names, conn_list[m]) matches Some((near, far)) && share_force(
        model,
            names,
            conn_list,
            locals,
            m,
            u,
            2 * far + axis,
        ) == model.negated(share_force(model, names, conn_list, locals, m, u, 2 * near + axis)),
{
    let ends = member_ends(names, conn_list[m]).unwrap();
    let near = ends.0;
    let far = ends.1;
    let first = Seq::new(
        u.len(),
        |j: int|
            model.times(member_share(model, names, conn_list, locals, m, 2 * near + axis, j), u[j]),
    );
    let second = Seq::new(
        u.len(),
        |j: int|
            model.times(member_share(model, names, conn_list, locals, m, 2 * far + axis, j), u[j]),
    );
    assert(local_dof(near, far, 2 * near + axis) == Some(axis));
    assert(local_dof(near, far, 2 * far + axis) == Some(2 + axis));
    assert forall|j: int| 0 <= j < u.len() implies second[j] == model.negated(first[j]) by {
        let x = member_share(model, names, conn_list, locals, m, 2 * near + axis, j);
        let y = member_share(model, names, conn_list, locals, m, 2 * far + axis, j);
        match local_dof(near, far, j) {
            Some(b) => {
                assert(locals[m][2][b] == model.negated(locals[m][0][b]));
                assert(y == model.negated(x));
            },
            None => {
                lemma_negation_of_zero(model);
            },
        }
        lemma_product_of_negation(model, x, u[j]);
    }
    lemma_sum_of_negations(model, first, second);
}

/// A sequence that holds a value in one place, its negation in another, and zero
/// elsewhere sums to zero.
proof fn lemma_sum_of_opposite_pair<T: Scalar>(
    model: Arithmetic<T>,
    terms: Seq<T>,
    place: int,
    other: int,
)
    requires
        is_exact(model),
        0 <= place < terms.len(),
        0 <= other < terms.len(),
        place != other,
        terms[other] == model.negated(terms[place]),
        forall|i: int|
            0 <= i < terms.len() && i != place && i != other ==> terms[i] == model.zero,
    ensures
        model.total(terms) == model.zero,
{
    let z = model.zero;
    let here = Seq::new(
        terms.len(),
        |i: int|
            if i == place {
                terms[i]
            } else {
                z
            },
    );
    let there = Seq::new(
        terms.len(),
        |i: int|
            if i == other {
                terms[i]
            } else {
                z
            },
    );
    assert forall|i: int| 0 <= i < terms.len() implies terms[i] == model.plus(
        here[i],
        there[i],
    ) by {
        lemma_sum_with_zero(model, terms[i]);
        lemma_sum_with_zero(model, z);
    }
    lemma_sum_of_sums(model, here, there, terms);
    lemma_sum_of_spike(model, here, place);
    lemma_sum_of_spike(model, there, other);
    lemma_sum_with_negation(model, terms[place]);
}

/// In exact arithmetic the forces that any number of sound members exert add up to
/// zero, whatever the displacements.
proof fn lemma_member_forces_balance<T: Scalar>(
    model: Arithmetic<T>,
    names: Seq<Seq<char>>,
    conn_list: Seq<Connection>,
    locals: Seq<Seq<Seq<T>>>,
    count: nat,
    u: Seq<T>,
)
    requires
        is_exact(model),
        u.len() == 2 * names.len(),
        members_are_sound(model, names, conn_list, locals, count),
    ensures
        model.total(member_forces(model, names, conn_list, locals, count, u)) == model.zero,
    decreases count,
{
    let forces = member_forces(model, names, conn_list, locals, count, u);
    if count == 0 {
        assert forall|r: int| 0 <= r < forces.len() implies forces[r] == model.zero by {
            let products = row_products(model, names, conn_list, locals, 0, u, r);
            assert forall|j: int| 0 <= j < products.len() implies products[j]
                == model.zero by {
                lemma_product_of_zero(model, u[j]);
            }
            lemma_sum_of_zeros(model, products);
        }
        lemma_sum_of_zeros(model, forces);
    } else {
        let m = (count - 1) as nat;
        lemma_member_forces_balance(model, names, conn_list, locals, m, u);
        let before = member_forces(model, names, conn_list, locals, m, u);
        let shares = Seq::new(
            u.len(),
            |r: int| share_force(model, names, conn_list, locals, m as int, u, r),
        );
        assert forall|r: int| 0 <= r < u.len() implies forces[r] == model.plus(
            before[r],
            shares[r],
        ) by {
            lemma_force_step(model, names, conn_list, locals, m, u, r);
        }
        lemma_sum_of_sums(model, before, shares, forces);
        lemma_share_forces_balance(model, names, conn_list, locals, m as int, u);
        lemma_sum_with_zero(model, model.zero);
    }
}

/// Reactions balance the applied loads: in exact arithmetic the forces recovered
/// from the global stiffness matrix, over all degrees of freedom, add up to zero,
/// whatever the displacements they are recovered from.
pub proof fn lemma_recovered_forces_balance<T: Scalar>(
    model: Arithmetic<T>,
    kp_list: Seq<Keypoint<T>>,
    conn_list: Seq<Connection>,
    e_module: T,
    area: T,
    k: Seq<Seq<T>>,
    u: Seq<T>,
    recovered: Seq<T>,
    z: T,
    total: T,
)
    requires
        is_exact(model),
        is_global_stiffness_matrix(kp_list, conn_list, e_module, area, k),
        u.len() == 2 * kp_list.len(),
        is_matrix_vector_product(k, u, recovered),
        is_zero(z),
        is_running_sum(z, recovered, total),
    ensures
        total == z,
{
    lemma_exact_relations(model);
    let names = node_names(kp_list);
    let (z_k, locals) = choose|z: T, locals: Seq<Seq<Seq<T>>>| #[trigger]
        is_assembled_from(kp_list, conn_list, e_module, area, z, locals, k);
    let count = conn_list.len();
    assert forall|m: int| 0 <= m < count implies {
        &&& #[trigger] member_ends(names, conn_list[m]) matches Some((near, far))
        &&& near != far
        &&& 0 <= near < names.len()
        &&& 0 <= far < names.len()
        &&& has_opposite_ends(model, locals[m])
    } by {
        assert(is_member_outcome(kp_list, conn_list[m], e_module, area, Ok(locals[m])));
        lemma_node_position_in_range(names, conn_list[m].kp_1@);
        lemma_node_position_in_range(names, conn_list[m].kp_2@);
        let ends = member_ends(names, conn_list[m]).unwrap();
        lemma_bar_matrix_has_opposite_ends(
        model,
            kp_list[ends.0],
            kp_list[ends.1],
            e_module,
            area,
            locals[m],
        );
    }
    lemma_member_forces_balance(model, names, conn_list, locals, count, u);
    let forces = member_forces(model, names, conn_list, locals, count, u);
    assert forall|r: int| 0 <= r < u.len() implies recovered[r] == forces[r] by {
        assert(is_dot_product(k[r], u, recovered[r]));
        let (z_r, products) = choose|z: T, products: Seq<T>|
            {
                &&& is_zero(z)
                &&& products.len() == u.len()
                &&& forall|j: int|
                    0 <= j < u.len() ==> is_product(k[r][j], u[j], #[trigger] products[j])
                &&& #[trigger] is_running_sum(z, products, recovered[r])
            };
        let expected = row_products(model, names, conn_list, locals, count, u, r);
        assert forall|j: int| 0 <= j < u.len() implies products[j] == expected[j] by {
            assert(is_product(k[r][j], u[j], products[j]));
            assert(is_running_sum(
                z_k,
                cell_terms(names, conn_list, locals, count, r, j),
                k[r][j],
            ));
            lemma_running_sum_is_sum(
        model,
                z_k,
                cell_terms(names, conn_list, locals, count, r, j),
                k[r][j],
            );
        }
        assert(products =~= expected);
        lemma_running_sum_is_sum(model, z_r, products, recovered[r]);
    }
    assert(recovered =~= forces);
    lemma_running_sum_is_sum(model, z, recovered, total);
}

/// The product of the matrix row `row` with the vector `u`.
pub open spec fn row_times<T: Scalar>(model: Arithmetic<T>, row: Seq<T>, u: Seq<T>) -> T {
    model.total(Seq::new(u.len(), |j: int| model.times(row[j], u[j])))
}

/// `s` solves the system `k * s = f`.
pub open spec fn is_solution<T: Scalar>(
    model: Arithmetic<T>,
    k: Seq<Seq<T>>,
    s: Seq<T>,
    f: Seq<T>,
) -> bool {
    &&& s.len() == f.len()
    &&& forall|m: int| 0 <= m < f.len() ==> row_times(model, k[m], s) == #[trigger] f[m]
}

/// What `solve` answers is a solution of the system it was handed.
pub open spec fn is_exact_solver<T: Scalar, S: FnOnce(Matrix<T>, Vec<T>) -> Option<Vec<T>>>(
    model: Arithmetic<T>,
    solve: S,
) -> bool {
    forall|k: Matrix<T>, f: Vec<T>, s: Vec<T>| #[trigger]
        call_ensures(solve, (k, f), Some(s)) ==> is_solution(model, k@, s@, f@)
}

/// In exact arithmetic a dot product that was computed is the product of row and
/// vector.
proof fn lemma_dot_product_is_row_times<T: Scalar>(
    model: Arithmetic<T>,
    row: Seq<T>,
    u: Seq<T>,
    out: T,
)
    requires
        is_exact(model),
        is_dot_product(row, u, out),
    ensures
        out == row_times(model, row, u),
{
    lemma_exact_relations(model);
    let (z, products) = choose|z: T, products: Seq<T>|
        {
            &&& is_zero(z)
            &&& products.len() == u.len()
            &&& forall|j: int| 0 <= j < u.len() ==> is_product(row[j], u[j], #[trigger] products[j])
            &&& #[trigger] is_running_sum(z, products, out)
        };
    let expected = Seq::new(u.len(), |j: int| model.times(row[j], u[j]));
    assert forall|j: int| 0 <= j < u.len() implies products[j] == expected[j] by {
        assert(is_product(row[j], u[j], products[j]));
    }
    assert(products =~= expected);
    lemma_running_sum_is_sum(model, z, products, out);
}

/// Leaving out terms that are zero does not change a sum: where `terms` is zero
/// at every fixed degree of freedom, its sum is the sum of its terms at the others.
proof fn lemma_sum_without_fixed<T: Scalar>(
    model: Arithmetic<T>,
    filter: Seq<DofConstraint<T>>,
    terms: Seq<T>,
)
    requires
        is_exact(model),
        terms.len() == filter.len(),
        forall|j: int| 0 <= j < filter.len() && filter[j] is Fixed ==> terms[j] == model.zero,
    ensures
        model.total(terms) == model.total(
            Seq::new(retained_dofs(filter).len(), |m: int| terms[retained_dofs(filter)[m]]),
        ),
    decreases filter.len(),
{
    let kept = retained_dofs(filter);
    let short = Seq::new(kept.len(), |m: int| terms[kept[m]]);
    if filter.len() > 0 {
        let front = filter.drop_last();
        let kept_front = retained_dofs(front);
        let short_front = Seq::new(kept_front.len(), |m: int| terms.drop_last()[kept_front[m]]);
        lemma_sum_without_fixed(model, front, terms.drop_last());
        lemma_retained_dofs(front);
        if filter.last() is Fixed {
            lemma_sum_with_zero(model, model.total(terms.drop_last()));
            assert(short =~= short_front);
        } else {
            assert(short.drop_last() =~= short_front);
        }
    } else {
        assert(short =~= Seq::<T>::empty());
    }
}

/// The equation of a degree of freedom that is solved for holds of the
/// displacements found: the row of the matrix with the springs added, times the
/// displacements, is the load.
proof fn lemma_equation_holds<T: Scalar, S: FnOnce(Matrix<T>, Vec<T>) -> Option<Vec<T>>>(
    model: Arithmetic<T>,
    kp_list: Seq<Keypoint<T>>,
    conn_list: Seq<Connection>,
    bc_list: Seq<BoundaryCondition<T>>,
    pl_list: Seq<Pointload<T>>,
    e_module: T,
    area: T,
    solve: S,
    steps: Steps<T>,
    dof: int,
)
    requires
        is_exact(model),
        is_exact_solver(model, solve),
        is_run(kp_list, conn_list, bc_list, pl_list, e_module, area, solve, Ok(steps)),
        0 <= dof < steps.filter.len(),
        !(steps.filter[dof] is Fixed),
    ensures
        row_times(model, steps.modified[dof], steps.displacement) == steps.force[dof],
{
    lemma_exact_relations(model);
    let filter = steps.filter;
    let kept = retained_dofs(filter);
    let u = steps.displacement;
    lemma_retained_dofs(filter);
    assert(kept.contains(dof));
    let at = choose|m: int| 0 <= m < kept.len() && kept[m] == dof;
    let (solution, result) = choose|
        solution: Option<Vec<T>>,
        result: Result<Vec<T>, TrussError>,
    |
        {
            &&& #[trigger] is_reduced_solution(
                solve,
                steps.modified,
                steps.force,
                filter,
                solution,
            )
            &&& #[trigger] is_expansion_outcome(solution, filter, result)
            &&& match (Ok::<Seq<T>, TrussError>(u), result) {
                (Ok(u), Ok(full)) => u == full@,
                (Err(e), Err(err)) => e == err,
                _ => false,
            }
        };
    let s = solution->Some_0;
    let (reduced_k, reduced_f) = choose|reduced_k: Matrix<T>, reduced_f: Vec<T>|
        is_reduced_system(steps.modified, steps.force, filter, reduced_k@, reduced_f@)
            && call_ensures(solve, (reduced_k, reduced_f), solution);
    assert(is_solution(model, reduced_k@, s@, reduced_f@));
    assert(reduced_f@[at] == steps.force[dof]);
    // The row of the reduced system is the row of the whole system without the
    // columns of the fixed degrees of freedom, at which nothing moves.
    let row = steps.modified[dof];
    let full = Seq::new(u.len(), |j: int| model.times(row[j], u[j]));
    let short = Seq::new(kept.len(), |m: int| full[kept[m]]);
    let reduced = Seq::new(s@.len(), |m: int| model.times(reduced_k@[at][m], s@[m]));
    assert forall|j: int| 0 <= j < filter.len() && filter[j] is Fixed implies full[j]
        == model.zero by {
        lemma_product_with_zero(model, row[j]);
    }
    lemma_sum_without_fixed(model, filter, full);
    assert forall|m: int| 0 <= m < kept.len() implies short[m] == reduced[m] by {
        assert(reduced_k@[at][m] == steps.modified[kept[at]][kept[m]]);
        assert(u[kept[m]] == s@[m]);
    }
    assert(short =~= reduced);
}

/// A free degree of freedom carries its load: in exact arithmetic, and with a
/// solver whose answers solve the system, the force recovered at a degree of
/// freedom that no support holds is the load applied to it.
pub proof fn lemma_free_dofs_carry_their_loads<
    T: Scalar,
    S: FnOnce(Matrix<T>, Vec<T>) -> Option<Vec<T>>,
>(
    model: Arithmetic<T>,
    kp_list: Seq<Keypoint<T>>,
    conn_list: Seq<Connection>,
    bc_list: Seq<BoundaryCondition<T>>,
    pl_list: Seq<Pointload<T>>,
    e_module: T,
    area: T,
    solve: S,
    steps: Steps<T>,
    dof: int,
)
    requires
        is_exact(model),
        is_exact_solver(model, solve),
        is_run(kp_list, conn_list, bc_list, pl_list, e_module, area, solve, Ok(steps)),
        0 <= dof < steps.filter.len(),
        steps.filter[dof] is Free,
    ensures
        steps.recovered[dof] == steps.force[dof],
{
    lemma_equation_holds(
        model,
        kp_list,
        conn_list,
        bc_list,
        pl_list,
        e_module,
        area,
        solve,
        steps,
        dof,
    );
    let u = steps.displacement;
    let plain = Seq::new(u.len(), |j: int| model.times(steps.stiffness[dof][j], u[j]));
    let sprung = Seq::new(u.len(), |j: int| model.times(steps.modified[dof][j], u[j]));
    assert(plain =~= sprung);
    lemma_dot_product_is_row_times(model, steps.stiffness[dof], u, steps.recovered[dof]);
}

/// A spring carries what its degree of freedom does not: in exact arithmetic, and
/// with a solver whose answers solve the system, the force recovered at a degree
/// of freedom that a spring holds, and the stiffness of the spring times the
/// displacement, add up to the load applied to it.
pub proof fn lemma_springs_carry_the_rest<
    T: Scalar,
    S: FnOnce(Matrix<T>, Vec<T>) -> Option<Vec<T>>,
>(
    model: Arithmetic<T>,
    kp_list: Seq<Keypoint<T>>,
    conn_list: Seq<Connection>,
    bc_list: Seq<BoundaryCondition<T>>,
    pl_list: Seq<Pointload<T>>,
    e_module: T,
    area: T,
    solve: S,
    steps: Steps<T>,
    dof: int,
)
    requires
        is_exact(model),
        is_exact_solver(model, solve),
        is_run(kp_list, conn_list, bc_list, pl_list, e_module, area, solve, Ok(steps)),
        0 <= dof < steps.filter.len(),
        steps.filter[dof] is Spring,
    ensures
        model.plus(
            steps.recovered[dof],
            model.times(steps.filter[dof]->Spring_0, steps.displacement[dof]),
        ) == steps.force[dof],
{
    lemma_exact_relations(model);
    lemma_equation_holds(
        model,
        kp_list,
        conn_list,
        bc_list,
        pl_list,
        e_module,
        area,
        solve,
        steps,
        dof,
    );
    let u = steps.displacement;
    let stiffness = steps.filter[dof]->Spring_0;
    let plain = Seq::new(u.len(), |j: int| model.times(steps.stiffness[dof][j], u[j]));
    let sprung = Seq::new(u.len(), |j: int| model.times(steps.modified[dof][j], u[j]));
    let spring = Seq::new(
        u.len(),
        |j: int|
            if j == dof {
                model.times(stiffness, u[j])
            } else {
                model.zero
            },
    );
    assert forall|j: int| 0 <= j < u.len() implies sprung[j] == model.plus(
        plain[j],
        spring[j],
    ) by {
        if j == dof {
            assert(steps.modified[dof][j] == model.plus(steps.stiffness[dof][j], stiffness));
            lemma_product_distributes(model, steps.stiffness[dof][j], stiffness, u[j]);
        } else {
            assert(steps.modified[dof][j] == steps.stiffness[dof][j]);
            lemma_sum_with_zero(model, plain[j]);
        }
    }
    lemma_sum_of_sums(model, plain, spring, sprung);
    lemma_sum_of_spike(model, spring, dof);
    lemma_dot_product_is_row_times(model, steps.stiffness[dof], u, steps.recovered[dof]);
}

} // verus!
