use truss_solver::data_formatting::generate_result_structs::generate_result_keypoint;
use truss_solver::error::TrussError;
use truss_solver::fe_engine::dof_filter_vector::{create_dof_filter_vector, DofConstraint};
use truss_solver::fe_engine::force_vector::create_force_vector;
use truss_solver::fe_engine::global_stiffness_matrix::{
    apply_boundary_conditions, calculate_resulting_displacement_vector,
    calculate_resulting_force_vector,
};
use truss_solver::fe_engine::reduction::{expand_displacement_vector, reduce_system};
use truss_solver::fe_engine::stiffness_matrix::create_global_unit_matrix;
use truss_solver::fe_engine::utils::global_stiffness_matrix_keypoint_hashmap;
use truss_solver::input::boundary_condition::{BoundaryCondition, Fixture, SupportMode};
use truss_solver::input::keypoint::Keypoint;
use truss_solver::input::pointload::Pointload;
use truss_solver::matrix::Matrix;
use truss_solver::scalar::Scalar;

#[derive(Debug, Clone, Copy, PartialEq)]
struct Real(f64);

impl Scalar for Real {
    fn zero() -> Self {
        Real(0.0)
    }

    fn one() -> Self {
        Real(1.0)
    }

    fn plus(self, rhs: Self) -> Self {
        Real(self.0 + rhs.0)
    }

    fn minus(self, rhs: Self) -> Self {
        Real(self.0 - rhs.0)
    }

    fn times(self, rhs: Self) -> Self {
        Real(self.0 * rhs.0)
    }

    fn over(self, rhs: Self) -> Self {
        Real(self.0 / rhs.0)
    }

    fn negated(self) -> Self {
        Real(-self.0)
    }

    fn norm(self, other: Self) -> Self {
        Real(nalgebra::Vector2::new(self.0, other.0).norm())
    }

    fn equals(self, rhs: Self) -> bool {
        self.0 == rhs.0
    }

    fn exceeds(self, rhs: Self) -> bool {
        self.0 > rhs.0
    }

    fn is_finite(self) -> bool {
        self.0.is_finite()
    }

    fn parse(text: &str) -> Option<Self> {
        text.parse::<f64>().ok().map(Real)
    }
}

fn node(name: &str, x: f64, y: f64) -> Keypoint<Real> {
    Keypoint {
        name: name.to_string(),
        x: Real(x),
        y: Real(y),
        fx: Real(0.0),
        fy: Real(0.0),
        ux: Real(0.0),
        uy: Real(0.0),
    }
}

fn load(name: &str, keypoint: &str, load_x: f64, load_y: f64) -> Pointload<Real> {
    Pointload {
        name: name.to_string(),
        keypoint: keypoint.to_string(),
        load_x: Real(load_x),
        load_y: Real(load_y),
    }
}

fn matrix(rows: &[&[f64]]) -> Matrix<Real> {
    Matrix::from_rows(rows.iter().map(|row| row.iter().map(|v| Real(*v)).collect()).collect()).unwrap()
}

fn reals(values: &[f64]) -> Vec<Real> {
    values.iter().map(|v| Real(*v)).collect()
}

fn floats(values: &[Real]) -> Vec<f64> {
    values.iter().map(|v| v.0).collect()
}

fn entries(m: &Matrix<Real>) -> Vec<Vec<f64>> {
    (0..m.size()).map(|r| (0..m.size()).map(|c| m.get(r, c).0).collect()).collect()
}

#[test]
fn each_node_gets_two_degrees_of_freedom_in_order() {
    let nodes = vec![node("A", 0.0, 0.0), node("B", 1.0, 0.0), node("C", 2.0, 0.0)];
    let map = global_stiffness_matrix_keypoint_hashmap(&nodes);
    assert_eq!(map.len(), 3);
    assert_eq!(map.get("A"), Some(&0));
    assert_eq!(map.get("B"), Some(&2));
    assert_eq!(map.get("C"), Some(&4));
    assert_eq!(map.get("D"), None);
}

#[test]
fn of_two_nodes_with_one_name_the_later_is_found() {
    let nodes = vec![node("A", 0.0, 0.0), node("B", 1.0, 0.0), node("A", 2.0, 0.0)];
    let map = global_stiffness_matrix_keypoint_hashmap(&nodes);
    assert_eq!(map.len(), 2);
    assert_eq!(map.get("A"), Some(&4));
    assert_eq!(map.get("B"), Some(&2));
}

#[test]
fn empty_node_list_has_an_empty_map() {
    let nodes: Vec<Keypoint<Real>> = Vec::new();
    let map = global_stiffness_matrix_keypoint_hashmap(&nodes);
    assert!(map.is_empty());
}

#[test]
fn unsupported_degrees_of_freedom_are_free() {
    let nodes = vec![node("A", 0.0, 0.0), node("B", 1.0, 0.0)];
    let supports: Vec<BoundaryCondition<Real>> = Vec::new();
    let filter = create_dof_filter_vector(&nodes, &supports).unwrap();
    assert_eq!(filter.len(), 4);
    assert!(filter.iter().all(|state| matches!(state, DofConstraint::Free)));
}

#[test]
fn fixture_chooses_the_degrees_of_freedom() {
    let nodes = vec![node("A", 0.0, 0.0), node("B", 1.0, 0.0), node("C", 2.0, 0.0)];
    let supports = vec![
        BoundaryCondition {
            name: "x".to_string(),
            keypoint: "A".to_string(),
            fixture: Fixture::X,
            mode: SupportMode::Fixed,
        },
        BoundaryCondition {
            name: "y".to_string(),
            keypoint: "B".to_string(),
            fixture: Fixture::Y,
            mode: SupportMode::Spring(Real(12.5)),
        },
        BoundaryCondition {
            name: "both".to_string(),
            keypoint: "C".to_string(),
            fixture: Fixture::Both,
            mode: SupportMode::Spring(Real(3.0)),
        },
    ];
    let filter = create_dof_filter_vector(&nodes, &supports).unwrap();
    assert!(matches!(filter[0], DofConstraint::Fixed));
    assert!(matches!(filter[1], DofConstraint::Free));
    assert!(matches!(filter[2], DofConstraint::Free));
    assert!(matches!(filter[3], DofConstraint::Spring(Real(k)) if k == 12.5));
    assert!(matches!(filter[4], DofConstraint::Spring(Real(k)) if k == 3.0));
    assert!(matches!(filter[5], DofConstraint::Spring(Real(k)) if k == 3.0));
}

#[test]
fn first_support_without_a_node_is_named() {
    let nodes = vec![node("A", 0.0, 0.0)];
    let supports = vec![
        BoundaryCondition {
            name: "one".to_string(),
            keypoint: "A".to_string(),
            fixture: Fixture::X,
            mode: SupportMode::Fixed,
        },
        BoundaryCondition {
            name: "two".to_string(),
            keypoint: "B".to_string(),
            fixture: Fixture::X,
            mode: SupportMode::<Real>::Fixed,
        },
        BoundaryCondition {
            name: "three".to_string(),
            keypoint: "C".to_string(),
            fixture: Fixture::X,
            mode: SupportMode::Fixed,
        },
    ];
    let filter = create_dof_filter_vector(&nodes, &supports);
    assert_eq!(filter.err(), Some(TrussError::UnknownNodeReference("two".to_string())));
}

#[test]
fn loads_on_one_node_add_up() {
    let nodes = vec![node("A", 0.0, 0.0), node("B", 1.0, 0.0)];
    let loads = vec![
        load("first", "B", 100.0, -5.0),
        load("second", "A", 1.0, 2.0),
        load("third", "B", 20.0, -0.5),
    ];
    let force = create_force_vector(&nodes, &loads).unwrap();
    assert_eq!(floats(&force), vec![1.0, 2.0, 120.0, -5.5]);
}

#[test]
fn unloaded_degrees_of_freedom_carry_zero() {
    let nodes = vec![node("A", 0.0, 0.0), node("B", 1.0, 0.0)];
    let loads: Vec<Pointload<Real>> = Vec::new();
    let force = create_force_vector(&nodes, &loads).unwrap();
    assert_eq!(floats(&force), vec![0.0, 0.0, 0.0, 0.0]);
}

#[test]
fn first_load_without_a_node_is_named() {
    let nodes = vec![node("A", 0.0, 0.0)];
    let loads = vec![load("here", "A", 1.0, 1.0), load("there", "B", 1.0, 1.0)];
    let force = create_force_vector(&nodes, &loads);
    assert_eq!(force.err(), Some(TrussError::UnknownNodeReference("there".to_string())));
}

#[test]
fn unit_matrix_has_ones_on_the_diagonal_only() {
    let nodes = vec![node("A", 0.0, 0.0), node("B", 1.0, 0.0)];
    let unit = create_global_unit_matrix(&nodes);
    assert_eq!(
        entries(&unit),
        vec![
            vec![1.0, 0.0, 0.0, 0.0],
            vec![0.0, 1.0, 0.0, 0.0],
            vec![0.0, 0.0, 1.0, 0.0],
            vec![0.0, 0.0, 0.0, 1.0],
        ]
    );
}

#[test]
fn springs_touch_their_own_diagonal_entry_only() {
    let k = matrix(&[&[1.0, 2.0, 3.0], &[4.0, 5.0, 6.0], &[7.0, 8.0, 9.0]]);
    let filter = vec![DofConstraint::Spring(Real(10.0)), DofConstraint::Fixed, DofConstraint::Free];
    let modified = apply_boundary_conditions(&k, &filter);
    assert_eq!(
        entries(&modified),
        vec![vec![11.0, 2.0, 3.0], vec![4.0, 5.0, 6.0], vec![7.0, 8.0, 9.0]]
    );
    assert_eq!(entries(&k), vec![vec![1.0, 2.0, 3.0], vec![4.0, 5.0, 6.0], vec![7.0, 8.0, 9.0]]);
}

#[test]
fn reduction_drops_the_fixed_rows_and_columns() {
    let k = matrix(&[
        &[11.0, 12.0, 13.0, 14.0],
        &[21.0, 22.0, 23.0, 24.0],
        &[31.0, 32.0, 33.0, 34.0],
        &[41.0, 42.0, 43.0, 44.0],
    ]);
    let force = reals(&[1.0, 2.0, 3.0, 4.0]);
    let filter = vec![
        DofConstraint::Fixed,
        DofConstraint::Spring(Real(5.0)),
        DofConstraint::Fixed,
        DofConstraint::Free,
    ];
    let (reduced_k, reduced_f) = reduce_system(&k, &force, &filter);
    assert_eq!(entries(&reduced_k), vec![vec![22.0, 24.0], vec![42.0, 44.0]]);
    assert_eq!(floats(&reduced_f), vec![2.0, 4.0]);
}

#[test]
fn reduction_of_a_free_system_changes_nothing() {
    let k = matrix(&[&[1.0, 2.0], &[3.0, 4.0]]);
    let force = reals(&[5.0, 6.0]);
    let filter: Vec<DofConstraint<Real>> = vec![DofConstraint::Free, DofConstraint::Free];
    let (reduced_k, reduced_f) = reduce_system(&k, &force, &filter);
    assert_eq!(entries(&reduced_k), vec![vec![1.0, 2.0], vec![3.0, 4.0]]);
    assert_eq!(floats(&reduced_f), vec![5.0, 6.0]);
}

#[test]
fn expansion_puts_zero_at_the_fixed_places() {
    let filter = vec![
        DofConstraint::Fixed,
        DofConstraint::Spring(Real(5.0)),
        DofConstraint::Fixed,
        DofConstraint::Free,
    ];
    let full = expand_displacement_vector(Some(reals(&[0.25, -0.5])), &filter).unwrap();
    assert_eq!(floats(&full), vec![0.0, 0.25, 0.0, -0.5]);
}

#[test]
fn missing_solution_is_a_singular_system() {
    let filter: Vec<DofConstraint<Real>> = vec![DofConstraint::Free];
    assert_eq!(expand_displacement_vector(None, &filter), Err(TrussError::SingularSystem));
}

#[test]
fn solution_of_the_wrong_length_is_a_singular_system() {
    let filter: Vec<DofConstraint<Real>> = vec![DofConstraint::Free, DofConstraint::Fixed];
    assert_eq!(
        expand_displacement_vector(Some(reals(&[1.0, 2.0])), &filter),
        Err(TrussError::SingularSystem)
    );
    assert_eq!(
        expand_displacement_vector(Some(reals(&[])), &filter),
        Err(TrussError::SingularSystem)
    );
}

#[test]
fn solution_that_is_not_finite_is_a_singular_system() {
    let filter: Vec<DofConstraint<Real>> = vec![DofConstraint::Free, DofConstraint::Free];
    assert_eq!(
        expand_displacement_vector(Some(reals(&[1.0, f64::NAN])), &filter),
        Err(TrussError::SingularSystem)
    );
    assert_eq!(
        expand_displacement_vector(Some(reals(&[f64::INFINITY, 1.0])), &filter),
        Err(TrussError::SingularSystem)
    );
}

#[test]
fn solver_sees_the_reduced_system() {
    let k = matrix(&[&[2.0, 9.0, 0.0], &[9.0, 9.0, 9.0], &[0.0, 9.0, 4.0]]);
    let force = reals(&[6.0, 100.0, 2.0]);
    let filter: Vec<DofConstraint<Real>> =
        vec![DofConstraint::Free, DofConstraint::Fixed, DofConstraint::Free];
    let u = calculate_resulting_displacement_vector(&k, &force, &filter, |m: Matrix<Real>, f: Vec<Real>| {
        assert_eq!(entries(&m), vec![vec![2.0, 0.0], vec![0.0, 4.0]]);
        assert_eq!(floats(&f), vec![6.0, 2.0]);
        Some(vec![Real(3.0), Real(0.5)])
    });
    assert_eq!(floats(&u.unwrap()), vec![3.0, 0.0, 0.5]);
}

#[test]
fn solver_is_not_asked_where_nothing_is_left() {
    let k = matrix(&[&[2.0, 1.0], &[1.0, 2.0]]);
    let force = reals(&[6.0, 2.0]);
    let filter: Vec<DofConstraint<Real>> = vec![DofConstraint::Fixed, DofConstraint::Fixed];
    let u = calculate_resulting_displacement_vector(&k, &force, &filter, |_, _| {
        unreachable!()
    });
    assert_eq!(floats(&u.unwrap()), vec![0.0, 0.0]);
}

#[test]
fn force_recovery_multiplies_matrix_and_vector() {
    let k = matrix(&[&[1.0, 2.0, 3.0], &[4.0, 5.0, 6.0], &[7.0, 8.0, 9.0]]);
    let u = reals(&[1.0, -1.0, 2.0]);
    let force = calculate_resulting_force_vector(&k, &u);
    assert_eq!(floats(&force), vec![5.0, 11.0, 17.0]);
}

#[test]
fn results_are_written_onto_their_nodes() {
    let mut nodes = vec![node("A", 0.5, 1.5), node("B", 2.5, 3.5)];
    let force = reals(&[1.0, 2.0, 3.0, 4.0]);
    let displacement = reals(&[0.1, 0.2, 0.3, 0.4]);
    generate_result_keypoint(&mut nodes, &force, &displacement);
    assert_eq!(nodes[0].name, "A");
    assert_eq!((nodes[0].x.0, nodes[0].y.0), (0.5, 1.5));
    assert_eq!((nodes[0].fx.0, nodes[0].fy.0), (1.0, 2.0));
    assert_eq!((nodes[0].ux.0, nodes[0].uy.0), (0.1, 0.2));
    assert_eq!(nodes[1].name, "B");
    assert_eq!((nodes[1].x.0, nodes[1].y.0), (2.5, 3.5));
    assert_eq!((nodes[1].fx.0, nodes[1].fy.0), (3.0, 4.0));
    assert_eq!((nodes[1].ux.0, nodes[1].uy.0), (0.3, 0.4));
}

#[test]
fn matrix_is_built_filled_and_changed_cell_by_cell() {
    let mut m = Matrix::filled(3, Real(7.0));
    assert_eq!(m.size(), 3);
    m.set(1, 2, Real(-1.0));
    assert_eq!(entries(&m), vec![vec![7.0, 7.0, 7.0], vec![7.0, 7.0, -1.0], vec![7.0, 7.0, 7.0]]);
    let copy = m.duplicate();
    m.set(0, 0, Real(0.0));
    assert_eq!(copy.get(0, 0), Real(7.0));
    assert_eq!(copy.get(1, 2), Real(-1.0));
    assert_eq!(m.get(0, 0), Real(0.0));
}

#[test]
fn matrix_must_be_square() {
    assert!(Matrix::from_rows(vec![vec![Real(1.0), Real(2.0)]]).is_none());
    assert!(Matrix::from_rows(vec![vec![Real(1.0)], vec![Real(2.0)]]).is_none());
    assert!(Matrix::from_rows(vec![vec![Real(1.0), Real(2.0)], vec![Real(3.0)]]).is_none());
    assert_eq!(Matrix::<Real>::from_rows(Vec::new()).map(|m| m.size()), Some(0));
    assert_eq!(Matrix::from_rows(vec![vec![Real(1.0)]]).map(|m| m.get(0, 0)), Some(Real(1.0)));
}
