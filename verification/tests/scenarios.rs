use nalgebra::{DMatrix, DVector};
use truss_solver::error::TrussError;
use truss_solver::fe_engine::analysis::analyse;
use truss_solver::fe_engine::dof_filter_vector::{create_dof_filter_vector, DofConstraint};
use truss_solver::fe_engine::global_stiffness_matrix::{
    apply_boundary_conditions, calculate_resulting_force_vector, create_global_stiffness_matrix,
};
use truss_solver::input::boundary_condition::{BoundaryCondition, Fixture, SupportMode};
use truss_solver::input::connection::Connection;
use truss_solver::input::keypoint::Keypoint;
use truss_solver::input::pointload::Pointload;
use truss_solver::material_formulation::local_stiffness_matrix_bar::local_bar_matrix;
use truss_solver::matrix::Matrix;
use truss_solver::scalar::Scalar;

#[derive(Debug, Clone, Copy, PartialEq)]
struct Real(f64);

impl Scalar for Real {
    fn zero() -> Self {
        Real(0.0)
    }

    fn one() -> Self {
        Real(1.0)
    }

    fn plus(self, rhs: Self) -> Self {
        Real(self.0 + rhs.0)
    }

    fn minus(self, rhs: Self) -> Self {
        Real(self.0 - rhs.0)
    }

    fn times(self, rhs: Self) -> Self {
        Real(self.0 * rhs.0)
    }

    fn over(self, rhs: Self) -> Self {
        Real(self.0 / rhs.0)
    }

    fn negated(self) -> Self {
        Real(-self.0)
    }

    fn norm(self, other: Self) -> Self {
        Real(nalgebra::Vector2::new(self.0, other.0).norm())
    }

    fn equals(self, rhs: Self) -> bool {
        self.0 == rhs.0
    }

    fn exceeds(self, rhs: Self) -> bool {
        self.0 > rhs.0
    }

    fn is_finite(self) -> bool {
        self.0.is_finite()
    }

    fn parse(text: &str) -> Option<Self> {
        text.parse::<f64>().ok().map(Real)
    }
}

const E_MODULE: Real = Real(210000.0);
const AREA: Real = Real(0.1);

fn node(name: &str, x: f64, y: f64) -> Keypoint<Real> {
    Keypoint {
        name: name.to_string(),
        x: Real(x),
        y: Real(y),
        fx: Real(0.0),
        fy: Real(0.0),
        ux: Real(0.0),
        uy: Real(0.0),
    }
}

fn member(name: &str, kp_1: &str, kp_2: &str) -> Connection {
    Connection {
        name: name.to_string(),
        kp_1: kp_1.to_string(),
        kp_2: kp_2.to_string(),
        material: "steel".to_string(),
    }
}

fn support(name: &str, keypoint: &str, fixture: Fixture, mode: SupportMode<Real>) -> BoundaryCondition<Real> {
    BoundaryCondition { name: name.to_string(), keypoint: keypoint.to_string(), fixture, mode }
}

fn load(name: &str, keypoint: &str, load_x: f64, load_y: f64) -> Pointload<Real> {
    Pointload {
        name: name.to_string(),
        keypoint: keypoint.to_string(),
        load_x: Real(load_x),
        load_y: Real(load_y),
    }
}

fn lu_solve(k: Matrix<Real>, f: Vec<Real>) -> Option<Vec<Real>> {
    let n = k.size();
    let matrix = DMatrix::from_fn(n, n, |r, c| k.get(r, c).0);
    let rhs = DVector::from_fn(n, |r, _| f[r].0);
    let solution = matrix.lu().solve(&rhs)?;
    Some(solution.iter().map(|v| Real(*v)).collect())
}

fn least_squares_solve(k: Matrix<Real>, f: Vec<Real>) -> Option<Vec<Real>> {
    let n = k.size();
    let matrix = DMatrix::from_fn(n, n, |r, c| k.get(r, c).0);
    let rhs = DVector::from_fn(n, |r, _| f[r].0);
    let solution = matrix.svd(true, true).solve(&rhs, 1e-9).ok()?;
    Some(solution.iter().map(|v| Real(*v)).collect())
}

fn close(a: f64, b: f64) -> bool {
    (a - b).abs() <= 1e-9 * (1.0 + a.abs().max(b.abs()))
}

fn bar_nodes() -> Vec<Keypoint<Real>> {
    vec![node("A", 0.0, 0.0), node("B", 3.0, 0.0)]
}

fn triangle_nodes() -> Vec<Keypoint<Real>> {
    vec![node("A", 0.0, 0.0), node("B", 4.0, 0.0), node("C", 4.0, 3.0)]
}

fn triangle_members() -> Vec<Connection> {
    vec![member("AB", "A", "B"), member("BC", "B", "C"), member("AC", "A", "C")]
}

fn triangle_supports() -> Vec<BoundaryCondition<Real>> {
    vec![
        support("pin", "A", Fixture::Both, SupportMode::Fixed),
        support("roller", "B", Fixture::Y, SupportMode::Fixed),
    ]
}

#[test]
fn cantilever_bar_held_across_moves_by_force_times_length_over_stiffness() {
    let mut nodes = bar_nodes();
    let members = vec![member("A-B", "A", "B")];
    let supports = vec![
        support("wall", "A", Fixture::Both, SupportMode::Fixed),
        support("guide", "B", Fixture::Y, SupportMode::Fixed),
    ];
    let loads = vec![load("pull", "B", 1000.0, 0.0)];
    let run = analyse(&mut nodes, &members, &supports, &loads, E_MODULE, AREA, lu_solve);
    assert!(run.is_ok());
    assert!(close(nodes[1].ux.0, 1000.0 * 3.0 / (210000.0 * 0.1)));
    assert!(close(nodes[1].ux.0, 0.142857142857142857));
    assert_eq!(nodes[1].uy.0, 0.0);
    assert!(close(nodes[0].fx.0, -1000.0));
    assert!(close(nodes[0].fy.0, 0.0));
    assert!(close(nodes[1].fx.0, 1000.0));
    assert!(close(nodes[1].fy.0, 0.0));
    assert_eq!(nodes[0].ux.0, 0.0);
    assert_eq!(nodes[0].uy.0, 0.0);
}

#[test]
fn cantilever_bar_free_to_swing_is_singular() {
    let mut nodes = bar_nodes();
    let members = vec![member("A-B", "A", "B")];
    let supports = vec![support("wall", "A", Fixture::Both, SupportMode::Fixed)];
    let loads = vec![load("pull", "B", 1000.0, 0.0)];
    let run = analyse(&mut nodes, &members, &supports, &loads, E_MODULE, AREA, lu_solve);
    assert_eq!(run.err(), Some(TrussError::SingularSystem));
    assert_eq!(nodes[1].ux.0, 0.0);
    assert_eq!(nodes[1].fx.0, 0.0);
}

#[test]
fn cantilever_bar_free_to_swing_moves_along_its_axis_with_a_least_squares_solver() {
    // A solver that picks the smallest of the solutions leaves the node where the
    // bar has no stiffness: across the bar nothing pushes.
    let mut nodes = bar_nodes();
    let members = vec![member("A-B", "A", "B")];
    let supports = vec![support("wall", "A", Fixture::Both, SupportMode::Fixed)];
    let loads = vec![load("pull", "B", 1000.0, 0.0)];
    let run =
        analyse(&mut nodes, &members, &supports, &loads, E_MODULE, AREA, least_squares_solve);
    assert!(run.is_ok());
    assert!(close(nodes[1].ux.0, 1000.0 * 3.0 / (210000.0 * 0.1)));
    assert!(close(nodes[1].ux.0, 0.142857142857142857));
    assert_eq!(nodes[1].uy.0, 0.0);
    assert!(close(nodes[0].fx.0, -1000.0));
    assert_eq!(nodes[0].fy.0, 0.0);
    assert!(close(nodes[1].fx.0, 1000.0));
    assert_eq!(nodes[1].fy.0, 0.0);
}

#[test]
fn spring_adds_its_stiffness_to_the_diagonal() {
    let nodes = bar_nodes();
    let members = vec![member("A-B", "A", "B")];
    let supports = vec![support("spring", "A", Fixture::X, SupportMode::Spring(Real(1000.0)))];
    let k = create_global_stiffness_matrix(&nodes, &members, E_MODULE, AREA).unwrap();
    let filter = create_dof_filter_vector(&nodes, &supports).unwrap();
    let modified = apply_boundary_conditions(&k, &filter);
    assert_eq!(k.get(0, 0), Real(7000.0));
    assert_eq!(modified.get(0, 0), Real(8000.0));
    for r in 0..4 {
        for c in 0..4 {
            if (r, c) != (0, 0) {
                assert_eq!(modified.get(r, c), k.get(r, c));
            }
        }
    }
}

#[test]
fn spring_support_moves_by_force_over_spring_stiffness() {
    let mut nodes = bar_nodes();
    let members = vec![member("A-B", "A", "B")];
    let supports = vec![
        support("spring", "A", Fixture::X, SupportMode::Spring(Real(1000.0))),
        support("guide A", "A", Fixture::Y, SupportMode::Fixed),
        support("guide B", "B", Fixture::Y, SupportMode::Fixed),
    ];
    let loads = vec![load("pull", "B", 1000.0, 0.0)];
    let run = analyse(&mut nodes, &members, &supports, &loads, E_MODULE, AREA, lu_solve);
    assert!(run.is_ok());
    assert!(close(nodes[0].ux.0, 1000.0 / 1000.0));
    assert!(close(nodes[1].ux.0, 1.0 + 1000.0 / 7000.0));
    assert!(close(nodes[0].fx.0, -1000.0));
    assert!(close(nodes[1].fx.0, 1000.0));
    // The spring carries what the bar does not: no load is applied at A.
    assert!((nodes[0].fx.0 + 1000.0 * nodes[0].ux.0).abs() < 1e-9);
}

#[test]
fn spring_alone_moves_by_force_over_spring_stiffness_with_a_least_squares_solver() {
    let mut nodes = bar_nodes();
    let members = vec![member("A-B", "A", "B")];
    let supports = vec![support("spring", "A", Fixture::X, SupportMode::Spring(Real(1000.0)))];
    let loads = vec![load("pull", "B", 1000.0, 0.0)];
    let run =
        analyse(&mut nodes, &members, &supports, &loads, E_MODULE, AREA, least_squares_solve)
            .unwrap();
    assert_eq!(run.modified_global_stiffness_matrix.get(0, 0), Real(7000.0 + 1000.0));
    assert!(close(nodes[0].ux.0, 1000.0 / 1000.0));
    assert!(close(nodes[1].ux.0, 1.0 + 1000.0 / 7000.0));
    assert!(nodes[0].uy.0.abs() < 1e-12);
    assert!(nodes[1].uy.0.abs() < 1e-12);
    assert!(close(nodes[0].fx.0, -1000.0));
    assert!(close(nodes[1].fx.0, 1000.0));
}

#[test]
fn spring_alone_leaves_a_singular_system() {
    let mut nodes = bar_nodes();
    let members = vec![member("A-B", "A", "B")];
    let supports = vec![support("spring", "A", Fixture::X, SupportMode::Spring(Real(1000.0)))];
    let loads = vec![load("pull", "B", 1000.0, 0.0)];
    let run = analyse(&mut nodes, &members, &supports, &loads, E_MODULE, AREA, lu_solve);
    assert_eq!(run.err(), Some(TrussError::SingularSystem));
}

#[test]
fn unsupported_bar_is_a_mechanism() {
    let mut nodes = bar_nodes();
    let members = vec![member("A-B", "A", "B")];
    let supports: Vec<BoundaryCondition<Real>> = Vec::new();
    let loads = vec![load("pull", "B", 1000.0, 0.0)];
    let run = analyse(&mut nodes, &members, &supports, &loads, E_MODULE, AREA, lu_solve);
    assert_eq!(run.err(), Some(TrussError::SingularSystem));
}

#[test]
fn unsupported_unloaded_bar_is_a_mechanism() {
    let mut nodes = bar_nodes();
    let members = vec![member("A-B", "A", "B")];
    let supports: Vec<BoundaryCondition<Real>> = Vec::new();
    let loads: Vec<Pointload<Real>> = Vec::new();
    let run = analyse(&mut nodes, &members, &supports, &loads, E_MODULE, AREA, lu_solve);
    assert_eq!(run.err(), Some(TrussError::SingularSystem));
}

#[test]
fn member_with_coincident_ends_is_degenerate() {
    let nodes = vec![node("A", 1.5, -2.0), node("B", 1.5, -2.0)];
    let members = vec![member("short", "A", "B")];
    let k = create_global_stiffness_matrix(&nodes, &members, E_MODULE, AREA);
    assert_eq!(k.err(), Some(TrussError::DegenerateGeometry("short".to_string())));
}

#[test]
fn member_from_a_node_to_itself_is_degenerate() {
    let nodes = bar_nodes();
    let members = vec![member("loop", "B", "B")];
    let k = create_global_stiffness_matrix(&nodes, &members, E_MODULE, AREA);
    assert_eq!(k.err(), Some(TrussError::DegenerateGeometry("loop".to_string())));
}

#[test]
fn member_of_unbounded_length_is_degenerate() {
    let nodes = vec![node("A", 0.0, 0.0), node("B", f64::INFINITY, 0.0)];
    let members = vec![member("far", "A", "B")];
    let k = create_global_stiffness_matrix(&nodes, &members, E_MODULE, AREA);
    assert_eq!(k.err(), Some(TrussError::DegenerateGeometry("far".to_string())));
}

#[test]
fn bar_between_coincident_nodes_names_its_first_end() {
    let a = node("A", 1.0, 2.0);
    let b = node("B", 1.0, 2.0);
    let k = local_bar_matrix(&a, &b, E_MODULE, AREA);
    assert_eq!(k.err(), Some(TrussError::DegenerateGeometry("A".to_string())));
}

#[test]
fn member_naming_an_absent_node_is_reported() {
    let nodes = bar_nodes();
    let members = vec![member("A-B", "A", "B"), member("A-C", "A", "C")];
    let k = create_global_stiffness_matrix(&nodes, &members, E_MODULE, AREA);
    assert_eq!(k.err(), Some(TrussError::UnknownNodeReference("A-C".to_string())));
}

#[test]
fn support_naming_an_absent_node_is_reported() {
    let mut nodes = bar_nodes();
    let members = vec![member("A-B", "A", "B")];
    let supports = vec![
        support("wall", "A", Fixture::Both, SupportMode::Fixed),
        support("ghost", "Z", Fixture::X, SupportMode::Fixed),
    ];
    let loads = vec![load("pull", "B", 1000.0, 0.0)];
    let run = analyse(&mut nodes, &members, &supports, &loads, E_MODULE, AREA, lu_solve);
    assert_eq!(run.err(), Some(TrussError::UnknownNodeReference("ghost".to_string())));
}

#[test]
fn load_naming_an_absent_node_is_reported() {
    let mut nodes = bar_nodes();
    let members = vec![member("A-B", "A", "B")];
    let supports = vec![support("wall", "A", Fixture::Both, SupportMode::Fixed)];
    let loads = vec![load("pull", "Q", 1000.0, 0.0)];
    let run = analyse(&mut nodes, &members, &supports, &loads, E_MODULE, AREA, lu_solve);
    assert_eq!(run.err(), Some(TrussError::UnknownNodeReference("pull".to_string())));
}

#[test]
fn member_errors_come_before_support_errors() {
    let mut nodes = bar_nodes();
    let members = vec![member("A-C", "A", "C")];
    let supports = vec![support("ghost", "Z", Fixture::X, SupportMode::Fixed)];
    let loads = vec![load("pull", "Q", 1000.0, 0.0)];
    let run = analyse(&mut nodes, &members, &supports, &loads, E_MODULE, AREA, lu_solve);
    assert_eq!(run.err(), Some(TrussError::UnknownNodeReference("A-C".to_string())));
}

#[test]
fn inclined_bar_matrix_follows_the_direction_cosines() {
    let a = node("A", 0.0, 0.0);
    let c = node("C", 4.0, 3.0);
    let k = local_bar_matrix(&a, &c, E_MODULE, AREA).unwrap();
    let stiffness = 210000.0 * 0.1 / 5.0;
    let (cos, sin) = (0.8, 0.6);
    let expected = [
        [cos * cos, cos * sin, -cos * cos, -cos * sin],
        [cos * sin, sin * sin, -cos * sin, -sin * sin],
        [-cos * cos, -cos * sin, cos * cos, cos * sin],
        [-cos * sin, -sin * sin, cos * sin, sin * sin],
    ];
    assert_eq!(k.size(), 4);
    for r in 0..4 {
        for col in 0..4 {
            assert!(close(k.get(r, col).0, stiffness * expected[r][col]));
        }
    }
    assert!(close(k.get(0, 0).0, 2688.0));
    assert!(close(k.get(0, 1).0, 2016.0));
    assert!(close(k.get(1, 1).0, 1512.0));
}

#[test]
fn assembled_matrix_is_symmetric() {
    let nodes = triangle_nodes();
    let k = create_global_stiffness_matrix(&nodes, &triangle_members(), E_MODULE, AREA).unwrap();
    assert_eq!(k.size(), 6);
    for r in 0..6 {
        for c in 0..6 {
            assert_eq!(k.get(r, c), k.get(c, r));
        }
    }
}

#[test]
fn assembly_adds_the_members_that_share_a_node() {
    let nodes = triangle_nodes();
    let k = create_global_stiffness_matrix(&nodes, &triangle_members(), E_MODULE, AREA).unwrap();
    let ab = 210000.0 * 0.1 / 4.0;
    let bc = 210000.0 * 0.1 / 3.0;
    assert!(close(k.get(0, 0).0, ab + 2688.0));
    assert!(close(k.get(0, 1).0, 2016.0));
    assert!(close(k.get(1, 1).0, 1512.0));
    assert!(close(k.get(2, 2).0, ab));
    assert!(close(k.get(3, 3).0, bc));
    assert!(close(k.get(0, 2).0, -ab));
    assert!(close(k.get(3, 5).0, -bc));
    assert!(close(k.get(4, 4).0, 2688.0));
    assert!(close(k.get(5, 5).0, bc + 1512.0));
    assert!(close(k.get(0, 4).0, -2688.0));
    assert!(close(k.get(1, 4).0, -2016.0));
    assert_eq!(k.get(2, 4).0, 0.0);
}

#[test]
fn assembling_twice_gives_the_same_matrix() {
    let nodes = triangle_nodes();
    let first = create_global_stiffness_matrix(&nodes, &triangle_members(), E_MODULE, AREA).unwrap();
    let second = create_global_stiffness_matrix(&nodes, &triangle_members(), E_MODULE, AREA).unwrap();
    for r in 0..6 {
        for c in 0..6 {
            assert_eq!(first.get(r, c).0.to_bits(), second.get(r, c).0.to_bits());
        }
    }
}

#[test]
fn running_twice_gives_the_same_results() {
    let loads = vec![load("push", "C", 500.0, -2000.0)];
    let mut first = triangle_nodes();
    let mut second = triangle_nodes();
    assert!(
        analyse(&mut first, &triangle_members(), &triangle_supports(), &loads, E_MODULE, AREA, lu_solve)
            .is_ok()
    );
    assert!(
        analyse(&mut second, &triangle_members(), &triangle_supports(), &loads, E_MODULE, AREA, lu_solve)
            .is_ok()
    );
    for (a, b) in first.iter().zip(second.iter()) {
        assert_eq!(a.ux.0.to_bits(), b.ux.0.to_bits());
        assert_eq!(a.uy.0.to_bits(), b.uy.0.to_bits());
        assert_eq!(a.fx.0.to_bits(), b.fx.0.to_bits());
        assert_eq!(a.fy.0.to_bits(), b.fy.0.to_bits());
    }
}

#[test]
fn reactions_balance_the_applied_loads() {
    let loads = vec![load("push", "C", 500.0, -2000.0)];
    let mut nodes = triangle_nodes();
    let run = analyse(&mut nodes, &triangle_members(), &triangle_supports(), &loads, E_MODULE, AREA, lu_solve);
    assert!(run.is_ok());
    let sum_x: f64 = nodes.iter().map(|kp| kp.fx.0).sum();
    let sum_y: f64 = nodes.iter().map(|kp| kp.fy.0).sum();
    assert!(sum_x.abs() < 1e-6);
    assert!(sum_y.abs() < 1e-6);
    assert!(close(nodes[2].fx.0, 500.0));
    assert!(close(nodes[2].fy.0, -2000.0));
    assert!((nodes[1].fx.0).abs() < 1e-6);
    assert!(close(nodes[0].fx.0, -500.0));
    assert!(close(nodes[0].fy.0 + nodes[1].fy.0, 2000.0));
    assert!(close(nodes[1].fy.0, 2000.0 + 500.0 * 3.0 / 4.0));
}

#[test]
fn fixed_degrees_of_freedom_do_not_move() {
    let loads = vec![load("push", "C", 500.0, -2000.0)];
    let mut nodes = triangle_nodes();
    let run = analyse(&mut nodes, &triangle_members(), &triangle_supports(), &loads, E_MODULE, AREA, lu_solve);
    assert!(run.is_ok());
    assert_eq!(nodes[0].ux.0.to_bits(), 0.0f64.to_bits());
    assert_eq!(nodes[0].uy.0.to_bits(), 0.0f64.to_bits());
    assert_eq!(nodes[1].uy.0.to_bits(), 0.0f64.to_bits());
    assert!(nodes[2].ux.0 != 0.0);
    assert!(nodes[2].uy.0 != 0.0);
}

#[test]
fn empty_model_is_trivially_solved() {
    let mut nodes: Vec<Keypoint<Real>> = Vec::new();
    let members: Vec<Connection> = Vec::new();
    let supports: Vec<BoundaryCondition<Real>> = Vec::new();
    let loads: Vec<Pointload<Real>> = Vec::new();
    let run = analyse(&mut nodes, &members, &supports, &loads, E_MODULE, AREA, |_, _| None);
    assert!(run.is_ok());
    assert!(nodes.is_empty());
}

#[test]
fn fully_fixed_model_needs_no_solver() {
    let mut nodes = bar_nodes();
    let members = vec![member("A-B", "A", "B")];
    let supports = vec![
        support("wall", "A", Fixture::Both, SupportMode::Fixed),
        support("other wall", "B", Fixture::Both, SupportMode::Fixed),
    ];
    let loads = vec![load("pull", "B", 1000.0, 0.0)];
    let run = analyse(&mut nodes, &members, &supports, &loads, E_MODULE, AREA, |_, _| None);
    assert!(run.is_ok());
    for kp in &nodes {
        assert_eq!(kp.ux.0, 0.0);
        assert_eq!(kp.uy.0, 0.0);
        assert_eq!(kp.fx.0, 0.0);
        assert_eq!(kp.fy.0, 0.0);
    }
}

#[test]
fn later_support_overrides_an_earlier_one() {
    let nodes = bar_nodes();
    let supports = vec![
        support("first", "A", Fixture::Both, SupportMode::Fixed),
        support("second", "A", Fixture::Y, SupportMode::Spring(Real(250.0))),
    ];
    let filter = create_dof_filter_vector(&nodes, &supports).unwrap();
    assert_eq!(filter.len(), 4);
    assert!(matches!(filter[0], DofConstraint::Fixed));
    assert!(matches!(filter[1], DofConstraint::Spring(Real(k)) if k == 250.0));
    assert!(matches!(filter[2], DofConstraint::Free));
    assert!(matches!(filter[3], DofConstraint::Free));
}

#[test]
fn run_hands_back_what_each_step_computed() {
    let mut nodes = bar_nodes();
    let members = vec![member("A-B", "A", "B")];
    let supports = vec![
        support("wall", "A", Fixture::Both, SupportMode::Fixed),
        support("spring", "B", Fixture::Y, SupportMode::Spring(Real(500.0))),
    ];
    let loads = vec![load("pull", "B", 1000.0, 250.0)];
    let run = analyse(&mut nodes, &members, &supports, &loads, E_MODULE, AREA, lu_solve).unwrap();
    assert_eq!(run.global_stiffness_matrix.size(), 4);
    assert_eq!(run.global_stiffness_matrix.get(3, 3).0, 0.0);
    assert_eq!(run.modified_global_stiffness_matrix.get(3, 3).0, 500.0);
    assert_eq!(run.modified_global_stiffness_matrix.get(0, 0), run.global_stiffness_matrix.get(0, 0));
    assert!(matches!(run.dof_filter_vector[0], DofConstraint::Fixed));
    assert!(matches!(run.dof_filter_vector[3], DofConstraint::Spring(Real(k)) if k == 500.0));
    assert_eq!(run.force_vector, vec![Real(0.0), Real(0.0), Real(1000.0), Real(250.0)]);
    assert!(close(run.resulting_displacement_vector[2].0, 1000.0 / 7000.0));
    assert!(close(run.resulting_displacement_vector[3].0, 250.0 / 500.0));
    assert!(close(run.resulting_force_vector[0].0, -1000.0));
    assert!(close(run.resulting_force_vector[2].0, 1000.0));
    assert_eq!(run.resulting_force_vector[3].0, 0.0);
    assert_eq!(nodes[1].uy, run.resulting_displacement_vector[3]);
    assert_eq!(nodes[0].fx, run.resulting_force_vector[0]);
}

#[test]
fn forces_of_any_displacement_add_up_to_zero() {
    // Bars along the axes, with stiffnesses 3 and 4: every number that comes up is
    // a small integer, so that nothing is rounded.
    let nodes = vec![node("A", 0.0, 0.0), node("B", 4.0, 0.0), node("C", 4.0, 3.0)];
    let members = vec![member("AB", "A", "B"), member("BC", "B", "C")];
    let k = create_global_stiffness_matrix(&nodes, &members, Real(12.0), Real(1.0)).unwrap();
    assert_eq!(k.get(0, 0), Real(3.0));
    assert_eq!(k.get(2, 2), Real(3.0));
    assert_eq!(k.get(3, 3), Real(4.0));
    assert_eq!(k.get(5, 5), Real(4.0));
    let u: Vec<Real> = [7.0, -2.0, 5.0, 11.0, -3.0, 1.0].iter().map(|v| Real(*v)).collect();
    let recovered = calculate_resulting_force_vector(&k, &u);
    let forces: Vec<f64> = recovered.iter().map(|v| v.0).collect();
    assert_eq!(forces, vec![6.0, 0.0, -6.0, 40.0, 0.0, -40.0]);
    assert_eq!(forces.iter().sum::<f64>(), 0.0);
}
