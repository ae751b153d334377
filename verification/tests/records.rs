use nalgebra::{DMatrix, DVector};
use truss_solver::error::TrussError;
use truss_solver::fe_engine::analysis::analyse;
use truss_solver::input::boundary_condition::{parse_boundary_condition, Fixture, SupportMode};
use truss_solver::input::connection::parse_connection;
use truss_solver::input::keypoint::parse_keypoint;
use truss_solver::input::material::parse_material;
use truss_solver::input::pointload::parse_pointload;
use truss_solver::input::records::read_records;
use truss_solver::matrix::Matrix;
use truss_solver::scalar::Scalar;

#[derive(Debug, Clone, Copy, PartialEq)]
struct Real(f64);

impl Scalar for Real {
    fn zero() -> Self {
        Real(0.0)
    }

    fn one() -> Self {
        Real(1.0)
    }

    fn plus(self, rhs: Self) -> Self {
        Real(self.0 + rhs.0)
    }

    fn minus(self, rhs: Self) -> Self {
        Real(self.0 - rhs.0)
    }

    fn times(self, rhs: Self) -> Self {
        Real(self.0 * rhs.0)
    }

    fn over(self, rhs: Self) -> Self {
        Real(self.0 / rhs.0)
    }

    fn negated(self) -> Self {
        Real(-self.0)
    }

    fn norm(self, other: Self) -> Self {
        Real(nalgebra::Vector2::new(self.0, other.0).norm())
    }

    fn equals(self, rhs: Self) -> bool {
        self.0 == rhs.0
    }

    fn exceeds(self, rhs: Self) -> bool {
        self.0 > rhs.0
    }

    fn is_finite(self) -> bool {
        self.0.is_finite()
    }

    fn parse(text: &str) -> Option<Self> {
        text.parse::<f64>().ok().map(Real)
    }
}

fn fields(text: &str) -> Vec<(usize, Vec<String>)> {
    read_records(text).into_iter().map(|record| (record.line, record.fields)).collect()
}

fn strings(values: &[&str]) -> Vec<String> {
    values.iter().map(|v| v.to_string()).collect()
}

#[test]
fn records_are_split_at_commas_and_trimmed() {
    assert_eq!(
        fields("A, 0.0 ,1.5\n  B ,\t2 , 3  \n"),
        vec![(0, strings(&["A", "0.0", "1.5"])), (1, strings(&["B", "2", "3"]))]
    );
}

#[test]
fn comments_are_skipped_but_counted() {
    assert_eq!(
        fields("# name, x, y\nA,0,0\n#B,1,1\nC,2,2"),
        vec![(1, strings(&["A", "0", "0"])), (3, strings(&["C", "2", "2"]))]
    );
}

#[test]
fn comment_sign_counts_only_at_the_start_of_a_line() {
    assert_eq!(fields(" #A,0"), vec![(0, strings(&["#A", "0"]))]);
    assert_eq!(fields("A#,0"), vec![(0, strings(&["A#", "0"]))]);
}

#[test]
fn line_endings_may_carry_a_carriage_return() {
    assert_eq!(
        fields("A,1\r\nB,2\r\n"),
        vec![(0, strings(&["A", "1"])), (1, strings(&["B", "2"]))]
    );
}

#[test]
fn last_line_needs_no_line_ending() {
    assert_eq!(fields("A,1\nB,2"), fields("A,1\nB,2\n"));
    assert_eq!(fields("A,1\nB,2").len(), 2);
}

#[test]
fn empty_text_has_no_records() {
    assert!(fields("").is_empty());
    assert!(fields("#only a comment").is_empty());
}

#[test]
fn blank_line_is_a_record_with_one_empty_field() {
    assert_eq!(
        fields("A,1\n\nB,2\n"),
        vec![(0, strings(&["A", "1"])), (1, strings(&[""])), (2, strings(&["B", "2"]))]
    );
    assert_eq!(fields("\n"), vec![(0, strings(&[""]))]);
}

#[test]
fn empty_fields_are_kept() {
    assert_eq!(fields("a,,b,"), vec![(0, strings(&["a", "", "b", ""]))]);
    assert_eq!(fields(" , "), vec![(0, strings(&["", ""]))]);
}

#[test]
fn white_space_inside_a_field_is_kept() {
    assert_eq!(fields("  left node ,\u{00a0}1\u{2003}"), vec![(0, strings(&["left node", "1"]))]);
}

#[test]
fn nodes_are_read_with_empty_results() {
    let nodes = parse_keypoint::<Real>("# name, x, y\nA, 0.0, 0.0\nB, 3.0, -1.5e1\n").unwrap();
    assert_eq!(nodes.len(), 2);
    assert_eq!(nodes[0].name, "A");
    assert_eq!((nodes[0].x, nodes[0].y), (Real(0.0), Real(0.0)));
    assert_eq!(nodes[1].name, "B");
    assert_eq!((nodes[1].x, nodes[1].y), (Real(3.0), Real(-15.0)));
    for kp in &nodes {
        assert_eq!((kp.fx, kp.fy, kp.ux, kp.uy), (Real(0.0), Real(0.0), Real(0.0), Real(0.0)));
    }
}

#[test]
fn node_with_a_missing_field_is_malformed() {
    assert_eq!(parse_keypoint::<Real>("A,0,0\n#c\nB,1\n").err(), Some(TrussError::Parse(2)));
    assert_eq!(parse_keypoint::<Real>("A,0,0\n\nB,1,1\n").err(), Some(TrussError::Parse(1)));
}

#[test]
fn node_with_a_coordinate_that_is_no_number_is_malformed() {
    assert_eq!(parse_keypoint::<Real>("A,zero,0\n").err(), Some(TrussError::Parse(0)));
    assert_eq!(parse_keypoint::<Real>("A,0,0\nB,1,\n").err(), Some(TrussError::Parse(1)));
}

#[test]
fn first_malformed_node_is_reported() {
    assert_eq!(parse_keypoint::<Real>("A,0,0\nB\nC,x,y\n").err(), Some(TrussError::Parse(1)));
}

#[test]
fn members_are_read() {
    let members = parse_connection("# name, kp_1, kp_2, material\nAB, A, B, steel\nBC,B,C,wood").unwrap();
    assert_eq!(members.len(), 2);
    assert_eq!(
        (&members[0].name[..], &members[0].kp_1[..], &members[0].kp_2[..], &members[0].material[..]),
        ("AB", "A", "B", "steel")
    );
    assert_eq!(
        (&members[1].name[..], &members[1].kp_1[..], &members[1].kp_2[..], &members[1].material[..]),
        ("BC", "B", "C", "wood")
    );
}

#[test]
fn member_with_a_missing_field_is_malformed() {
    assert_eq!(parse_connection("AB,A,B,steel\nBC,B,C\n").err(), Some(TrussError::Parse(1)));
}

#[test]
fn supports_are_read_by_fixture_and_stiffness() {
    let supports = parse_boundary_condition::<Real>(
        "# name, node, fixture, stiffness\npin, A, 2, -1\nroller, B, 1, -1.0\nspring, C, 0, 1000\n",
    )
    .unwrap();
    assert_eq!(supports.len(), 3);
    assert_eq!((&supports[0].name[..], &supports[0].keypoint[..]), ("pin", "A"));
    assert_eq!(supports[0].fixture, Fixture::Both);
    assert!(matches!(supports[0].mode, SupportMode::Fixed));
    assert_eq!(supports[1].fixture, Fixture::Y);
    assert!(matches!(supports[1].mode, SupportMode::Fixed));
    assert_eq!(supports[2].fixture, Fixture::X);
    assert!(matches!(supports[2].mode, SupportMode::Spring(Real(k)) if k == 1000.0));
}

#[test]
fn support_with_an_unknown_fixture_is_malformed() {
    assert_eq!(parse_boundary_condition::<Real>("pin,A,3,-1\n").err(), Some(TrussError::Parse(0)));
    assert_eq!(parse_boundary_condition::<Real>("pin,A,02,-1\n").err(), Some(TrussError::Parse(0)));
    assert_eq!(parse_boundary_condition::<Real>("pin,A,,-1\n").err(), Some(TrussError::Parse(0)));
}

#[test]
fn support_with_a_stiffness_of_neither_kind_is_malformed() {
    assert_eq!(parse_boundary_condition::<Real>("pin,A,2,0\n").err(), Some(TrussError::Parse(0)));
    assert_eq!(parse_boundary_condition::<Real>("pin,A,2,-2\n").err(), Some(TrussError::Parse(0)));
    assert_eq!(parse_boundary_condition::<Real>("pin,A,2,stiff\n").err(), Some(TrussError::Parse(0)));
    assert_eq!(parse_boundary_condition::<Real>("pin,A,2,NaN\n").err(), Some(TrussError::Parse(0)));
}

#[test]
fn support_with_a_missing_field_is_malformed() {
    assert_eq!(
        parse_boundary_condition::<Real>("pin,A,2,-1\nroller,B,1\n").err(),
        Some(TrussError::Parse(1))
    );
}

#[test]
fn loads_are_read() {
    let loads = parse_pointload::<Real>("# name, node, fx, fy\npull, B, 1000, 0\npush, C, -2.5, 1e3\n").unwrap();
    assert_eq!(loads.len(), 2);
    assert_eq!((&loads[0].name[..], &loads[0].keypoint[..]), ("pull", "B"));
    assert_eq!((loads[0].load_x, loads[0].load_y), (Real(1000.0), Real(0.0)));
    assert_eq!((&loads[1].name[..], &loads[1].keypoint[..]), ("push", "C"));
    assert_eq!((loads[1].load_x, loads[1].load_y), (Real(-2.5), Real(1000.0)));
}

#[test]
fn load_with_a_force_that_is_no_number_is_malformed() {
    assert_eq!(parse_pointload::<Real>("pull,B,1000,0\npush,C,much,0\n").err(), Some(TrussError::Parse(1)));
    assert_eq!(parse_pointload::<Real>("pull,B,1000\n").err(), Some(TrussError::Parse(0)));
}

#[test]
fn materials_are_read() {
    let materials = parse_material::<Real>("# name, modulus\nsteel, 210000\nwood, 11000.5\n").unwrap();
    assert_eq!(materials.len(), 2);
    assert_eq!(materials[0].name, "steel");
    assert_eq!(materials[0].e_modulus, Real(210000.0));
    assert_eq!(materials[1].name, "wood");
    assert_eq!(materials[1].e_modulus, Real(11000.5));
}

#[test]
fn material_without_a_modulus_is_malformed() {
    assert_eq!(parse_material::<Real>("steel\n").err(), Some(TrussError::Parse(0)));
    assert_eq!(parse_material::<Real>("steel,210000\nwood,hard\n").err(), Some(TrussError::Parse(1)));
}

#[test]
fn model_read_from_text_is_analysed() {
    let mut nodes = parse_keypoint::<Real>("# name, x, y\nA, 0.0, 0.0\nB, 3.0, 0.0\n").unwrap();
    let members = parse_connection("# name, from, to, material\nA-B, A, B, steel\n").unwrap();
    let supports = parse_boundary_condition::<Real>(
        "# name, node, fixture, stiffness\nwall, A, 2, -1\nguide, B, 1, -1\n",
    )
    .unwrap();
    let loads = parse_pointload::<Real>("# name, node, fx, fy\npull, B, 1000.0, 0.0\n").unwrap();
    let solve = |k: Matrix<Real>, f: Vec<Real>| {
        let n = k.size();
        let matrix = DMatrix::from_fn(n, n, |r, c| k.get(r, c).0);
        let rhs = DVector::from_fn(n, |r, _| f[r].0);
        matrix.lu().solve(&rhs).map(|u| u.iter().map(|v| Real(*v)).collect::<Vec<Real>>())
    };
    let run = analyse(&mut nodes, &members, &supports, &loads, Real(210000.0), Real(0.1), solve);
    assert!(run.is_ok());
    assert!((nodes[1].ux.0 - 1000.0 * 3.0 / (210000.0 * 0.1)).abs() < 1e-12);
    assert_eq!(nodes[1].uy.0, 0.0);
    assert!((nodes[0].fx.0 + 1000.0).abs() < 1e-9);
    assert!((nodes[1].fx.0 - 1000.0).abs() < 1e-9);
}
