//! Element stiffness.
pub mod local_stiffness_matrix_bar;
