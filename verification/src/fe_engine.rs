//! The direct stiffness method, step by step.
pub mod analysis;
pub mod assembly_laws;
pub mod dof_filter_vector;
pub mod equilibrium;
pub mod force_vector;
pub mod global_stiffness_matrix;
pub mod reduction;
pub mod run_laws;
pub mod stiffness_matrix;
pub mod utils;
