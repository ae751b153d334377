//! Results, put where they belong.
pub mod generate_result_structs;
