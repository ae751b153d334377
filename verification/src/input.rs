//! The entities of a model, and their reading from text.
pub mod boundary_condition;
pub mod connection;
pub mod keypoint;
pub mod material;
pub mod pointload;
pub mod records;
