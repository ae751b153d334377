//! Static analysis of planar pin-jointed trusses by the direct stiffness method.
//!
//! From nodes, members, supports and loads the library finds how far every node
//! moves and which force acts on it: it numbers the degrees of freedom, forms the
//! stiffness of every bar, assembles the global stiffness matrix, encodes the
//! supports, takes the fixed degrees of freedom out of the system, has the rest
//! solved, and recovers the forces from the matrix as assembled.
//!
//! The solver is written against an abstract number type, [`scalar::Scalar`], and
//! is verified for every implementation of it: contracts describe each computed
//! number by the operations that produced it, and each index by the degree of
//! freedom it stands for. Linear systems are solved by a function that the caller
//! hands in.
//!
//! - [`input`]: the entities of a model, and their reading from delimited text.
//! - [`material_formulation`]: the stiffness of one bar.
//! - [`fe_engine`]: the steps of an analysis, the whole run, and what holds of
//!   them: symmetry, repeatability, equilibrium.
//! - [`data_formatting`]: writing results onto the nodes.
//! - [`matrix`], [`scalar`], [`exact`], [`error`]: what the others rest on.
pub mod data_formatting;
pub mod error;
pub mod exact;
pub mod fe_engine;
pub mod input;
pub mod material_formulation;
pub mod matrix;
pub mod scalar;
