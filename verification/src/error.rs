//! The ways in which an analysis fails.
use vstd::prelude::*;

verus! {

/// Why a run was abandoned. Every failure is final: nothing is computed past it.
#[derive(Debug, PartialEq, Eq)]
pub enum TrussError {
    /// A record of the input text is malformed; the payload counts the lines
    /// before it.
    Parse(usize),
    /// A member, support or load refers to a node that the model does not hold;
    /// the payload is the name of that member, support or load.
    UnknownNodeReference(String),
    /// A bar has no usable length; the payload is the name of the member, or of
    /// the bar's first end where only the two ends are known.
    DegenerateGeometry(String),
    /// The reduced system has no unique finite solution.
    SingularSystem,
}

/// `e` reports a malformed record after `line` lines.
pub open spec fn is_parse_error(e: TrussError, line: int) -> bool {
    e matches TrussError::Parse(l) && l == line
}

/// `e` reports that the member, support or load called `name` refers to a node
/// that the model does not hold.
pub open spec fn is_unknown_reference(e: TrussError, name: Seq<char>) -> bool {
    e matches TrussError::UnknownNodeReference(n) && n@ == name
}

/// `e` reports that the bar called `name` has no usable length.
pub open spec fn is_degenerate_geometry(e: TrussError, name: Seq<char>) -> bool {
    e matches TrussError::DegenerateGeometry(n) && n@ == name
}

} // verus!
