//! What the operations of a constraint system report when they refuse.

use crate::field::Felt;
use crate::geometry::GateKind;
use vstd::prelude::*;

verus! {

/// Why a configuration was refused.
#[derive(Clone, Copy, Debug, PartialEq, Eq, Structural, Hash)]
pub enum ConfigurationError {
    /// The system is not in the phase that the operation belongs to.
    WrongPhase,
    /// The declared number of rows is not a power of two.
    TraceLength,
    /// The columns of a row cannot be counted.
    GeometryTooWide,
    /// A gate of this kind is configured already.
    GateAlreadyConfigured,
    /// The operation needs a gate that was not configured.
    GateNotConfigured,
    /// A constraint of this gate has a higher degree than the geometry allows.
    DegreeExceeded,
    /// The columns of this gate do not fit into what is left of the geometry.
    ColumnsExceeded,
    /// The variables handed to a gate are not as many as its lanes.
    ArityMismatch,
    /// The trace does not have the rows and columns of the system.
    TraceShape,
}

/// What an operation on a constraint system reports when it refuses.
#[derive(Clone, Copy, Debug, PartialEq, Eq, Structural, Hash)]
pub enum CsError {
    /// The gates, the geometry and the phase do not allow the operation.
    Configuration(ConfigurationError),
    /// The variable at this position of the list has no binding in this
    /// system.
    UnboundVariable { position: usize },
    /// The rows or the variables declared for the system are used up.
    CapacityExceeded,
}

/// The first lane in which the circuit and the direct evaluation differ.
#[derive(Clone, Copy, Debug, PartialEq, Eq, Structural, Hash)]
pub struct EquivalenceMismatch {
    pub index: usize,
    pub circuit: Felt,
    pub reference: Felt,
}

/// The first place of a trace at which a constraint fails.
#[derive(Clone, Copy, Debug, PartialEq, Eq, Structural, Hash)]
pub struct UnsatisfiedConstraint {
    pub gate: GateKind,
    pub row: usize,
    pub constraint: usize,
}

} // verus!
