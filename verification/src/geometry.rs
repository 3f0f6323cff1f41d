//! Column budgets of a constraint system and the footprints of its gates.

use crate::permutation::{GateFamily, PermutationParams, PermutationSpec};
use vstd::prelude::*;

verus! {

/// The columns of every row and the highest degree a constraint may have.
#[derive(Clone, Copy, Debug, PartialEq, Eq, Structural, Hash)]
pub struct Geometry {
    pub num_columns_under_copy_permutation: usize,
    pub num_witness_columns: usize,
    pub num_constant_columns: usize,
    pub max_allowed_constraint_degree: usize,
}

impl Geometry {
    /// Number of cells of a row: its columns of all three kinds.
    pub open spec fn spec_row_width(self) -> nat {
        (self.num_columns_under_copy_permutation + self.num_witness_columns
            + self.num_constant_columns) as nat
    }

    /// The column of a row that holds constant column `k`.
    pub open spec fn spec_constant_column(self, k: int) -> int {
        self.num_columns_under_copy_permutation + self.num_witness_columns + k
    }

    /// Number of cells of a row, where it can be counted.
    pub fn row_width(&self) -> (r: Option<usize>)
        ensures
            r == (if self.spec_row_width() <= usize::MAX {
                Some(self.spec_row_width() as usize)
            } else {
                None
            }),
    {
        match self.num_columns_under_copy_permutation.checked_add(self.num_witness_columns) {
            Some(partial) => partial.checked_add(self.num_constant_columns),
            None => None,
        }
    }
}

/// Where the instances of a gate are placed.
#[derive(Clone, Copy, Debug, PartialEq, Eq, Structural, Hash)]
pub enum GatePlacementStrategy {
    /// In the columns that all such gates share, one kind of gate per row.
    UseGeneralPurposeColumns,
    /// In columns set aside for this gate alone, enough for
    /// `num_repetitions` instances side by side.
    UseSpecializedColumns { num_repetitions: usize },
}

/// The kinds of gate.
#[derive(Clone, Copy, Debug, PartialEq, Eq, Structural, Hash)]
pub enum GateKind {
    /// Pins one variable to one constant.
    ConstantsAllocator,
    /// Constrains nothing: the rows that pad a trace.
    Nop,
    /// One layer of a sponge permutation.
    RoundFunction,
}

/// The columns and the degree that one instance of a gate needs.
pub struct Footprint {
    pub copy_columns: nat,
    pub constant_columns: nat,
    pub degree: nat,
}

/// A gate as handed to the configuration.
#[derive(Debug)]
pub enum Gate {
    ConstantsAllocator,
    Nop,
    RoundFunction { family: GateFamily, params: PermutationParams },
}

/// The mathematical content of a gate.
pub enum GateSpec {
    ConstantsAllocator,
    Nop,
    RoundFunction { family: GateFamily, params: PermutationSpec },
}

impl GateSpec {
    /// The kind of this gate.
    pub open spec fn kind(self) -> GateKind {
        match self {
            GateSpec::ConstantsAllocator => GateKind::ConstantsAllocator,
            GateSpec::Nop => GateKind::Nop,
            GateSpec::RoundFunction { .. } => GateKind::RoundFunction,
        }
    }

    /// What one instance needs. A layer of a permutation takes one column
    /// for each lane that enters and each that leaves, and raises its
    /// inputs to the fifth power; a constant takes one variable and one
    /// constant column.
    pub open spec fn footprint(self) -> Footprint {
        match self {
            GateSpec::ConstantsAllocator => Footprint {
                copy_columns: 1,
                constant_columns: 1,
                degree: 1,
            },
            GateSpec::Nop => Footprint { copy_columns: 0, constant_columns: 0, degree: 0 },
            GateSpec::RoundFunction { family, params } => Footprint {
                copy_columns: 2 * params.width(),
                constant_columns: 0,
                degree: 5,
            },
        }
    }
}

impl View for Gate {
    type V = GateSpec;

    open spec fn view(&self) -> GateSpec {
        match self {
            Gate::ConstantsAllocator => GateSpec::ConstantsAllocator,
            Gate::Nop => GateSpec::Nop,
            Gate::RoundFunction { family, params } => GateSpec::RoundFunction {
                family: *family,
                params: params@,
            },
        }
    }
}

impl Gate {
    /// The kind of this gate.
    pub fn kind(&self) -> (r: GateKind)
        ensures
            r == self@.kind(),
    {
        match self {
            Gate::ConstantsAllocator => GateKind::ConstantsAllocator,
            Gate::Nop => GateKind::Nop,
            Gate::RoundFunction { .. } => GateKind::RoundFunction,
        }
    }

    /// The highest degree among the constraints of one instance.
    pub fn degree(&self) -> (r: usize)
        ensures
            r == self@.footprint().degree,
    {
        match self {
            Gate::ConstantsAllocator => 1,
            Gate::Nop => 0,
            Gate::RoundFunction { .. } => 5,
        }
    }

    /// Number of constant columns of one instance.
    pub fn constant_columns(&self) -> (r: usize)
        ensures
            r == self@.footprint().constant_columns,
    {
        match self {
            Gate::ConstantsAllocator => 1,
            Gate::Nop => 0,
            Gate::RoundFunction { .. } => 0,
        }
    }

    /// Number of columns under the copy permutation of one instance, where
    /// it can be counted.
    pub fn copy_columns(&self) -> (r: Option<usize>)
        ensures
            r == (if self@.footprint().copy_columns <= usize::MAX {
                Some(self@.footprint().copy_columns as usize)
            } else {
                None
            }),
            self@ matches GateSpec::RoundFunction { family, params } ==> params.wf()
                && params.layers() <= usize::MAX,
    {
        match self {
            Gate::ConstantsAllocator => Some(1),
            Gate::Nop => Some(0),
            Gate::RoundFunction { family, params } => params.width().checked_mul(2),
        }
    }
}

} // verus!
