//! The satisfiability check: every constraint of every row is evaluated
//! on a trace.

use crate::error::{ConfigurationError, CsError, UnsatisfiedConstraint};
use crate::field::{values, Felt};
use crate::geometry::GateKind;
use crate::model::{CsSpec, Phase, RowSpec};
use crate::permutation::{matrix_values, spec_layer};
use crate::system::{ConstraintSystem, Row};
use vstd::prelude::*;

verus! {

/// The first constraint of row `r` that fails on the trace row `cells`,
/// if one does.
fn check_row(cs: &ConstraintSystem, r: usize, cells: &Vec<Felt>) -> (f: Option<usize>)
    requires
        cs.wf(),
        r < cs@.rows.len(),
        cells@.len() == cs@.geometry.spec_row_width(),
    ensures
        match f {
            None => forall|j: int|
                0 <= j < CsSpec::constraint_count(cs@.rows[r as int])
                    ==> #[trigger] cs@.constraint_holds(cs@.rows[r as int], values(cells@), j),
            Some(first) => {
                &&& first < CsSpec::constraint_count(cs@.rows[r as int])
                &&& !cs@.constraint_holds(cs@.rows[r as int], values(cells@), first as int)
                &&& forall|j: int|
                    0 <= j < first ==> #[trigger] cs@.constraint_holds(
                        cs@.rows[r as int],
                        values(cells@),
                        j,
                    )
            },
        },
{
    let ghost model = cs@;
    let ghost row = model.rows[r as int];
    let ghost t = values(cells@);
    proof {
        cs.lemma_wf();
        assert(model.row_wf(row));
        model.lemma_row_in_columns(row);
    }
    let geometry = cs.geometry();
    match cs.row(r) {
        Row::Constant { variable, value } => {
            let p = match cs.constants_placement() {
                Some(p) => p,
                None => {
                    return None;
                },
            };
            let k: usize = geometry.num_columns_under_copy_permutation
                + geometry.num_witness_columns + p.constant_base;
            let residual = cells[p.copy_base].sub(&cells[k]);
            if !residual.is_zero() {
                return Some(0);
            }
            if cells[k].value() != value.value() {
                return Some(1);
            }
            if cells[p.copy_base].value() != cs.value_at(*variable).value() {
                return Some(2);
            }
            None
        },
        Row::Layer { layer, inputs, outputs } => {
            let (params, family, p) = match (cs.round_params(), cs.round_family(), cs.round_placement()) {
                (Some(params), Some(family), Some(p)) => (params, family, p),
                _ => {
                    return None;
                },
            };
            let b: usize = p.copy_base;
            let w: usize = inputs.len();
            let width: usize = cells.len();
            let mut state: Vec<Felt> = Vec::new();
            let mut i: usize = 0;
            while i < w
                invariant
                    i <= w,
                    b + 2 * w <= width,
                    width == cells@.len(),
                    state@.len() == i,
                    forall|k: int| 0 <= k < i ==> (#[trigger] state@[k])@ == cells@[b + k]@,
                decreases w - i,
            {
                state.push(cells[b + i]);
                i += 1;
            }
            assert(values(state@) =~= t.subrange(b as int, b + w));
            let expected = params.apply_layer(family, *layer, &state);
            let mut j: usize = 0;
            while j < w
                invariant
                    j <= w,
                    w == inputs@.len(),
                    b + 2 * w <= width,
                    width == cells@.len(),
                    r < model.rows.len(),
                    expected@.len() == w,
                    t == values(cells@),
                    model == cs@,
                    row == model.rows[r as int],
                    row == (RowSpec::Layer {
                        layer: *layer,
                        inputs: inputs@,
                        outputs: outputs@,
                    }),
                    model.round_gate is Some,
                    b == model.round_gate.unwrap().placement.copy_base,
                    values(expected@) == spec_layer(
                        model.round_gate.unwrap().family,
                        model.round_gate.unwrap().params,
                        *layer as int,
                        t.subrange(b as int, b + w),
                    ),
                    forall|k: int| 0 <= k < j ==> #[trigger] model.constraint_holds(row, t, k),
                decreases w - j,
            {
                let residual = cells[b + w + j].sub(&expected[j]);
                assert(values(expected@)[j as int] == expected@[j as int]@);
                if !residual.is_zero() {
                    return Some(j);
                }
                j += 1;
            }
            let mut lane: usize = 0;
            while lane < w
                invariant
                    lane <= w,
                    w == inputs@.len(),
                    w == outputs@.len(),
                    b + 2 * w <= width,
                    width == cells@.len(),
                    r < model.rows.len(),
                    t == values(cells@),
                    model == cs@,
                    row == model.rows[r as int],
                    row == (RowSpec::Layer {
                        layer: *layer,
                        inputs: inputs@,
                        outputs: outputs@,
                    }),
                    model.round_gate is Some,
                    b == model.round_gate.unwrap().placement.copy_base,
                    forall|k: int| 0 <= k < inputs@.len() ==> #[trigger] inputs@[k] < model.values.len(),
                    forall|k: int|
                        0 <= k < outputs@.len() ==> #[trigger] outputs@[k] < model.values.len(),
                    forall|k: int| 0 <= k < w + lane ==> #[trigger] model.constraint_holds(row, t, k),
                decreases w - lane,
            {
                if cells[b + lane].value() != cs.value_at(inputs[lane]).value() || cells[b + w
                    + lane].value() != cs.value_at(outputs[lane]).value() {
                    return Some(w + lane);
                }
                lane += 1;
            }
            None
        },
        Row::Nop => None,
    }
}

/// Whether `trace` has `rows` rows of `width` cells.
fn shaped(trace: &Vec<Vec<Felt>>, rows: usize, width: usize) -> (ok: bool)
    ensures
        ok == (trace@.len() == rows && forall|r: int|
            0 <= r < trace@.len() ==> (#[trigger] trace@[r])@.len() == width),
{
    if trace.len() != rows {
        return false;
    }
    let mut r: usize = 0;
    while r < trace.len()
        invariant
            r <= trace@.len(),
            forall|k: int| 0 <= k < r ==> (#[trigger] trace@[k])@.len() == width,
        decreases trace@.len() - r,
    {
        if trace[r].len() != width {
            return false;
        }
        r += 1;
    }
    true
}

/// Evaluates every constraint of the finalized system `cs` on `trace`,
/// row by row and constraint by constraint, and reports the first that
/// fails. Refused on a system that is not finalized, and for a trace that
/// has not the system's rows and columns.
pub fn check_trace(cs: &ConstraintSystem, trace: &Vec<Vec<Felt>>) -> (r: Result<
    Option<UnsatisfiedConstraint>,
    CsError,
>)
    requires
        cs.wf(),
    ensures
        cs@.phase != Phase::Finalized ==> r == Err::<Option<UnsatisfiedConstraint>, CsError>(
            CsError::Configuration(ConfigurationError::WrongPhase),
        ),
        cs@.phase == Phase::Finalized && !cs@.trace_shaped(matrix_values(trace@)) ==> r == Err::<
            Option<UnsatisfiedConstraint>,
            CsError,
        >(CsError::Configuration(ConfigurationError::TraceShape)),
        cs@.phase == Phase::Finalized && cs@.trace_shaped(matrix_values(trace@)) ==> match r {
            Ok(None) => cs@.trace_satisfies(matrix_values(trace@)),
            Ok(Some(f)) => {
                &&& cs@.first_failure(matrix_values(trace@), f.row as int, f.constraint as int)
                &&& f.gate == CsSpec::row_kind(cs@.rows[f.row as int])
                &&& !cs@.trace_satisfies(matrix_values(trace@))
            },
            Err(_) => false,
        },
{
    let ghost model = cs@;
    let ghost t = matrix_values(trace@);
    proof {
        cs.lemma_wf();
    }
    if cs.phase() != Phase::Finalized {
        return Err(CsError::Configuration(ConfigurationError::WrongPhase));
    }
    let geometry = cs.geometry();
    let width: usize = geometry.num_columns_under_copy_permutation + geometry.num_witness_columns
        + geometry.num_constant_columns;
    let rows: usize = cs.num_rows();
    if !shaped(trace, rows, width) {
        assert(!model.trace_shaped(t)) by {
            if model.trace_shaped(t) {
                assert forall|r: int| 0 <= r < trace@.len() implies (#[trigger] trace@[r])@.len()
                    == width by {
                    assert(t[r].len() == width);
                }
            }
        }
        return Err(CsError::Configuration(ConfigurationError::TraceShape));
    }
    assert(model.trace_shaped(t)) by {
        assert forall|r: int| 0 <= r < t.len() implies (#[trigger] t[r]).len() == width by {
            assert(trace@[r]@.len() == width);
        }
    }
    let mut r: usize = 0;
    while r < rows
        invariant
            r <= rows,
            rows == model.rows.len(),
            rows == trace@.len(),
            model == cs@,
            model.phase == Phase::Finalized,
            cs.wf(),
            t == matrix_values(trace@),
            model.trace_shaped(t),
            width == model.geometry.spec_row_width(),
            forall|k: int| 0 <= k < r ==> #[trigger] model.trace_row_holds(t, k),
        decreases rows - r,
    {
        assert(t[r as int] == values(trace@[r as int]@));
        assert(t[r as int].len() == width);
        match check_row(cs, r, &trace[r]) {
            Some(constraint) => {
                let gate = match cs.row(r) {
                    Row::Constant { .. } => GateKind::ConstantsAllocator,
                    Row::Layer { .. } => GateKind::RoundFunction,
                    Row::Nop => GateKind::Nop,
                };
                assert(!model.trace_satisfies(t)) by {
                    if model.trace_satisfies(t) {
                        assert(model.trace_row_holds(t, r as int));
                        assert(model.constraint_holds(
                            model.rows[r as int],
                            t[r as int],
                            constraint as int,
                        ));
                    }
                }
                return Ok(Some(UnsatisfiedConstraint { gate, row: r, constraint }));
            },
            None => {
                assert(model.trace_row_holds(t, r as int));
            },
        }
        r += 1;
    }
    Ok(None)
}

/// The first constraint that fails on the system's own trace, if one
/// does: none exactly when the bindings satisfy the system. Refused on a
/// system that is not finalized.
pub fn first_unsatisfied(cs: &ConstraintSystem) -> (r: Result<
    Option<UnsatisfiedConstraint>,
    CsError,
>)
    requires
        cs.wf(),
    ensures
        cs@.phase != Phase::Finalized ==> r == Err::<Option<UnsatisfiedConstraint>, CsError>(
            CsError::Configuration(ConfigurationError::WrongPhase),
        ),
        cs@.phase == Phase::Finalized ==> match r {
            Ok(None) => cs@.satisfied(),
            Ok(Some(f)) => {
                &&& !cs@.satisfied()
                &&& cs@.first_failure(cs@.trace(), f.row as int, f.constraint as int)
                &&& f.gate == CsSpec::row_kind(cs@.rows[f.row as int])
            },
            Err(_) => false,
        },
{
    proof {
        cs.lemma_wf();
        cs@.lemma_trace_satisfies();
    }
    check_trace(cs, cs.trace())
}

/// Whether the system is finalized and its bindings meet every
/// constraint of every row.
pub fn check_if_satisfied(cs: &ConstraintSystem) -> (r: bool)
    requires
        cs.wf(),
    ensures
        r == (cs@.phase == Phase::Finalized && cs@.satisfied()),
{
    match first_unsatisfied(cs) {
        Ok(None) => true,
        _ => false,
    }
}

} // verus!
