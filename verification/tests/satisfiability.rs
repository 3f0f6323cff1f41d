use poseidon_circuit::error::{ConfigurationError, CsError, UnsatisfiedConstraint};
use poseidon_circuit::field::Felt;
use poseidon_circuit::geometry::{Gate, GateKind, GatePlacementStrategy, Geometry};
use poseidon_circuit::model::Variable;
use poseidon_circuit::permutation::{GateFamily, PermutationParams};
use poseidon_circuit::round_function::compute_round_function;
use poseidon_circuit::satisfiability::{check_if_satisfied, check_trace, first_unsatisfied};
use poseidon_circuit::system::{ConstraintSystem, ResolverOptions};

fn felt(x: u64) -> Felt {
    Felt::from_u64_with_reduction(x)
}

fn felts(xs: &[u64]) -> Vec<Felt> {
    xs.iter().map(|x| felt(*x)).collect()
}

fn small_params() -> PermutationParams {
    let mds = vec![felts(&[2, 3, 1]), felts(&[1, 2, 3]), felts(&[3, 1, 2])];
    let constants = vec![felts(&[1, 2, 3]), felts(&[4, 5, 6])];
    PermutationParams::new(2, 1, 1, mds, constants).unwrap()
}

fn geometry() -> Geometry {
    Geometry {
        num_columns_under_copy_permutation: 8,
        num_witness_columns: 2,
        num_constant_columns: 2,
        max_allowed_constraint_degree: 8,
    }
}

const GENERAL: GatePlacementStrategy = GatePlacementStrategy::UseGeneralPurposeColumns;

fn built() -> ConstraintSystem {
    let mut cs = ConstraintSystem::new(7, geometry(), 8).unwrap();
    cs.configure(
        Gate::RoundFunction { family: GateFamily::Poseidon2, params: small_params() },
        GENERAL,
    )
    .unwrap();
    cs.configure(Gate::ConstantsAllocator, GENERAL).unwrap();
    cs.configure(Gate::Nop, GENERAL).unwrap();
    cs.build(ResolverOptions::new(32)).unwrap();
    cs
}

fn with_round_function() -> (ConstraintSystem, Vec<Variable>) {
    let mut cs = built();
    let a = cs.allocate_witness(felt(7)).unwrap();
    let b = cs.allocate_witness(felt(8)).unwrap();
    let zero = cs.allocate_constant(Felt::zero()).unwrap();
    let outputs = compute_round_function(&mut cs, &[a, b], &[zero]).unwrap();
    (cs, outputs)
}

fn failure(gate: GateKind, row: usize, constraint: usize) -> Option<UnsatisfiedConstraint> {
    Some(UnsatisfiedConstraint { gate, row, constraint })
}

#[test]
fn an_honest_trace_is_satisfied() {
    let (mut cs, _) = with_round_function();
    cs.finalize().unwrap();
    assert!(check_if_satisfied(&cs));
    assert_eq!(first_unsatisfied(&cs), Ok(None));
    assert_eq!(check_trace(&cs, cs.trace()), Ok(None));
}

#[test]
fn the_check_can_be_repeated() {
    let (mut cs, _) = with_round_function();
    cs.finalize().unwrap();
    for _ in 0..3 {
        assert!(check_if_satisfied(&cs));
    }
}

#[test]
fn padding_keeps_a_satisfied_system_satisfied() {
    let (mut cs, _) = with_round_function();
    assert_eq!(cs.num_rows(), 5);
    cs.finalize().unwrap();
    assert_eq!(cs.num_rows(), 8);
    assert!(check_if_satisfied(&cs));
    let mut padded = cs.trace().clone();
    assert_eq!(padded[5..].to_vec(), vec![vec![Felt::zero(); 12]; 3]);
    padded[6][3] = felt(1);
    assert_eq!(check_trace(&cs, &padded), Ok(None));
}

#[test]
fn padding_keeps_an_unsatisfied_system_unsatisfied() {
    let (mut cs, outputs) = with_round_function();
    cs.rebind(outputs[0], felt(1)).unwrap();
    cs.finalize().unwrap();
    assert!(!check_if_satisfied(&cs));
}

#[test]
fn a_system_that_is_not_finalized_is_not_checked() {
    let (cs, _) = with_round_function();
    assert!(!check_if_satisfied(&cs));
    assert_eq!(
        first_unsatisfied(&cs),
        Err(CsError::Configuration(ConfigurationError::WrongPhase))
    );
    assert_eq!(
        check_trace(&cs, &Vec::new()),
        Err(CsError::Configuration(ConfigurationError::WrongPhase))
    );
}

#[test]
fn a_trace_of_another_shape_is_refused() {
    let (mut cs, _) = with_round_function();
    cs.finalize().unwrap();
    let mut short = cs.trace().clone();
    short.pop();
    assert_eq!(
        check_trace(&cs, &short),
        Err(CsError::Configuration(ConfigurationError::TraceShape))
    );
    let mut narrow = cs.trace().clone();
    narrow[7].pop();
    assert_eq!(
        check_trace(&cs, &narrow),
        Err(CsError::Configuration(ConfigurationError::TraceShape))
    );
}

#[test]
fn a_flipped_output_fails_the_lane_that_made_it() {
    let (mut cs, outputs) = with_round_function();
    let honest = cs.read(&outputs).unwrap()[0];
    cs.rebind(outputs[0], honest.add(&Felt::one())).unwrap();
    cs.finalize().unwrap();
    assert!(!check_if_satisfied(&cs));
    assert_eq!(first_unsatisfied(&cs), Ok(failure(GateKind::RoundFunction, 4, 0)));
}

#[test]
fn a_flipped_middle_variable_fails_where_it_is_made() {
    let (mut cs, _) = with_round_function();
    let middle = Variable { system: 7, index: 7 };
    cs.rebind(middle, felt(1)).unwrap();
    cs.finalize().unwrap();
    assert_eq!(first_unsatisfied(&cs), Ok(failure(GateKind::RoundFunction, 2, 1)));
}

#[test]
fn a_flipped_constant_fails_its_row() {
    let (mut cs, _) = with_round_function();
    let zero = Variable { system: 7, index: 2 };
    cs.rebind(zero, felt(5)).unwrap();
    cs.finalize().unwrap();
    assert_eq!(first_unsatisfied(&cs), Ok(failure(GateKind::ConstantsAllocator, 0, 0)));
}

#[test]
fn a_changed_constant_column_fails_the_second_constraint() {
    let (mut cs, _) = with_round_function();
    cs.finalize().unwrap();
    let mut trace = cs.trace().clone();
    trace[0][0] = felt(9);
    trace[0][10] = felt(9);
    assert_eq!(check_trace(&cs, &trace), Ok(failure(GateKind::ConstantsAllocator, 0, 1)));
}

#[test]
fn a_cell_that_leaves_its_binding_fails_the_copy_constraint() {
    let (mut cs, _) = with_round_function();
    let zero = Variable { system: 7, index: 2 };
    cs.rebind(zero, felt(5)).unwrap();
    cs.finalize().unwrap();
    let mut trace = cs.trace().clone();
    trace[0][0] = Felt::zero();
    assert_eq!(check_trace(&cs, &trace), Ok(failure(GateKind::ConstantsAllocator, 0, 2)));
}

#[test]
fn a_consistent_row_on_other_inputs_fails_the_copy_constraint() {
    let (mut cs, _) = with_round_function();
    cs.finalize().unwrap();
    let other = felts(&[7, 9, 0]);
    let made = small_params().apply_layer(GateFamily::Poseidon2, 0, &other);
    let mut trace = cs.trace().clone();
    for lane in 0..3 {
        trace[1][lane] = other[lane];
        trace[1][3 + lane] = made[lane];
    }
    assert_eq!(check_trace(&cs, &trace), Ok(failure(GateKind::RoundFunction, 1, 3)));
    let other = felts(&[6, 8, 0]);
    let made = small_params().apply_layer(GateFamily::Poseidon2, 0, &other);
    for lane in 0..3 {
        trace[1][lane] = other[lane];
        trace[1][3 + lane] = made[lane];
    }
    assert_eq!(check_trace(&cs, &trace), Ok(failure(GateKind::RoundFunction, 1, 3)));
}

#[test]
fn a_changed_input_cell_fails_the_first_lane() {
    let (mut cs, _) = with_round_function();
    cs.finalize().unwrap();
    let mut trace = cs.trace().clone();
    trace[1][1] = felt(100);
    assert_eq!(check_trace(&cs, &trace), Ok(failure(GateKind::RoundFunction, 1, 0)));
}

#[test]
fn cells_outside_the_gates_are_free() {
    let (mut cs, _) = with_round_function();
    cs.finalize().unwrap();
    let mut trace = cs.trace().clone();
    trace[1][6] = felt(100);
    trace[1][9] = felt(100);
    trace[0][1] = felt(100);
    trace[7][0] = felt(100);
    assert_eq!(check_trace(&cs, &trace), Ok(None));
}
