use poseidon_circuit::error::{ConfigurationError, CsError};
use poseidon_circuit::field::Felt;
use poseidon_circuit::geometry::{Gate, GateKind, GatePlacementStrategy, Geometry};
use poseidon_circuit::model::{Phase, Variable};
use poseidon_circuit::permutation::{GateFamily, PermutationParams};
use poseidon_circuit::system::{power_of_two, ConstraintSystem, ResolverOptions, Row};

fn felt(x: u64) -> Felt {
    Felt::from_u64_with_reduction(x)
}

fn felts(xs: &[u64]) -> Vec<Felt> {
    xs.iter().map(|x| felt(*x)).collect()
}

fn small_params() -> PermutationParams {
    let mds = vec![felts(&[2, 3, 1]), felts(&[1, 2, 3]), felts(&[3, 1, 2])];
    let constants = vec![felts(&[1, 2, 3]), felts(&[4, 5, 6])];
    PermutationParams::new(2, 1, 1, mds, constants).unwrap()
}

fn geometry(copy: usize, witness: usize, constant: usize, degree: usize) -> Geometry {
    Geometry {
        num_columns_under_copy_permutation: copy,
        num_witness_columns: witness,
        num_constant_columns: constant,
        max_allowed_constraint_degree: degree,
    }
}

fn refused(reason: ConfigurationError) -> CsError {
    CsError::Configuration(reason)
}

const GENERAL: GatePlacementStrategy = GatePlacementStrategy::UseGeneralPurposeColumns;

fn round_gate() -> Gate {
    Gate::RoundFunction { family: GateFamily::Poseidon, params: small_params() }
}

fn built(rows: usize, variables: usize) -> ConstraintSystem {
    let mut cs = ConstraintSystem::new(7, geometry(8, 2, 2, 8), rows).unwrap();
    cs.configure(round_gate(), GENERAL).unwrap();
    cs.configure(Gate::ConstantsAllocator, GENERAL).unwrap();
    cs.configure(Gate::Nop, GENERAL).unwrap();
    cs.build(ResolverOptions::new(variables)).unwrap();
    cs
}

#[test]
fn powers_of_two_are_recognized() {
    for n in [1usize, 2, 4, 8, 1024, 1 << 40] {
        assert!(power_of_two(n));
    }
    for n in [0usize, 3, 6, 12, 1023, usize::MAX] {
        assert!(!power_of_two(n));
    }
}

#[test]
fn a_new_system_is_configuring_and_empty() {
    let g = geometry(80, 0, 8, 8);
    let cs = ConstraintSystem::new(3, g, 8).unwrap();
    assert_eq!(cs.phase(), Phase::Configuring);
    assert_eq!(cs.geometry(), g);
    assert_eq!(cs.id(), 3);
    assert_eq!(cs.max_trace_len(), 8);
    assert_eq!(cs.max_variables(), 0);
    assert_eq!(cs.num_rows(), 0);
    assert_eq!(cs.num_variables(), 0);
    assert!(!cs.is_configured(GateKind::Nop));
    assert!(cs.round_params().is_none());
    assert!(cs.round_family().is_none());
    assert!(cs.trace().is_empty());
}

#[test]
fn a_row_count_that_is_no_power_of_two_is_refused() {
    let g = geometry(80, 0, 8, 8);
    assert_eq!(
        ConstraintSystem::new(1, g, 12).err(),
        Some(refused(ConfigurationError::TraceLength))
    );
    assert_eq!(
        ConstraintSystem::new(1, g, 0).err(),
        Some(refused(ConfigurationError::TraceLength))
    );
}

#[test]
fn columns_that_cannot_be_counted_are_refused() {
    let g = geometry(usize::MAX, 1, 0, 8);
    assert_eq!(
        ConstraintSystem::new(1, g, 8).err(),
        Some(refused(ConfigurationError::GeometryTooWide))
    );
    let g = geometry(usize::MAX - 1, 0, 2, 8);
    assert_eq!(
        ConstraintSystem::new(1, g, 8).err(),
        Some(refused(ConfigurationError::GeometryTooWide))
    );
}

#[test]
fn configuring_after_build_is_refused() {
    let mut cs = ConstraintSystem::new(1, geometry(8, 0, 2, 8), 8).unwrap();
    cs.build(ResolverOptions::new(16)).unwrap();
    assert_eq!(cs.configure(Gate::Nop, GENERAL), Err(refused(ConfigurationError::WrongPhase)));
    assert!(!cs.is_configured(GateKind::Nop));
}

#[test]
fn configuring_a_kind_twice_is_refused() {
    let mut cs = ConstraintSystem::new(1, geometry(8, 0, 2, 8), 8).unwrap();
    cs.configure(Gate::Nop, GENERAL).unwrap();
    assert_eq!(
        cs.configure(Gate::Nop, GENERAL),
        Err(refused(ConfigurationError::GateAlreadyConfigured))
    );
}

#[test]
fn a_degree_above_the_geometry_is_refused() {
    let mut cs = ConstraintSystem::new(1, geometry(8, 0, 2, 4), 8).unwrap();
    assert_eq!(
        cs.configure(round_gate(), GENERAL),
        Err(refused(ConfigurationError::DegreeExceeded))
    );
    assert!(!cs.is_configured(GateKind::RoundFunction));
    cs.configure(Gate::ConstantsAllocator, GENERAL).unwrap();
    let mut exact = ConstraintSystem::new(1, geometry(8, 0, 2, 5), 8).unwrap();
    exact.configure(round_gate(), GENERAL).unwrap();
}

#[test]
fn a_gate_wider_than_the_columns_is_refused() {
    let mut cs = ConstraintSystem::new(1, geometry(5, 0, 2, 8), 8).unwrap();
    assert_eq!(
        cs.configure(round_gate(), GENERAL),
        Err(refused(ConfigurationError::ColumnsExceeded))
    );
    let mut exact = ConstraintSystem::new(1, geometry(6, 0, 0, 8), 8).unwrap();
    exact.configure(round_gate(), GENERAL).unwrap();
    assert_eq!(
        exact.configure(Gate::ConstantsAllocator, GENERAL),
        Err(refused(ConfigurationError::ColumnsExceeded))
    );
}

#[test]
fn general_purpose_gates_share_the_first_columns() {
    let mut cs = ConstraintSystem::new(1, geometry(8, 0, 2, 8), 8).unwrap();
    cs.configure(Gate::ConstantsAllocator, GENERAL).unwrap();
    cs.configure(round_gate(), GENERAL).unwrap();
    let c = cs.constants_placement().unwrap();
    let r = cs.round_placement().unwrap();
    assert_eq!((c.copy_base, c.copy_span, c.constant_base, c.constant_span), (0, 1, 0, 1));
    assert_eq!((r.copy_base, r.copy_span, r.constant_base, r.constant_span), (0, 6, 0, 0));
}

#[test]
fn specialized_gates_get_ranges_of_their_own() {
    let mut cs = ConstraintSystem::new(1, geometry(20, 0, 4, 8), 8).unwrap();
    let twice = GatePlacementStrategy::UseSpecializedColumns { num_repetitions: 2 };
    let thrice = GatePlacementStrategy::UseSpecializedColumns { num_repetitions: 3 };
    cs.configure(round_gate(), twice).unwrap();
    cs.configure(Gate::ConstantsAllocator, thrice).unwrap();
    let r = cs.round_placement().unwrap();
    let c = cs.constants_placement().unwrap();
    assert_eq!(r.strategy, twice);
    assert_eq!((r.copy_base, r.copy_span), (8, 12));
    assert_eq!((c.copy_base, c.copy_span), (5, 3));
    assert_eq!((c.constant_base, c.constant_span), (1, 3));
    assert!(c.copy_base + c.copy_span <= r.copy_base);
}

#[test]
fn specialized_gates_leave_room_for_the_shared_columns() {
    let mut cs = ConstraintSystem::new(1, geometry(8, 0, 2, 8), 8).unwrap();
    cs.configure(Gate::ConstantsAllocator, GENERAL).unwrap();
    let once = GatePlacementStrategy::UseSpecializedColumns { num_repetitions: 1 };
    let twice = GatePlacementStrategy::UseSpecializedColumns { num_repetitions: 2 };
    let none = GatePlacementStrategy::UseSpecializedColumns { num_repetitions: 0 };
    let mut other = ConstraintSystem::new(1, geometry(8, 0, 2, 8), 8).unwrap();
    assert_eq!(
        other.configure(round_gate(), twice),
        Err(refused(ConfigurationError::ColumnsExceeded))
    );
    assert_eq!(
        other.configure(round_gate(), none),
        Err(refused(ConfigurationError::ColumnsExceeded))
    );
    let huge = GatePlacementStrategy::UseSpecializedColumns { num_repetitions: usize::MAX };
    assert_eq!(
        other.configure(round_gate(), huge),
        Err(refused(ConfigurationError::ColumnsExceeded))
    );
    cs.configure(round_gate(), once).unwrap();
    assert_eq!(cs.round_placement().unwrap().copy_base, 2);
    let mut full = ConstraintSystem::new(1, geometry(6, 0, 2, 8), 8).unwrap();
    full.configure(round_gate(), once).unwrap();
    assert_eq!(
        full.configure(Gate::ConstantsAllocator, GENERAL),
        Err(refused(ConfigurationError::ColumnsExceeded))
    );
}

#[test]
fn build_succeeds_once() {
    let mut cs = ConstraintSystem::new(1, geometry(8, 0, 2, 8), 8).unwrap();
    cs.configure(round_gate(), GENERAL).unwrap();
    assert_eq!(cs.build(ResolverOptions::new(128)), Ok(()));
    assert_eq!(cs.phase(), Phase::Built);
    assert_eq!(cs.max_variables(), 128);
    assert_eq!(cs.build(ResolverOptions::new(64)), Err(refused(ConfigurationError::WrongPhase)));
    assert_eq!(cs.max_variables(), 128);
}

#[test]
fn a_built_system_takes_a_witness() {
    let mut cs = built(8, 16);
    let v = cs.allocate_witness(felt(9)).unwrap();
    assert_eq!(v, Variable { system: 7, index: 0 });
    assert!(cs.is_bound(v));
    assert_eq!(cs.value_at(0), felt(9));
    assert_eq!(cs.num_variables(), 1);
    assert_eq!(cs.num_rows(), 0);
    let again = cs.allocate_witness(felt(9)).unwrap();
    assert_eq!(again, Variable { system: 7, index: 1 });
}

#[test]
fn witnesses_are_refused_before_build_and_beyond_the_limit() {
    let mut cs = ConstraintSystem::new(1, geometry(8, 0, 2, 8), 8).unwrap();
    assert_eq!(cs.allocate_witness(felt(1)), Err(refused(ConfigurationError::WrongPhase)));
    let mut cs = built(8, 2);
    cs.allocate_witness(felt(1)).unwrap();
    cs.allocate_witness(felt(2)).unwrap();
    assert_eq!(cs.allocate_witness(felt(3)), Err(CsError::CapacityExceeded));
    assert_eq!(cs.num_variables(), 2);
}

#[test]
fn a_constant_is_allocated_once() {
    let mut cs = built(8, 16);
    let a = cs.allocate_constant(felt(5)).unwrap();
    assert_eq!(cs.num_variables(), 1);
    assert_eq!(cs.num_rows(), 1);
    assert!(cs.constant_cached(felt(5)));
    assert!(!cs.constant_cached(felt(6)));
    let b = cs.allocate_constant(felt(5)).unwrap();
    assert_eq!(a, b);
    assert_eq!(cs.num_variables(), 1);
    assert_eq!(cs.num_rows(), 1);
    let c = cs.allocate_constant(felt(6)).unwrap();
    assert_ne!(a, c);
    assert_eq!(cs.num_variables(), 2);
    assert_eq!(cs.num_rows(), 2);
    assert_eq!(cs.read(&[a, c, b]).unwrap(), felts(&[5, 6, 5]));
    match cs.row(1) {
        Row::Constant { variable, value } => {
            assert_eq!(*variable, 1);
            assert_eq!(*value, felt(6));
        }
        other => panic!("expected the row of a constant, got {:?}", other),
    }
}

#[test]
fn a_cached_constant_is_had_without_room() {
    let mut cs = built(1, 1);
    let a = cs.allocate_constant(felt(5)).unwrap();
    assert_eq!(cs.allocate_constant(felt(6)), Err(CsError::CapacityExceeded));
    assert_eq!(cs.allocate_constant(felt(5)), Ok(a));
}

#[test]
fn a_constant_needs_its_gate() {
    let mut cs = ConstraintSystem::new(1, geometry(8, 0, 2, 8), 8).unwrap();
    assert_eq!(cs.allocate_constant(felt(1)), Err(refused(ConfigurationError::WrongPhase)));
    cs.build(ResolverOptions::new(16)).unwrap();
    assert_eq!(
        cs.allocate_constant(felt(1)),
        Err(refused(ConfigurationError::GateNotConfigured))
    );
    assert_eq!(cs.num_variables(), 0);
}

#[test]
fn read_names_the_first_unbound_variable() {
    let mut cs = built(8, 16);
    let a = cs.allocate_witness(felt(1)).unwrap();
    let b = cs.allocate_witness(felt(2)).unwrap();
    assert_eq!(cs.read(&[b, a, b]).unwrap(), felts(&[2, 1, 2]));
    assert_eq!(cs.read(&[]).unwrap(), Vec::new());
    let placeholder = Variable::placeholder();
    assert!(placeholder.is_placeholder());
    assert!(!a.is_placeholder());
    assert!(!cs.is_bound(placeholder));
    assert_eq!(
        cs.read(&[a, placeholder, b]),
        Err(CsError::UnboundVariable { position: 1 })
    );
    let later = Variable { system: 7, index: 2 };
    assert_eq!(cs.read(&[later]), Err(CsError::UnboundVariable { position: 0 }));
}

#[test]
fn a_variable_of_another_system_is_not_bound() {
    let mut cs = built(8, 16);
    let mut other = ConstraintSystem::new(8, geometry(8, 2, 2, 8), 8).unwrap();
    other.build(ResolverOptions::new(16)).unwrap();
    let mine = cs.allocate_witness(felt(1)).unwrap();
    let theirs = other.allocate_witness(felt(2)).unwrap();
    assert_eq!(mine.index, theirs.index);
    assert!(!cs.is_bound(theirs));
    assert!(!other.is_bound(mine));
    assert_eq!(cs.read(&[mine, theirs]), Err(CsError::UnboundVariable { position: 1 }));
    assert_eq!(cs.rebind(theirs, felt(3)), Err(CsError::UnboundVariable { position: 0 }));
}

#[test]
fn rebind_replaces_one_binding() {
    let mut cs = built(8, 16);
    let a = cs.allocate_witness(felt(1)).unwrap();
    let b = cs.allocate_witness(felt(2)).unwrap();
    cs.rebind(a, felt(10)).unwrap();
    assert_eq!(cs.read(&[a, b]).unwrap(), felts(&[10, 2]));
    cs.finalize().unwrap();
    assert_eq!(cs.rebind(a, felt(11)), Err(refused(ConfigurationError::WrongPhase)));
    assert_eq!(cs.read(&[a]).unwrap(), felts(&[10]));
}

#[test]
fn finalize_pads_to_a_power_of_two() {
    let mut cs = built(8, 16);
    for c in 1..=3u64 {
        cs.allocate_constant(felt(c)).unwrap();
    }
    assert_eq!(cs.num_rows(), 3);
    assert_eq!(cs.finalize(), Ok(()));
    assert_eq!(cs.phase(), Phase::Finalized);
    assert_eq!(cs.num_rows(), 4);
    assert!(matches!(cs.row(3), Row::Nop));
    assert_eq!(cs.trace().len(), 4);
    assert_eq!(cs.finalize(), Err(refused(ConfigurationError::WrongPhase)));
    assert_eq!(cs.allocate_witness(felt(1)), Err(refused(ConfigurationError::WrongPhase)));
}

#[test]
fn an_empty_system_pads_to_one_row() {
    let mut cs = built(8, 16);
    cs.finalize().unwrap();
    assert_eq!(cs.num_rows(), 1);
    assert_eq!(cs.trace(), &vec![vec![Felt::zero(); 12]]);
}

#[test]
fn finalize_needs_a_gate_to_pad_with() {
    let mut cs = ConstraintSystem::new(1, geometry(8, 0, 2, 8), 8).unwrap();
    cs.configure(Gate::ConstantsAllocator, GENERAL).unwrap();
    cs.build(ResolverOptions::new(16)).unwrap();
    for c in 1..=3u64 {
        cs.allocate_constant(felt(c)).unwrap();
    }
    assert_eq!(cs.finalize(), Err(refused(ConfigurationError::GateNotConfigured)));
    assert_eq!(cs.phase(), Phase::Built);
    assert_eq!(cs.num_rows(), 3);
    cs.allocate_constant(felt(4)).unwrap();
    assert_eq!(cs.finalize(), Ok(()));
    assert_eq!(cs.num_rows(), 4);
}

#[test]
fn finalize_is_refused_while_configuring() {
    let mut cs = ConstraintSystem::new(1, geometry(8, 0, 2, 8), 8).unwrap();
    assert_eq!(cs.finalize(), Err(refused(ConfigurationError::WrongPhase)));
}

#[test]
fn the_trace_is_laid_out_by_the_geometry() {
    let mut cs = built(8, 16);
    let five = cs.allocate_constant(felt(5)).unwrap();
    assert_eq!(five.index, 0);
    cs.finalize().unwrap();
    let trace = cs.trace();
    assert_eq!(trace.len(), 1);
    let mut expected = vec![Felt::zero(); 12];
    expected[0] = felt(5);
    expected[8 + 2] = felt(5);
    assert_eq!(trace[0], expected);
}

#[test]
fn a_specialized_constant_stands_in_its_own_columns() {
    let mut cs = ConstraintSystem::new(1, geometry(8, 1, 4, 8), 8).unwrap();
    let twice = GatePlacementStrategy::UseSpecializedColumns { num_repetitions: 2 };
    cs.configure(Gate::ConstantsAllocator, twice).unwrap();
    cs.build(ResolverOptions::new(16)).unwrap();
    cs.allocate_constant(felt(9)).unwrap();
    cs.finalize().unwrap();
    let mut expected = vec![Felt::zero(); 13];
    expected[6] = felt(9);
    expected[8 + 1 + 2] = felt(9);
    assert_eq!(cs.trace()[0], expected);
}
