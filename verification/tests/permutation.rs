use poseidon_circuit::field::Felt;
use poseidon_circuit::permutation::{
    permutation, poseidon2_permutation, poseidon_permutation, GateFamily, PermutationParams,
};

fn felt(x: u64) -> Felt {
    Felt::from_u64_with_reduction(x)
}

fn felts(xs: &[u64]) -> Vec<Felt> {
    xs.iter().map(|x| felt(*x)).collect()
}

fn small_params() -> PermutationParams {
    let mds = vec![felts(&[2, 3, 1]), felts(&[1, 2, 3]), felts(&[3, 1, 2])];
    let constants = vec![felts(&[1, 2, 3]), felts(&[4, 5, 6])];
    PermutationParams::new(2, 1, 1, mds, constants).unwrap()
}

fn wide_params() -> PermutationParams {
    let mut mds = Vec::new();
    for i in 0..12u64 {
        let mut row = Vec::new();
        for j in 0..12u64 {
            row.push(felt((i * 13 + j * 5 + i * j) % 17 + 1));
        }
        mds.push(row);
    }
    let mut constants = Vec::new();
    for r in 0..8u64 {
        let mut row = Vec::new();
        for i in 0..12u64 {
            row.push(felt((r * 12 + i + 1).wrapping_mul(0x9E37_79B9_7F4A_7C15)));
        }
        constants.push(row);
    }
    PermutationParams::new(8, 4, 1, mds, constants).unwrap()
}

#[test]
fn parameters_report_their_shape() {
    let p = small_params();
    assert_eq!(p.rate(), 2);
    assert_eq!(p.capacity(), 1);
    assert_eq!(p.width(), 3);
    assert_eq!(p.rounds(), 2);
    assert_eq!(p.layers(), 4);
}

#[test]
fn parameters_are_refused_when_the_matrix_is_not_square() {
    let mds = vec![felts(&[2, 3, 1]), felts(&[1, 2, 3])];
    assert!(PermutationParams::new(2, 1, 1, mds, Vec::new()).is_none());
    let mds = vec![felts(&[2, 3, 1]), felts(&[1, 2]), felts(&[3, 1, 2])];
    assert!(PermutationParams::new(2, 1, 1, mds, Vec::new()).is_none());
}

#[test]
fn parameters_are_refused_when_a_round_lacks_constants() {
    let mds = vec![felts(&[2, 3, 1]), felts(&[1, 2, 3]), felts(&[3, 1, 2])];
    let constants = vec![felts(&[1, 2, 3]), felts(&[4, 5])];
    assert!(PermutationParams::new(2, 1, 1, mds, constants).is_none());
}

#[test]
fn parameters_are_refused_when_partial_lanes_exceed_the_width() {
    let mds = vec![felts(&[2, 3, 1]), felts(&[1, 2, 3]), felts(&[3, 1, 2])];
    assert!(PermutationParams::new(2, 1, 4, mds, Vec::new()).is_none());
}

#[test]
fn parameters_are_refused_when_the_width_overflows() {
    assert!(PermutationParams::new(usize::MAX, 1, 0, Vec::new(), Vec::new()).is_none());
}

#[test]
fn poseidon_rounds_are_all_full() {
    let p = small_params();
    assert_eq!(p.active_lanes(GateFamily::Poseidon, 0), 3);
    assert_eq!(p.active_lanes(GateFamily::Poseidon, 1), 3);
}

#[test]
fn poseidon2_rounds_alternate() {
    let p = small_params();
    assert_eq!(p.active_lanes(GateFamily::Poseidon2, 0), 3);
    assert_eq!(p.active_lanes(GateFamily::Poseidon2, 1), 1);
    assert_eq!(p.active_lanes(GateFamily::Poseidon2, 2), 3);
}

#[test]
fn mixing_multiplies_by_the_matrix() {
    let p = small_params();
    assert_eq!(p.mix(&felts(&[7, 8, 0])), felts(&[38, 23, 29]));
}

#[test]
fn layers_follow_one_another() {
    let p = small_params();
    let s0 = p.apply_layer(GateFamily::Poseidon2, 0, &felts(&[7, 8, 0]));
    assert_eq!(s0, felts(&[38, 23, 29]));
    let s1 = p.apply_layer(GateFamily::Poseidon2, 1, &s0);
    assert_eq!(s1, felts(&[243_299_705, 210_418_745, 347_547_086]));
    let s2 = p.apply_layer(GateFamily::Poseidon2, 2, &s1);
    assert_eq!(
        s2,
        felts(&[12_236_988_686_062_774_671, 15_341_866_378_712_756_601, 9_132_110_993_824_177_767])
    );
    let s3 = p.apply_layer(GateFamily::Poseidon2, 3, &s2);
    assert_eq!(
        s3,
        felts(&[5_844_711_224_429_659_628, 14_976_822_216_717_068_211, 14_976_822_216_305_683_185])
    );
}

#[test]
fn small_poseidon_permutation_has_the_expected_value() {
    let p = small_params();
    let mut state = felts(&[7, 8, 0]);
    poseidon_permutation(&p, &mut state);
    assert_eq!(
        state,
        felts(&[6_719_955_812_087_054_637, 16_747_930_544_884_780_768, 1_983_400_725_937_111_114])
    );
}

#[test]
fn small_poseidon2_permutation_has_the_expected_value() {
    let p = small_params();
    let mut state = felts(&[7, 8, 0]);
    poseidon2_permutation(&p, &mut state);
    assert_eq!(
        state,
        felts(&[5_844_711_224_429_659_628, 14_976_822_216_717_068_211, 14_976_822_216_305_683_185])
    );
}

#[test]
fn permutation_without_rounds_mixes_twice() {
    let mds = vec![felts(&[1, 1]), felts(&[1, 2])];
    let p = PermutationParams::new(1, 1, 1, mds, Vec::new()).unwrap();
    let mut state = felts(&[1, 2]);
    permutation(&p, GateFamily::Poseidon, &mut state);
    assert_eq!(state, felts(&[8, 13]));
}

#[test]
fn wide_permutations_have_the_expected_leading_lanes() {
    let p = wide_params();
    let mut state = felts(&[0, 1, 2, 3, 4, 5, 6, 7, 0, 0, 0, 0]);
    poseidon_permutation(&p, &mut state);
    assert_eq!(
        state[..4].to_vec(),
        felts(&[
            18_155_588_305_194_511_174,
            9_954_770_888_393_136_811,
            3_789_902_041_702_493_892,
            745_374_623_272_238_301
        ])
    );
    let mut state = felts(&[0, 1, 2, 3, 4, 5, 6, 7, 0, 0, 0, 0]);
    poseidon2_permutation(&p, &mut state);
    assert_eq!(
        state[..4].to_vec(),
        felts(&[
            2_182_462_270_045_048_020,
            11_225_592_394_807_483_907,
            8_352_249_398_998_386_489,
            2_353_823_480_477_325_437
        ])
    );
}

#[test]
fn the_family_selects_the_permutation() {
    let p = small_params();
    let mut a = felts(&[7, 8, 0]);
    let mut b = felts(&[7, 8, 0]);
    permutation(&p, GateFamily::Poseidon, &mut a);
    poseidon_permutation(&p, &mut b);
    assert_eq!(a, b);
    let mut c = felts(&[7, 8, 0]);
    let mut d = felts(&[7, 8, 0]);
    permutation(&p, GateFamily::Poseidon2, &mut c);
    poseidon2_permutation(&p, &mut d);
    assert_eq!(c, d);
    assert_ne!(a, c);
}
