use openvote::air::{
    copy_of, is_power_of_two, AirContext, Assertion, ProofOptions, TraceInfo, TraceTable,
    TransitionConstraintDegree,
};
use openvote::aggregator::build_options;
use openvote::air::{FieldExtension, HashFunction};
use openvote::constraint::{
    agg_constraint, agg_range, apply_double_and_add_step, are_equal, diff, enforce_copy,
    enforce_double_and_add_step_constrained, enforce_limb_step, fill_range, is_binary, mux, not, select, sum,
    write_range, zeros,
};
use openvote::ecc::{
    apply_point_addition_mixed, apply_point_addition_mixed_bit, apply_point_doubling, compute_add,
    compute_add_mixed, compute_negation_affine, compute_negation_projective, enforce_point_addition,
    enforce_point_addition_mixed, enforce_point_addition_mixed_bit, enforce_point_addition_mixed_reduce_affine,
    enforce_point_addition_mixed_unchecked, enforce_point_addition_reduce_affine, enforce_point_doubling,
    enforce_point_doubling_bit, enforce_scalar_mul, enforce_scalar_mul_bit, identity, reduce_to_affine, Affine,
    Curve, Projective,
};
use openvote::merkle::constants::{cycle_length, is_valid_depth};
use openvote::merkle::{
    calculate_merkle_proof, elements_equal, hash_voting_key, merge_hash, verify_merkle_proof,
};
use openvote::tally::{negated_tally_point, normalized, start_point, tally_matches, vote_sum};
use openvote::wire::{
    read_byte_array, read_byte_rows, read_count, read_element, read_elements, read_rows, write_byte_rows,
    write_bytes, write_count, write_element, write_elements, write_rows, DeserializationError,
};
use openvote::field::{Felt, MODULUS};
use openvote::fp6::Fp6;
use openvote::fri::FriOptions;
use openvote::periodic::{flag_column, index_map, spread_column, stitch, value_at};
use rand_core::{OsRng, RngCore};
use openvote::schnorr::prover::build_sig_info;
use openvote::schnorr::{
    hash_message, prepare_message, prepare_messages, projective_to_elements,
};
use openvote::rescue::{
    apply_round, digest, digest_bytes, enforce_round, get_round_constants, hash_cycle_mask, merge,
    permutation, round, Rescue, INV_ALPHA,
};

fn f(x: u64) -> Felt {
    Felt::new(x)
}

fn unit_fp6(c: [u64; 6]) -> Fp6 {
    Fp6 { c0: f(c[0]), c1: f(c[1]), c2: f(c[2]), c3: f(c[3]), c4: f(c[4]), c5: f(c[5]) }
}

fn unit_curve() -> Curve {
    let red = unit_fp6([6, 1, 0, 0, 0, 0]);
    let a = Fp6::one();
    let gx = unit_fp6([2, 3, 5, 7, 11, 13]);
    let gy = unit_fp6([17, 19, 23, 29, 31, 37]);
    let b = gy.mul(gy, &red).sub(gx.mul(gx, &red).mul(gx, &red)).sub(a.mul(gx, &red));
    Curve { red, a, b3: b.add(b).add(b), generator: Affine { x: gx, y: gy } }
}

fn unit_invert(m: &Vec<Vec<Felt>>) -> Vec<Vec<Felt>> {
    let n = m.len();
    let mut a = m.clone();
    let mut inv: Vec<Vec<Felt>> =
        (0..n).map(|i| (0..n).map(|j| if i == j { Felt::one() } else { Felt::zero() }).collect()).collect();
    for col in 0..n {
        let pivot = (col..n).find(|&r| a[r][col] != Felt::zero()).unwrap();
        a.swap(col, pivot);
        inv.swap(col, pivot);
        let scale = a[col][col].inv();
        for j in 0..n {
            a[col][j] = a[col][j].mul(scale);
            inv[col][j] = inv[col][j].mul(scale);
        }
        for r in 0..n {
            if r != col {
                let factor = a[r][col];
                for j in 0..n {
                    a[r][j] = a[r][j].sub(factor.mul(a[col][j]));
                    inv[r][j] = inv[r][j].sub(factor.mul(inv[col][j]));
                }
            }
        }
    }
    inv
}

fn unit_rescue() -> Rescue {
    let mds: Vec<Vec<Felt>> = (0..14u64).map(|i| (0..14u64).map(|j| f(i + 1 + 15 + j).inv()).collect()).collect();
    let inv_mds = unit_invert(&mds);
    let mut seed: u64 = 0x9e3779b97f4a7c15;
    let ark: Vec<Vec<Felt>> = (0..7)
        .map(|_| {
            (0..28)
                .map(|_| {
                    seed = seed.wrapping_mul(6364136223846793005).wrapping_add(1442695040888963407);
                    f(seed)
                })
                .collect()
        })
        .collect();
    Rescue::new(mds, inv_mds, ark).unwrap()
}

// FIELD
// ================================================================================================

#[test]
fn field_modulus_is_two_to_the_62_plus_two_to_the_56_plus_two_to_the_55_plus_one() {
    assert_eq!(MODULUS, (1u64 << 62) + (1u64 << 56) + (1u64 << 55) + 1);
    assert_eq!(MODULUS, 4719772409484279809);
}

#[test]
fn field_elements_are_reduced() {
    assert_eq!(Felt::new(MODULUS).value, 0);
    assert_eq!(Felt::new(MODULUS + 5).value, 5);
    assert_eq!(Felt::new(u64::MAX).value, u64::MAX % MODULUS);
    assert_eq!(Felt::new(u64::MAX).value, 4287426845256712188);
    assert_eq!(Felt { value: MODULUS + 7 }.as_int(), 7);
    assert_eq!(Felt::from_bool(true), Felt::one());
    assert_eq!(Felt::from_bool(false), Felt::zero());
}

#[test]
fn field_arithmetic_on_given_values() {
    let a = f(MODULUS - 1);
    assert_eq!(a.add(f(1)), Felt::zero());
    assert_eq!(a.add(a).value, MODULUS - 2);
    assert_eq!(f(3).sub(f(5)).value, MODULUS - 2);
    assert_eq!(f(5).sub(f(3)).value, 2);
    assert_eq!(a.mul(a), Felt::one());
    assert_eq!(f(1 << 40).mul(f(1 << 40)).value, (1u128 << 80).rem_euclid(MODULUS as u128) as u64);
    assert_eq!(f(1 << 40).mul(f(1 << 40)).value, 3314649325744428916);
    assert_eq!(f(7).neg().value, MODULUS - 7);
    assert_eq!(Felt::zero().neg(), Felt::zero());
    assert_eq!(f(21).double().value, 42);
    assert_eq!(f(12).square().value, 144);
    // operands that are not reduced are taken for their residues
    assert_eq!(Felt { value: MODULUS + 2 }.mul(Felt { value: MODULUS + 3 }).value, 6);
    assert_eq!(Felt { value: u64::MAX }.add(Felt { value: u64::MAX }), f(u64::MAX).double());
}

#[test]
fn field_powers_and_inverses() {
    assert_eq!(f(2).pow(10).value, 1024);
    assert_eq!(f(2).pow(0), Felt::one());
    assert_eq!(Felt::zero().pow(0), Felt::one());
    assert_eq!(f(3).pow(MODULUS - 1), Felt::one());
    assert_eq!(f(2).pow(62).value, 1 << 62);
    assert_eq!(f(2).pow(63).value, (1u64 << 63) - MODULUS);
    for x in [1u64, 2, 3, 12345, MODULUS - 1, 0xdead_beef_cafe] {
        assert_eq!(f(x).mul(f(x).inv()), Felt::one());
    }
    assert_eq!(Felt::zero().inv(), Felt::zero());
    assert_eq!(f(2).inv().value, (MODULUS + 1) / 2);
    // the exponent of the inverse S-box undoes the cube
    assert_eq!(INV_ALPHA, 3146514939656186539);
    for x in [0u64, 1, 2, 77, MODULUS - 2] {
        let cube = f(x).mul(f(x)).mul(f(x));
        assert_eq!(cube.pow(INV_ALPHA), f(x));
    }
}

// CONSTRAINTS
// ================================================================================================

#[test]
fn constraint_helpers_on_given_values() {
    assert_eq!(not(Felt::one()), Felt::zero());
    assert_eq!(not(Felt::zero()), Felt::one());
    assert_eq!(not(f(3)).value, MODULUS - 2);
    assert_eq!(is_binary(Felt::zero()), Felt::zero());
    assert_eq!(is_binary(Felt::one()), Felt::zero());
    assert_eq!(is_binary(f(2)).value, 2);
    assert_eq!(are_equal(f(9), f(9)), Felt::zero());
    assert_eq!(are_equal(f(9), f(4)).value, 5);
    assert_eq!(mux(Felt::one(), f(10), f(20)).value, 10);
    assert_eq!(mux(Felt::zero(), f(10), f(20)).value, 20);
    let mut result = vec![f(1), f(2), f(3)];
    agg_constraint(&mut result, 1, f(5), f(7));
    assert_eq!(result, vec![f(1), f(37), f(3)]);
}

#[test]
fn copy_constraint_vanishes_on_a_copy_only() {
    let current = vec![f(4), f(5), f(6)];
    let mut result = vec![Felt::zero(); 5];
    enforce_copy(&mut result, 1, &current, &current, f(1));
    assert!(result.iter().all(|&r| r == Felt::zero()));
    let next = vec![f(4), f(8), f(6)];
    enforce_copy(&mut result, 1, &current, &next, f(2));
    assert_eq!(result, vec![f(0), f(0), f(6), f(0), f(0)]);
    // under a flag of zero nothing is enforced
    let mut result = vec![Felt::zero(); 5];
    enforce_copy(&mut result, 1, &current, &next, Felt::zero());
    assert!(result.iter().all(|&r| r == Felt::zero()));
}

#[test]
fn double_and_add_step_puts_a_limb_together() {
    // the bits 1, 0, 1, 1 make 11
    let mut state = vec![Felt::zero(), Felt::zero()];
    for bit in [1u64, 0, 1, 1] {
        state[1] = f(bit);
        apply_double_and_add_step(&mut state, 0, 1);
    }
    assert_eq!(state[0].value, 11);
}

// EXTENSION AND CURVE
// ================================================================================================

#[test]
fn extension_arithmetic_on_given_values() {
    let red = unit_fp6([6, 1, 0, 0, 0, 0]);
    let u = unit_fp6([0, 1, 0, 0, 0, 0]);
    // u^6 = u + 6
    let mut power = Fp6::one();
    for _ in 0..6 {
        power = power.mul(u, &red);
    }
    assert_eq!(power, red);
    assert_eq!(u.mul_u(&red), unit_fp6([0, 0, 1, 0, 0, 0]));
    assert_eq!(unit_fp6([0, 0, 0, 0, 0, 1]).mul_u(&red), red);
    let a = unit_fp6([1, 2, 3, 4, 5, 6]);
    let b = unit_fp6([7, 8, 9, 10, 11, 12]);
    assert_eq!(a.add(b), unit_fp6([8, 10, 12, 14, 16, 18]));
    assert_eq!(b.sub(a), unit_fp6([6, 6, 6, 6, 6, 6]));
    assert_eq!(a.scale(f(2)), unit_fp6([2, 4, 6, 8, 10, 12]));
    assert_eq!(a.neg().add(a), Fp6::zero());
    assert_eq!(a.mul(Fp6::one(), &red), a);
    assert_eq!(a.mul(b, &red), b.mul(a, &red));
    // (1 + 2u + ... + 6u^5)(7 + ... + 12u^5), reduced by u^6 = u + 6
    assert_eq!(a.mul(b, &red), unit_fp6([1147, 1316, 1208, 999, 683, 254]));
    let w = a.inv(&red);
    assert_eq!(w.mul(a, &red), Fp6::one());
    assert_eq!(Fp6::zero().inv(&red), Fp6::zero());
    assert_eq!(unit_fp6([2, 0, 0, 0, 0, 0]).inv(&red), unit_fp6([(MODULUS + 1) / 2, 0, 0, 0, 0, 0]));
}

#[test]
fn curve_addition_is_a_group_law_on_given_points() {
    let curve = unit_curve();
    let g = curve.generator;
    assert!(g.is_on_curve(&curve));
    assert!(!Affine { x: g.x, y: g.y.add(Fp6::one()) }.is_on_curve(&curve));
    let p = Projective::from_affine(g);
    // the identity is neutral
    assert_eq!(p.add(Projective::identity(), &curve).to_affine(&curve), g);
    assert_eq!(Projective::identity().add(p, &curve).to_affine(&curve), g);
    assert_eq!(Projective::identity().double(&curve).z, Fp6::zero());
    // a point and its negation add up to the identity
    let sum = p.add(p.neg(), &curve);
    assert_eq!(sum.x, Fp6::zero());
    assert_eq!(sum.z, Fp6::zero());
    // doubling is adding a point to itself, and multiples stay on the curve
    let two = p.double(&curve);
    assert_eq!(two.to_affine(&curve), p.add_mixed(g, &curve).to_affine(&curve));
    let three = two.add_mixed(g, &curve);
    assert!(three.to_affine(&curve).is_on_curve(&curve));
    assert_eq!(g.scalar_mul(3, &curve).to_affine(&curve), three.to_affine(&curve));
    assert_eq!(g.scalar_mul(0, &curve).z, Fp6::zero());
    // (2 + 5) G = 2 G + 5 G
    assert_eq!(
        g.scalar_mul(7, &curve).to_affine(&curve),
        g.scalar_mul(2, &curve).add(g.scalar_mul(5, &curve), &curve).to_affine(&curve)
    );
    let mut scalar = [0u8; 32];
    scalar[0] = 7;
    assert_eq!(g.scalar_mul_bytes(&scalar, &curve).to_affine(&curve), g.scalar_mul(7, &curve).to_affine(&curve));
    scalar[0] = 0;
    scalar[1] = 1;
    assert_eq!(g.scalar_mul_bytes(&scalar, &curve).to_affine(&curve), g.scalar_mul(256, &curve).to_affine(&curve));
    // the bit above the 255 of a scalar is not looked at
    scalar[31] = 0x80;
    assert_eq!(g.scalar_mul_bytes(&scalar, &curve).to_affine(&curve), g.scalar_mul(256, &curve).to_affine(&curve));
}

#[test]
fn curve_steps_on_registers() {
    let curve = unit_curve();
    let g = curve.generator;
    assert_eq!(identity()[6], Felt::one());
    assert_eq!(identity().iter().filter(|&&e| e != Felt::zero()).count(), 1);
    let negated = compute_negation_affine(&g.to_vec());
    assert_eq!(negated[..6], g.to_vec()[..6]);
    assert_eq!(negated[6], g.y.c0.neg());
    // a state with a point between two other registers
    let mut state = vec![f(99)];
    state.extend(Projective::from_affine(g).to_vec());
    state.push(f(77));
    let before = state.clone();
    apply_point_doubling(&mut state, 1, &curve);
    assert_eq!(state[0], f(99));
    assert_eq!(state[19], f(77));
    assert_eq!(reduce_to_affine(&state, 1, &curve), g.scalar_mul(2, &curve).to_affine(&curve).to_vec());
    // the constraint of the doubling vanishes on the step, and only there
    let mut result = vec![Felt::zero(); 20];
    enforce_point_doubling_bit(&mut result, &before, &state, 1, Felt::one(), &curve);
    assert!(result.iter().all(|&r| r == Felt::zero()));
    state[3] = state[3].add(Felt::one());
    enforce_point_doubling_bit(&mut result, &before, &state, 1, Felt::one(), &curve);
    assert_eq!(result.iter().filter(|&&r| r != Felt::zero()).count(), 1);
    assert_eq!(result[3], Felt::one());
}

#[test]
fn test_mul_generator() {
    let curve = unit_curve();
    let g = curve.generator;
    let mut x = Projective::from_affine(g);
    let mut scalar = [0u8; 32];
    // the scalar starts as 1, and takes one bit for each step
    scalar[0] = 1;
    for _ in 0..254 {
        x = x.double(&curve);
        let bit = (OsRng.next_u32() % 2) as u8;
        let mut carry = bit;
        for byte in scalar.iter_mut() {
            let shifted = (*byte << 1) | carry;
            carry = *byte >> 7;
            *byte = shifted;
        }
        if bit == 1 {
            x = x.add_mixed(g, &curve);
        }
    }
    let x = x.to_affine(&curve);
    println!("{:?}", x.x);
    println!("{:?}", x.y);
    assert!(x.is_on_curve(&curve));
    assert_eq!(x, g.scalar_mul_bytes(&scalar, &curve).to_affine(&curve));
}

// HASH
// ================================================================================================

#[test]
fn rescue_tables_must_have_their_dimensions() {
    let row = vec![Felt::zero(); 14];
    let constants = vec![Felt::zero(); 28];
    assert!(Rescue::new(vec![row.clone(); 14], vec![row.clone(); 14], vec![constants.clone(); 7]).is_some());
    assert!(Rescue::new(vec![row.clone(); 13], vec![row.clone(); 14], vec![constants.clone(); 7]).is_none());
    assert!(Rescue::new(vec![row.clone(); 14], vec![constants.clone(); 14], vec![constants.clone(); 7]).is_none());
    assert!(Rescue::new(vec![row.clone(); 14], vec![row.clone(); 14], vec![constants.clone(); 8]).is_none());
    assert!(Rescue::new(vec![row.clone(); 14], vec![row.clone(); 14], vec![row.clone(); 7]).is_none());
    let rescue = unit_rescue();
    assert_eq!(rescue.mds[2][3], f(2 + 1 + 15 + 3).inv());
}

#[test]
fn hash_gadget_fidelity() {
    // a fixed test vector: the state 1, 2, ..., 14
    let rescue = unit_rescue();
    let start: Vec<Felt> = (1..=14).map(f).collect();
    let constants = get_round_constants(&rescue);
    assert_eq!(constants.len(), 28);
    let mask = hash_cycle_mask();
    assert_eq!(mask, vec![f(1), f(1), f(1), f(1), f(1), f(1), f(1), f(0)]);

    // the prover applies the seven rounds of a permutation, one on each row
    let mut state = start.clone();
    let mut rows = vec![state.clone()];
    for step in 0..7 {
        apply_round(&mut state, 0, step, &rescue);
        rows.push(state.clone());
    }
    assert_eq!(state, permutation(&start, &rescue));
    assert_eq!(rows[1], round(&start, &rescue.ark[0], &rescue));

    // the constraint system enforces each of the rounds with the constants of its row
    for step in 0..7 {
        let ark: Vec<Felt> = constants.iter().map(|column| column[step]).collect();
        assert_eq!(ark, rescue.ark[step].to_vec());
        let mut result = vec![Felt::zero(); 14];
        enforce_round(&mut result, 0, &rows[step], &rows[step + 1], &ark, mask[step], &rescue);
        assert!(result.iter().all(|&r| r == Felt::zero()), "round {}", step);
        // and tells a wrong row
        let mut wrong = rows[step + 1].clone();
        wrong[5] = wrong[5].add(Felt::one());
        enforce_round(&mut result, 0, &rows[step], &wrong, &ark, mask[step], &rescue);
        assert!(result.iter().any(|&r| r != Felt::zero()));
    }
    // on the last row of the cycle the constants are zero
    assert!(constants.iter().all(|column| column.len() == 8 && column[7] == Felt::zero()));

    // the digest of the first seven registers is what the sponge squeezes
    assert_eq!(digest(&start[..7], &rescue), permutation(&[&start[..7], &[Felt::zero(); 7][..]].concat(), &rescue)[..7]);
    assert_eq!(merge(&start[..7], &start[7..], &rescue), state[..7]);
}

#[test]
fn sponge_absorbs_chunk_by_chunk() {
    let rescue = unit_rescue();
    let message: Vec<Felt> = (1..=10).map(f).collect();
    // nothing is absorbed from an empty message
    assert_eq!(digest(&[], &rescue), vec![Felt::zero(); 7]);
    // a short message is filled up with zeros
    let mut padded = message[..6].to_vec();
    padded.push(Felt::zero());
    assert_eq!(digest(&message[..6], &rescue), digest(&padded, &rescue));
    // a second chunk is added to what the first one left
    let first = permutation(&[&message[..7], &[Felt::zero(); 7][..]].concat(), &rescue);
    let mut second = first.clone();
    for i in 0..3 {
        second[i] = second[i].add(message[7 + i]);
    }
    assert_eq!(digest(&message, &rescue), permutation(&second, &rescue)[..7]);
    assert_ne!(digest(&message, &rescue), digest(&message[..9], &rescue));
}

// PERIODIC COLUMNS
// ================================================================================================

#[test]
fn periodic_columns_are_stitched_in_the_order_of_the_map() {
    let mut columns = vec![vec![], vec![f(1)], vec![]];
    let additions = vec![vec![f(2), f(3)], vec![f(4)]];
    stitch(&mut columns, &additions, &vec![(0, 1), (1, 2), (1, 1)]);
    assert_eq!(columns, vec![vec![], vec![f(1), f(2), f(3), f(4)], vec![f(4)]]);
    stitch(&mut columns, &additions, &vec![]);
    assert_eq!(columns.len(), 3);
    assert_eq!(index_map(9, 3), vec![(0, 9), (1, 10), (2, 11)]);
    assert_eq!(flag_column(6, 1, 5, 2, 1), vec![f(0), f(0), f(1), f(0), f(1), f(0)]);
    assert_eq!(flag_column(4, 0, 3, 1, 1), vec![f(1), f(1), f(1), f(0)]);
    let table = vec![vec![f(1), f(2)], vec![f(3), f(4)]];
    assert_eq!(spread_column(&table, 1, 3), vec![f(2), f(2), f(2), f(4), f(4), f(4)]);
    assert_eq!(value_at(&[f(5), f(6), f(7)], 7), f(6));
}

// PARAMETERS
// ================================================================================================

#[test]
fn fri_options_count_the_layers() {
    let options = FriOptions::new(8, 4, 256);
    assert_eq!(options.blowup_factor(), 8);
    assert_eq!(options.folding_factor(), 4);
    assert_eq!(options.max_remainder_size(), 256);
    // 2^20 -> 2^18 -> ... -> 2^8: six layers
    assert_eq!(options.num_fri_layers(1 << 20), 6);
    assert_eq!(options.fri_remainder_size(1 << 20), 256);
    assert_eq!(options.num_fri_layers(256), 0);
    assert_eq!(options.fri_remainder_size(256), 256);
    assert_eq!(options.num_fri_layers(257), 1);
    assert_eq!(options.fri_remainder_size(257), 64);
    assert_eq!(options.num_fri_layers(0), 0);
    assert_eq!(options.fri_remainder_size(0), 0);
    let options = FriOptions::new(16, 16, 32);
    assert_eq!(options.num_fri_layers(1 << 10), 2);
    assert_eq!(options.fri_remainder_size(1 << 10), 4);
    assert!(options.clone() == options);
    assert!(FriOptions::is_valid(8, 4, 8));
    assert!(!FriOptions::is_valid(6, 4, 8));
    assert!(!FriOptions::is_valid(8, 5, 32));
    assert!(!FriOptions::is_valid(8, 4, 7));
    assert!(!FriOptions::is_valid(0, 4, 8));
}

#[test]
fn proof_options_of_an_aggregator() {
    let options = build_options(1);
    assert_eq!(options.num_queries, 42);
    assert_eq!(options.blowup_factor, 8);
    assert_eq!(options.grinding_factor, 0);
    assert_eq!(options.hash_fn, HashFunction::Blake3_192);
    assert_eq!(options.field_extension, FieldExtension::Base);
    assert_eq!(options.fri_folding_factor, 4);
    assert_eq!(options.fri_max_remainder_size, 256);
    assert_eq!(build_options(2).field_extension, FieldExtension::Quadratic);
    assert_eq!(build_options(3).field_extension, FieldExtension::Cubic);
    assert_eq!(build_options(0).field_extension, FieldExtension::Base);
    assert_eq!(build_options(200).field_extension, FieldExtension::Base);
    assert_eq!(FieldExtension::Base.degree(), 1);
    assert_eq!(FieldExtension::Quadratic.degree(), 2);
    assert_eq!(FieldExtension::Cubic.degree(), 3);
    assert!(is_power_of_two(1) && is_power_of_two(1024) && !is_power_of_two(0) && !is_power_of_two(12));
    assert_eq!(TransitionConstraintDegree::new(6).cycles.len(), 0);
    assert_eq!(TransitionConstraintDegree::with_cycles(3, vec![8, 128]).base, 3);
}


// THE COMBINATORS OF CONSTRAINTS
// ================================================================================================

fn fs(values: &[u64]) -> Vec<Felt> {
    values.iter().map(|&v| f(v)).collect()
}

#[test]
fn constraint_ranges_on_given_values() {
    let mut result = fs(&[1, 2, 3, 4, 5]);
    agg_range(&mut result, 1, f(10), &fs(&[1, 2, 3]));
    assert_eq!(result, fs(&[1, 12, 23, 34, 5]));
    agg_range(&mut result, 4, f(MODULUS - 1), &fs(&[5]));
    assert_eq!(result, fs(&[1, 12, 23, 34, 0]));
    write_range(&mut result, 3, &fs(&[7, 8]));
    assert_eq!(result, fs(&[1, 12, 23, 7, 8]));
    fill_range(&mut result, 1, 3, f(9));
    assert_eq!(result, fs(&[1, 9, 9, 7, 8]));
    fill_range(&mut result, 2, 2, f(0));
    assert_eq!(result, fs(&[1, 9, 9, 7, 8]));
    assert_eq!(diff(&fs(&[5, 1]), &fs(&[2, 3])), vec![f(3), f(MODULUS - 2)]);
    assert_eq!(sum(&fs(&[5, MODULUS - 1]), &fs(&[2, 3])), fs(&[7, 2]));
    assert_eq!(select(f(1), &fs(&[5, 6]), &fs(&[7, 8])), fs(&[5, 6]));
    assert_eq!(select(f(0), &fs(&[5, 6]), &fs(&[7, 8])), fs(&[7, 8]));
    // a bit that is none: 2 * 5 + (1 - 2) * 7
    assert_eq!(select(f(2), &fs(&[5]), &fs(&[7])), fs(&[3]));
    assert_eq!(zeros(3), fs(&[0, 0, 0]));
    assert!(zeros(0).is_empty());
}

#[test]
fn limb_constraints_follow_the_limb_step() {
    // the limb 6 takes the bit 1 and becomes 13
    let current = fs(&[6, 0, 99]);
    let mut next = fs(&[6, 1, 99]);
    apply_double_and_add_step(&mut next, 0, 1);
    assert_eq!(next, fs(&[13, 1, 99]));
    let mut result = zeros(3);
    enforce_double_and_add_step_constrained(&mut result, &current, &next, 0, 1, f(3));
    assert_eq!(result, zeros(3));
    let mut wrong = next.clone();
    wrong[0] = f(14);
    enforce_double_and_add_step_constrained(&mut result, &current, &wrong, 0, 1, f(3));
    assert_eq!(result, fs(&[3, 0, 0]));
    // on the rows of a doubling the limb takes a bit where its flag is set, and
    // is copied where it is not
    let mut result = zeros(3);
    enforce_limb_step(&mut result, &current, &next, 0, 1, f(1), f(1));
    assert_eq!(result, zeros(3));
    enforce_limb_step(&mut result, &current, &current, 0, 1, f(0), f(1));
    assert_eq!(result, zeros(3));
    enforce_limb_step(&mut result, &current, &next, 0, 1, f(0), f(1));
    assert_ne!(result, zeros(3));
    // and nothing is constrained on the other rows
    let mut result = zeros(3);
    enforce_limb_step(&mut result, &current, &wrong, 0, 1, f(1), f(0));
    enforce_limb_step(&mut result, &current, &wrong, 0, 1, f(0), f(0));
    assert_eq!(result, zeros(3));
}

// THE GADGETS OF THE CURVE
// ================================================================================================

fn row_of(point: Projective, bit: u64) -> Vec<Felt> {
    let mut row = point.to_vec();
    row.push(f(bit));
    row.push(f(77));
    row
}

#[test]
fn curve_constraints_vanish_on_the_steps_of_the_prover() {
    let curve = unit_curve();
    let g = curve.generator;
    let p = g.scalar_mul(5, &curve);
    let q = g.scalar_mul(9, &curve).to_affine(&curve);
    let flag = f(3);
    // doubling
    let current = row_of(p, 0);
    let mut next = row_of(p, 1);
    apply_point_doubling(&mut next, 0, &curve);
    assert_eq!(next[..18], p.double(&curve).to_vec());
    assert_eq!(next[18..], fs(&[1, 77]));
    let mut result = zeros(20);
    enforce_point_doubling_bit(&mut result, &current, &next, 0, flag, &curve);
    enforce_point_doubling(&mut result, &current, &next, 0, flag, &curve);
    assert_eq!(result, zeros(20));
    // a bit that is none: 3 * (2 * 2 - 2)
    let mut wrong = next.clone();
    wrong[18] = f(2);
    enforce_point_doubling(&mut result, &current, &wrong, 0, flag, &curve);
    assert_eq!(result[18], f(6));
    assert!(result[..18].iter().all(|&e| e == Felt::zero()));
    // a register that is not that of the double
    let mut result = zeros(20);
    let mut wrong = next.clone();
    wrong[7] = wrong[7].add(f(2));
    enforce_point_doubling_bit(&mut result, &current, &wrong, 0, flag, &curve);
    assert_eq!(result[7], f(6));
    assert_eq!(result.iter().filter(|&&e| e != Felt::zero()).count(), 1);
    // addition where the bit is set, and a copy where it is not
    for bit in [0, 1] {
        let current = row_of(p, bit);
        let mut next = current.clone();
        apply_point_addition_mixed(&mut next, 0, &q.to_vec(), &curve);
        let expected = if bit == 1 { p.add_mixed(q, &curve) } else { p };
        assert_eq!(next[..18], expected.to_vec());
        let mut other = current.clone();
        apply_point_addition_mixed_bit(&mut other, 0, &q.to_vec(), 18, &curve);
        assert_eq!(other, next);
        let mut result = zeros(20);
        enforce_point_addition_mixed(&mut result, &current, &next, 0, &q.to_vec(), flag, &curve);
        enforce_point_addition_mixed_bit(&mut result, &current, &next, 0, &q.to_vec(), 18, flag, &curve);
        assert_eq!(result, zeros(20));
        // the other case of the bit
        let other = if bit == 1 { p } else { p.add_mixed(q, &curve) };
        let wrong = row_of(other, bit);
        enforce_point_addition_mixed_bit(&mut result, &current, &wrong, 0, &q.to_vec(), 18, flag, &curve);
        assert_ne!(result, zeros(20));
        // a bit that changes with the addition
        let mut result = zeros(20);
        let mut wrong = next.clone();
        wrong[18] = f(1 - bit);
        enforce_point_addition_mixed(&mut result, &current, &wrong, 0, &q.to_vec(), flag, &curve);
        assert_ne!(result[18], Felt::zero());
    }
    // a step of double-and-add is a doubling or an addition, as the flags say
    let current = row_of(p, 1);
    let mut doubled = current.clone();
    apply_point_doubling(&mut doubled, 0, &curve);
    let mut added = current.clone();
    apply_point_addition_mixed(&mut added, 0, &q.to_vec(), &curve);
    let mut result = zeros(20);
    enforce_scalar_mul(&mut result, &current, &doubled, 0, &q.to_vec(), f(1), f(0), &curve);
    enforce_scalar_mul(&mut result, &current, &added, 0, &q.to_vec(), f(0), f(1), &curve);
    enforce_scalar_mul_bit(&mut result, &current, &doubled, 0, &q.to_vec(), 18, f(1), f(0), &curve);
    enforce_scalar_mul_bit(&mut result, &current, &added, 0, &q.to_vec(), 18, f(0), f(1), &curve);
    assert_eq!(result, zeros(20));
    enforce_scalar_mul(&mut result, &current, &added, 0, &q.to_vec(), f(1), f(0), &curve);
    assert_ne!(result, zeros(20));
}

#[test]
fn curve_additions_on_registers() {
    let curve = unit_curve();
    let g = curve.generator;
    let p = g.scalar_mul(5, &curve);
    let r = g.scalar_mul(11, &curve);
    let q = r.to_affine(&curve);
    let flag = f(2);
    let current = row_of(p, 0);
    // the sum with a projective point
    let mut next = current.clone();
    compute_add(&mut next, 0, &r.to_vec(), &curve);
    assert_eq!(next[..18], p.add(r, &curve).to_vec());
    assert_eq!(next[18..], current[18..]);
    let mut result = zeros(20);
    enforce_point_addition(&mut result, &current, &next, 0, &r.to_vec(), flag, &curve);
    assert_eq!(result, zeros(20));
    // the sum with an affine point is the same point of the curve
    let mut mixed = current.clone();
    compute_add_mixed(&mut mixed, 0, &q.to_vec(), &curve);
    assert_eq!(mixed[..18], p.add_mixed(q, &curve).to_vec());
    assert_eq!(reduce_to_affine(&mixed, 0, &curve), reduce_to_affine(&next, 0, &curve));
    assert_eq!(reduce_to_affine(&mixed, 0, &curve), g.scalar_mul(16, &curve).to_affine(&curve).to_vec());
    enforce_point_addition_mixed_unchecked(&mut result, &current, &mixed, 0, &q.to_vec(), flag, &curve);
    assert_eq!(result, zeros(20));
    enforce_point_addition_mixed_unchecked(&mut result, &current, &current, 0, &q.to_vec(), flag, &curve);
    assert_ne!(result, zeros(20));
    // the sum reduced to affine coordinates: x and y of the sum, and its z kept
    let total = p.add(r, &curve);
    let affine = total.to_affine(&curve);
    let reduced = row_of(Projective { x: affine.x, y: affine.y, z: total.z }, 0);
    let mut result = zeros(20);
    enforce_point_addition_reduce_affine(&mut result, &current, &reduced, 0, &r.to_vec(), flag, &curve);
    assert_eq!(result, zeros(20));
    let total = p.add_mixed(q, &curve);
    let reduced = row_of(Projective { x: affine.x, y: affine.y, z: total.z }, 0);
    enforce_point_addition_mixed_reduce_affine(&mut result, &current, &reduced, 0, &q.to_vec(), flag, &curve);
    assert_eq!(result, zeros(20));
    let mut wrong = reduced.clone();
    wrong[0] = wrong[0].add(Felt::one());
    enforce_point_addition_mixed_reduce_affine(&mut result, &current, &wrong, 0, &q.to_vec(), flag, &curve);
    assert_ne!(result, zeros(20));
    // negation
    let negated = compute_negation_projective(&current, 0);
    assert_eq!(negated, p.neg().to_vec());
    let mut sum = current.clone();
    compute_add(&mut sum, 0, &negated, &curve);
    assert_eq!(Projective::read(&sum, 0).z, Fp6::zero());
}

// THE TREE
// ================================================================================================

#[test]
fn tree_of_four_leaves() {
    let rescue = unit_rescue();
    let leaves: Vec<Vec<Felt>> = (0..4u64).map(|i| (0..7u64).map(|j| f(10 * i + j + 1)).collect()).collect();
    let (root, branches) = calculate_merkle_proof(leaves.clone(), &vec![2, 1], 2, &rescue);
    let left = merge_hash(&leaves[0], &leaves[1], &rescue);
    let right = merge_hash(&leaves[2], &leaves[3], &rescue);
    assert_eq!(root, merge_hash(&left, &right, &rescue));
    assert_eq!(merge_hash(&left, &right, &rescue), merge(&left, &right, &rescue));
    assert_ne!(merge_hash(&left, &right, &rescue), merge_hash(&right, &left, &rescue));
    assert_eq!(branches.len(), 2);
    assert_eq!(branches[0], [leaves[3].clone(), left.clone()].concat());
    assert_eq!(branches[1], [leaves[0].clone(), right.clone()].concat());
    // a tree of one leaf is the leaf
    let (root, branches) = calculate_merkle_proof(vec![leaves[0].clone()], &vec![0], 0, &rescue);
    assert_eq!(root, leaves[0]);
    assert_eq!(branches, vec![Vec::<Felt>::new()]);
    // the leaf of a key is the hash of its x merged with its y
    let key: Vec<Felt> = (1..=12u64).map(f).collect();
    let mut x = key[..6].to_vec();
    x.push(Felt::zero());
    let mut y = key[6..].to_vec();
    y.push(Felt::zero());
    assert_eq!(hash_voting_key(&key, &rescue), merge(&digest(&x, &rescue), &y, &rescue));
    // the path of a key in a tree of two keys
    let other = hash_voting_key(&fs(&[9; 12]), &rescue);
    let root = merge_hash(&other, &hash_voting_key(&key, &rescue), &rescue);
    assert!(verify_merkle_proof(&root, &key, &other, 1, 1, &rescue));
    assert!(!verify_merkle_proof(&root, &key, &other, 0, 1, &rescue));
    assert!(elements_equal(&fs(&[1, 2]), &fs(&[1, 2])));
    assert!(!elements_equal(&fs(&[1, 2]), &fs(&[1, 3])));
    assert!(!elements_equal(&fs(&[1, 2]), &fs(&[1, 2, 3])));
    assert!(elements_equal(&[], &[]));
    // the depths that a trace can have, and the rows of a key
    assert!(is_valid_depth(0));
    assert!(is_valid_depth(6));
    assert!(is_valid_depth(14));
    assert!(is_valid_depth(30));
    assert!(is_valid_depth(2));
    assert!(!is_valid_depth(3));
    assert!(!is_valid_depth(13));
    assert!(!is_valid_depth(31));
    assert_eq!(cycle_length(6), 64);
    assert_eq!(cycle_length(14), 128);
    assert_eq!(cycle_length(0), 16);
}

// THE TALLY
// ================================================================================================

#[test]
fn tally_points_on_given_votes() {
    let curve = unit_curve();
    let g = curve.generator;
    let affine = |k: u64| {
        let mut out = [Felt::zero(); 12];
        out.copy_from_slice(&g.scalar_mul(k, &curve).to_affine(&curve).to_vec());
        out
    };
    // four votes, three of them for: the votes add up to (2 * 3 - 4) G
    let votes = vec![affine(5), affine(7), affine(11), g.scalar_mul(21, &curve).neg().to_affine(&curve).to_vec().try_into().unwrap()];
    let sum = vote_sum(&votes, &curve);
    assert_eq!(sum.to_affine(&curve), g.scalar_mul(2, &curve).to_affine(&curve));
    assert!(tally_matches(sum, 4, 3, &curve));
    for t in [0, 1, 2, 4] {
        assert!(!tally_matches(sum, 4, t, &curve));
    }
    // the trace starts at (N - 2t) G
    assert_eq!(negated_tally_point(4, 3, &curve).to_affine(&curve), g.scalar_mul(2, &curve).neg().to_affine(&curve));
    assert_eq!(negated_tally_point(4, 1, &curve).to_affine(&curve), g.scalar_mul(2, &curve).to_affine(&curve));
    assert_eq!(negated_tally_point(4, 2, &curve).z, Fp6::zero());
    let start = start_point(4, 1, &curve);
    assert_eq!(start.len(), 18);
    assert_eq!(start[..12], affine(2));
    assert_eq!(start, normalized(g.scalar_mul(2, &curve), &curve));
    assert_eq!(start[12..], [f(1), f(0), f(0), f(0), f(0), f(0)]);
    // no vote adds up to the identity
    assert_eq!(vote_sum(&vec![], &curve), Projective::identity());
}

// THE BYTES OF ELEMENTS, COUNTS AND ROWS
// ================================================================================================

#[test]
fn wire_elements_and_counts() {
    let mut bytes = vec![9u8];
    write_element(&mut bytes, f(0x0102030405060708));
    assert_eq!(bytes, [9, 8, 7, 6, 5, 4, 3, 2, 1]);
    assert_eq!(read_element(&bytes, 1), Ok(f(0x0102030405060708)));
    assert_eq!(read_element(&bytes, 2), Err(DeserializationError::UnexpectedEOF));
    assert_eq!(read_element(&bytes, 100), Err(DeserializationError::UnexpectedEOF));
    // an element that is not reduced is written as its residue
    let mut bytes = vec![];
    write_element(&mut bytes, Felt { value: MODULUS + 5 });
    assert_eq!(bytes, [5, 0, 0, 0, 0, 0, 0, 0]);
    // the largest element is read, the modulus is not
    assert_eq!(read_element(&(MODULUS - 1).to_le_bytes(), 0), Ok(f(MODULUS - 1)));
    assert_eq!(read_element(&MODULUS.to_le_bytes(), 0), Err(DeserializationError::InvalidValue));
    assert_eq!(read_element(&u64::MAX.to_le_bytes(), 0), Err(DeserializationError::InvalidValue));
    let mut bytes = vec![];
    write_count(&mut bytes, 0x01020304);
    assert_eq!(bytes, [4, 3, 2, 1]);
    assert_eq!(read_count(&bytes, 0), Ok(0x01020304));
    assert_eq!(read_count(&bytes, 1), Err(DeserializationError::UnexpectedEOF));
    assert_eq!(read_count(&bytes, 4), Err(DeserializationError::UnexpectedEOF));
    write_elements(&mut bytes, &fs(&[1, 2, 3]));
    assert_eq!(bytes.len(), 28);
    assert_eq!(bytes[4..12], [1, 0, 0, 0, 0, 0, 0, 0]);
    assert_eq!(read_elements(&bytes, 4, 3), Ok(fs(&[1, 2, 3])));
    assert_eq!(read_elements(&bytes, 12, 2), Ok(fs(&[2, 3])));
    assert_eq!(read_elements(&bytes, 4, 0), Ok(vec![]));
    assert_eq!(read_elements(&bytes, 28, 0), Ok(vec![]));
    assert_eq!(read_elements(&bytes, 4, 4), Err(DeserializationError::UnexpectedEOF));
    assert_eq!(read_elements(&bytes, 4, usize::MAX), Err(DeserializationError::UnexpectedEOF));
    // the first value that cannot be read decides
    bytes[12..20].copy_from_slice(&MODULUS.to_le_bytes());
    assert_eq!(read_elements(&bytes, 4, 1), Ok(fs(&[1])));
    assert_eq!(read_elements(&bytes, 4, 3), Err(DeserializationError::InvalidValue));
    assert_eq!(read_elements(&bytes, 4, 4), Err(DeserializationError::InvalidValue));
    assert_eq!(read_elements(&bytes, 20, 2), Err(DeserializationError::UnexpectedEOF));
}

#[test]
fn wire_rows() {
    let rows: Vec<[Felt; 3]> = vec![[f(1), f(2), f(3)], [f(4), f(5), f(6)]];
    let mut bytes = vec![0xff];
    write_rows(&mut bytes, &rows);
    assert_eq!(bytes.len(), 1 + 48);
    assert_eq!(bytes[1 + 24], 4);
    assert_eq!(read_rows::<3>(&bytes, 1, 2), Ok(rows.clone()));
    assert_eq!(read_rows::<3>(&bytes, 1, 1), Ok(vec![rows[0]]));
    assert_eq!(read_rows::<3>(&bytes, 1, 0), Ok(vec![]));
    assert_eq!(read_rows::<2>(&bytes, 1, 3), Ok(vec![[f(1), f(2)], [f(3), f(4)], [f(5), f(6)]]));
    assert_eq!(read_rows::<3>(&bytes, 1, 3), Err(DeserializationError::UnexpectedEOF));
    assert_eq!(read_rows::<3>(&bytes, 1, usize::MAX), Err(DeserializationError::UnexpectedEOF));
    // rows of bytes
    let rows: Vec<[u8; 2]> = vec![[1, 2], [3, 4], [5, 6]];
    let mut bytes = vec![9];
    write_byte_rows(&mut bytes, &rows);
    write_bytes(&mut bytes, &[7, 8]);
    assert_eq!(bytes, [9, 1, 2, 3, 4, 5, 6, 7, 8]);
    assert_eq!(read_byte_rows::<2>(&bytes, 1, 3), Ok(rows));
    assert_eq!(read_byte_rows::<2>(&bytes, 1, 4), Ok(vec![[1, 2], [3, 4], [5, 6], [7, 8]]));
    assert_eq!(read_byte_rows::<2>(&bytes, 1, 5), Err(DeserializationError::UnexpectedEOF));
    assert_eq!(read_byte_rows::<2>(&bytes, 9, 0), Ok(vec![]));
    assert_eq!(read_byte_array::<3>(&bytes, 6), Ok([6, 7, 8]));
    assert_eq!(read_byte_array::<3>(&bytes, 7), Err(DeserializationError::UnexpectedEOF));
    assert_eq!(read_byte_array::<0>(&bytes, 9), Ok([]));
}


// TRACES AND ASSERTIONS
// ================================================================================================

#[test]
fn trace_meets_assertions() {
    // eight rows: the number of the row, and the number of the row modulo four
    let trace = TraceTable { rows: (0..8u64).map(|r| fs(&[r, r % 4])).collect() };
    assert_eq!(trace.length(), 8);
    assert_eq!(trace.width(), 2);
    assert_eq!(TraceTable { rows: vec![] }.width(), 0);
    assert_eq!(trace.get(0, 5), f(5));
    assert_eq!(trace.get(1, 5), f(1));
    assert_eq!(trace.read_row(6), fs(&[6, 2]));
    assert_eq!(copy_of(&fs(&[4, 5])), fs(&[4, 5]));
    assert!(trace.holds_at(0, 7, f(7)));
    assert!(!trace.holds_at(0, 7, f(6)));
    assert!(!trace.holds_at(0, 8, f(8)));
    assert!(!trace.holds_at(2, 0, f(0)));
    // on one row
    assert!(trace.meets(&Assertion::single(1, 6, f(2))));
    assert!(!trace.meets(&Assertion::single(1, 6, f(6))));
    assert!(!trace.meets(&Assertion::single(1, 8, f(0))));
    assert!(!trace.meets(&Assertion::single(2, 0, f(0))));
    // on every fourth row
    assert!(trace.meets(&Assertion::periodic(1, 3, 4, f(3))));
    assert!(!trace.meets(&Assertion::periodic(0, 3, 4, f(3))));
    assert!(trace.meets(&Assertion::periodic(0, 3, 8, f(3))));
    assert!(trace.meets(&Assertion::periodic(1, 0, 2, f(0))) == false);
    assert!(trace.meets(&Assertion::Periodic { column: 0, first_step: 8, stride: 4, value: f(1) }));
    assert!(trace.meets(&Assertion::Periodic { column: 0, first_step: 5, stride: 0, value: f(5) }));
    assert!(!trace.meets(&Assertion::Periodic { column: 0, first_step: 5, stride: 0, value: f(4) }));
    assert!(trace.meets(&Assertion::Periodic { column: 0, first_step: 7, stride: usize::MAX, value: f(7) }));
    // along a sequence that spans the trace
    assert!(trace.meets(&Assertion::sequence(0, 1, 4, fs(&[1, 5]))));
    assert!(trace.meets(&Assertion::sequence(1, 1, 2, fs(&[1, 3, 1, 3]))));
    assert!(!trace.meets(&Assertion::sequence(0, 1, 4, fs(&[1, 6]))));
    assert!(!trace.meets(&Assertion::sequence(0, 1, 2, fs(&[1, 3]))));
    assert!(!trace.meets(&Assertion::sequence(0, 1, 4, fs(&[1, 5, 9, 13]))));
    assert!(!trace.meets(&Assertion::Sequence { column: 0, first_step: 4, stride: 4, values: fs(&[4, 8]) }));
    assert!(!trace.meets(&Assertion::Sequence { column: 0, first_step: 0, stride: 0, values: fs(&[0]) }));
    assert!(!trace.meets(&Assertion::Sequence { column: 0, first_step: 0, stride: 3, values: fs(&[0, 3]) }));
    let none = TraceTable { rows: vec![] };
    assert!(none.meets(&Assertion::Sequence { column: 0, first_step: 0, stride: 0, values: vec![] }));
    assert!(none.meets(&Assertion::Sequence { column: 0, first_step: 0, stride: 2, values: vec![] }));
    assert!(!none.meets(&Assertion::Sequence { column: 0, first_step: 0, stride: 0, values: fs(&[1]) }));
    // what a constraint system tells of itself
    let options = build_options(2);
    let context = AirContext::new(TraceInfo::new(2, 8), vec![TransitionConstraintDegree::new(3)], options.clone());
    assert_eq!(context.trace_len(), 8);
    assert_eq!(context.trace_info, TraceInfo::new(2, 8));
    assert_eq!(context.options, options);
    assert_eq!(context.transition_constraint_degrees, vec![TransitionConstraintDegree::new(3)]);
    assert_eq!(ProofOptions::new(42, 8, 0, HashFunction::Blake3_192, FieldExtension::Quadratic, 4, 256), options);
}

// THE MESSAGE OF A SIGNATURE
// ================================================================================================

#[test]
fn messages_of_signatures() {
    let curve = unit_curve();
    let key: [Felt; 12] = curve.generator.to_vec().try_into().unwrap();
    let address: [u8; 20] = core::array::from_fn(|i| i as u8 + 1);
    let message = prepare_message(&key, &address);
    assert_eq!(message.len(), 28);
    assert_eq!(message[..12], key);
    // five bytes of the address in each element, most significant first, above
    // three bytes of zeros
    assert_eq!(message[12], f(0x0102030405000000));
    assert_eq!(message[13], f(0x060708090a000000));
    assert_eq!(message[14], f(0x0b0c0d0e0f000000));
    assert_eq!(message[15], f(0x1011121314000000));
    assert!(message[16..].iter().all(|&e| e == Felt::zero()));
    // an address of high bytes is taken modulo the modulus
    let message = prepare_message(&key, &[0xff; 20]);
    assert_eq!(message[12], f(0xffffffffff000000));
    assert_eq!(message[12].value, 0xffffffffff000000 % MODULUS);
    let other: [Felt; 12] = curve.generator.neg().to_vec().try_into().unwrap();
    let messages = prepare_messages(&vec![key, other], &vec![address, [0; 20]]);
    assert_eq!(messages.len(), 2);
    assert_eq!(messages[0], prepare_message(&key, &address));
    assert_eq!(messages[1], prepare_message(&other, &[0; 20]));
    // the registers of a point in a public input
    let point = curve.generator.scalar_mul(3, &curve);
    assert_eq!(projective_to_elements(point, &curve).to_vec(), point.to_affine(&curve).to_vec());
    assert_eq!(projective_to_elements(Projective::from_affine(curve.generator), &curve), key);
    // what the prover makes of a signature: the message, the scalar and the
    // challenge, which is the hash of the commitment and the message
    let rescue = unit_rescue();
    let signature = ([f(1), f(2), f(3), f(4), f(5), f(6)], [7u8; 32]);
    let info = build_sig_info(&key, &address, &signature, &rescue);
    assert_eq!(info.0, prepare_message(&key, &address));
    assert_eq!(info.1, [7u8; 32]);
    let h = hash_message(&signature.0, &info.0, &rescue);
    assert_eq!(info.2, digest_bytes(&h));
    assert_eq!(info.2[..8], h[0].value.to_le_bytes());
    assert_eq!(info.2[24..], h[3].value.to_le_bytes());
    // the hash takes the commitment first, and then the message in chunks of seven
    let mut expected = digest(&signature.0, &rescue);
    for chunk in info.0.chunks(7) {
        expected = merge(&expected, chunk, &rescue);
    }
    assert_eq!(h, expected);
}
