use openvote::air::{Assertion, TraceInfo, TraceTable, WitnessError};
use openvote::cds::air::{CDSAir, PublicInputs as CdsPublicInputs};
use openvote::cds::constants::CDS_CYCLE_LENGTH;
use openvote::cds::prover::{hash_message_bytes, CDSProver};
use openvote::cds::{naive_verify_cds_proofs, verify_cds_proof};
use openvote::cds::trace::{compute_blinding_keys, prepare_hash_message};
use openvote::ecc::{Affine, Curve, Projective};
use openvote::field::Felt;
use openvote::fp6::Fp6;
use openvote::merkle::air::{MerkleAir, PublicInputs as MerklePublicInputs};
use openvote::merkle::constants::cycle_length;
use openvote::merkle::prover::MerkleProver;
use openvote::merkle::{build_merkle_tree_from, naive_verify_merkle_proofs, verify_merkle_proof};
use openvote::rescue::{digest_bytes, Rescue};
use openvote::schnorr::air::{PublicInputs as SchnorrPublicInputs, SchnorrAir};
use openvote::schnorr::constants::SIG_CYCLE_LENGTH;
use openvote::schnorr::prover::SchnorrProver;
use openvote::schnorr::{
    hash_message, naive_verify_signatures, prepare_message, verify_signature, Signature,
};
use openvote::tally::air::{PublicInputs as TallyPublicInputs, TallyAir};
use openvote::tally::naive_verify_tally_result;
use openvote::tally::prover::TallyProver;
use openvote::aggregator::build_options;
use openvote::aggregator::cast::{CollectorError, CompactPublicInputs, EncryptedVote, VoteCollector};
use openvote::aggregator::register::{RegistarError, Registration, VoterRegistar};
use openvote::aggregator::tally::{TallierError, VoteTallier};
use openvote::chain_verifier::{
    split_cast_proof, split_register_proof, verify_cast_proof, verify_register_proof, verify_tally_result,
};
use openvote::field::MODULUS;
use openvote::precompile::{
    cast_arguments, check_generator_run, register_arguments, stark_verifier_run, verify_cast_proof_run,
    verify_register_proof_run, verify_tally_result_run, Method, PrecompileError,
};
use openvote::wire::{write_count, write_elements, write_rows, DeserializationError};
use rand_core::{OsRng, RngCore};

// PARAMETERS
// ================================================================================================

fn felt(x: u64) -> Felt {
    Felt::new(x)
}

fn fp6(c: [u64; 6]) -> Fp6 {
    Fp6 { c0: felt(c[0]), c1: felt(c[1]), c2: felt(c[2]), c3: felt(c[3]), c4: felt(c[4]), c5: felt(c[5]) }
}

fn test_curve() -> Curve {
    // u^6 = u + 6 is irreducible over the base field
    let red = fp6([6, 1, 0, 0, 0, 0]);
    let a = Fp6::one();
    let gx = fp6([2, 3, 5, 7, 11, 13]);
    let gy = fp6([17, 19, 23, 29, 31, 37]);
    // b = y^2 - x^3 - a x puts the generator on the curve
    let b = gy.mul(gy, &red).sub(gx.mul(gx, &red).mul(gx, &red)).sub(a.mul(gx, &red));
    let b3 = b.add(b).add(b);
    Curve { red, a, b3, generator: Affine { x: gx, y: gy } }
}

fn invert_matrix(m: &Vec<Vec<Felt>>) -> Vec<Vec<Felt>> {
    let n = m.len();
    let mut a: Vec<Vec<Felt>> = m.clone();
    let mut inv: Vec<Vec<Felt>> = (0..n)
        .map(|i| (0..n).map(|j| if i == j { Felt::one() } else { Felt::zero() }).collect())
        .collect();
    for col in 0..n {
        let pivot = (col..n).find(|&r| a[r][col] != Felt::zero()).unwrap();
        a.swap(col, pivot);
        inv.swap(col, pivot);
        let scale = a[col][col].inv();
        for j in 0..n {
            a[col][j] = a[col][j].mul(scale);
            inv[col][j] = inv[col][j].mul(scale);
        }
        for r in 0..n {
            if r != col {
                let factor = a[r][col];
                for j in 0..n {
                    a[r][j] = a[r][j].sub(factor.mul(a[col][j]));
                    inv[r][j] = inv[r][j].sub(factor.mul(inv[col][j]));
                }
            }
        }
    }
    inv
}

fn test_rescue() -> Rescue {
    // a Cauchy matrix is invertible, and so is each of its square parts
    let mds: Vec<Vec<Felt>> = (0..14u64)
        .map(|i| (0..14u64).map(|j| felt(i + 1 + 15 + j).inv()).collect())
        .collect();
    let inv_mds = invert_matrix(&mds);
    let mut seed: u64 = 0x9e3779b97f4a7c15;
    let ark: Vec<Vec<Felt>> = (0..7)
        .map(|_| {
            (0..28)
                .map(|_| {
                    seed = seed.wrapping_mul(6364136223846793005).wrapping_add(1442695040888963407);
                    felt(seed)
                })
                .collect()
        })
        .collect();
    Rescue::new(mds, inv_mds, ark).unwrap()
}

// SCALARS OF 255 BITS, AS INTEGERS
// ================================================================================================

fn to_limbs(bytes: &[u8; 32]) -> [u64; 4] {
    let mut limbs = [0u64; 4];
    for i in 0..4 {
        limbs[i] = u64::from_le_bytes(bytes[8 * i..8 * i + 8].try_into().unwrap());
    }
    limbs
}

fn from_limbs(limbs: [u64; 4]) -> [u8; 32] {
    let mut bytes = [0u8; 32];
    for i in 0..4 {
        bytes[8 * i..8 * i + 8].copy_from_slice(&limbs[i].to_le_bytes());
    }
    bytes
}

// a - b, if it is not negative
fn scalar_sub(a: &[u8; 32], b: &[u8; 32]) -> Option<[u8; 32]> {
    let (a, b) = (to_limbs(a), to_limbs(b));
    let mut out = [0u64; 4];
    let mut borrow = 0u64;
    for i in 0..4 {
        let (d, b1) = a[i].overflowing_sub(b[i]);
        let (d, b2) = d.overflowing_sub(borrow);
        out[i] = d;
        borrow = (b1 || b2) as u64;
    }
    if borrow == 1 {
        None
    } else {
        Some(from_limbs(out))
    }
}

// a * k, if it fits 255 bits
fn scalar_mul_small(a: &[u8; 32], k: u64) -> Option<[u8; 32]> {
    let a = to_limbs(a);
    let mut out = [0u64; 4];
    let mut carry = 0u128;
    for i in 0..4 {
        let t = (a[i] as u128) * (k as u128) + carry;
        out[i] = t as u64;
        carry = t >> 64;
    }
    if carry != 0 || out[3] >> 63 != 0 {
        None
    } else {
        Some(from_limbs(out))
    }
}

fn random_scalar(bits: usize) -> [u8; 32] {
    let mut bytes = [0u8; 32];
    OsRng.fill_bytes(&mut bytes);
    for i in bits..256 {
        bytes[i / 8] &= !(1 << (i % 8));
    }
    bytes
}

// a scalar close to the top of the 255 bits
fn large_scalar() -> [u8; 32] {
    let mut bytes = [0xffu8; 32];
    OsRng.fill_bytes(&mut bytes[..8]);
    bytes[31] = 0x7f;
    bytes
}

fn affine_array(p: Projective, curve: &Curve) -> [Felt; 12] {
    let v = p.to_affine(curve).to_vec();
    let mut out = [Felt::zero(); 12];
    out.copy_from_slice(&v);
    out
}

fn random_elements<const N: usize>() -> [Felt; N] {
    let mut out = [Felt::zero(); N];
    for e in out.iter_mut() {
        *e = felt(OsRng.next_u64());
    }
    out
}

// CHECKING A TRACE AGAINST A CONSTRAINT SYSTEM
// ================================================================================================

fn assertions_hold(assertions: &[Assertion], trace: &TraceTable) -> bool {
    assertions.iter().all(|assertion| trace.meets(assertion))
}

// The first row and constraint that does not vanish, if there is one.
fn first_violation<F>(columns: &[Vec<Felt>], trace: &TraceTable, evaluate: F) -> Option<(usize, usize)>
where
    F: Fn(&[Felt], &[Felt], &[Felt], &mut [Felt]),
{
    let width = trace.width();
    for step in 0..trace.length() - 1 {
        let periodic: Vec<Felt> = columns.iter().map(|c| c[step % c.len()]).collect();
        let mut result = vec![Felt::zero(); width];
        evaluate(&trace.rows[step], &trace.rows[step + 1], &periodic, &mut result);
        if let Some(i) = result.iter().position(|&r| r != Felt::zero()) {
            return Some((step, i));
        }
    }
    None
}

// MERKLE
// ================================================================================================

struct MerkleCase {
    root: [Felt; 7],
    keys: Vec<[Felt; 12]>,
    branches: Vec<Vec<Felt>>,
    indices: Vec<usize>,
}

fn merkle_case(num_keys: usize, depth: usize, rescue: &Rescue) -> MerkleCase {
    let num_leaves = 1usize << depth;
    let keys: Vec<[Felt; 12]> = (0..num_keys).map(|_| random_elements::<12>()).collect();
    let mut indices: Vec<usize> = vec![];
    while indices.len() < num_keys {
        let index = (OsRng.next_u32() as usize) % num_leaves;
        if !indices.contains(&index) {
            indices.push(index);
        }
    }
    let leaves: Vec<Vec<Felt>> = (0..num_leaves).map(|_| random_elements::<7>().to_vec()).collect();
    let (root, branches) = build_merkle_tree_from(&keys, leaves, &indices, depth, rescue);
    let mut root_array = [Felt::zero(); 7];
    root_array.copy_from_slice(&root);
    MerkleCase { root: root_array, keys, branches, indices }
}

fn merkle_air(case: &MerkleCase, keys: Vec<[Felt; 12]>, root: [Felt; 7], depth: usize, rescue: &Rescue) -> MerkleAir {
    let length = case.keys.len() * cycle_length(depth);
    MerkleAir::new(
        TraceInfo::new(15, length),
        MerklePublicInputs { tree_root: root, voting_keys: keys },
        build_options(1),
        depth,
        rescue.clone(),
    )
}

fn merkle_trace(case: &MerkleCase, depth: usize, rescue: &Rescue) -> TraceTable {
    let prover = MerkleProver::new(build_options(1), case.root, case.keys.clone(), depth, rescue.clone());
    prover.build_trace(case.branches.clone(), case.indices.clone()).unwrap()
}

// A tree of random keys is built, its trace is made, and the trace is held
// against the constraint system of the public inputs.
fn merkle_checks(num_keys: usize, depth: usize, extension: u8) -> bool {
    let rescue = test_rescue();
    let case = merkle_case(num_keys, depth, &rescue);
    assert!(naive_verify_merkle_proofs(&case.root, &case.keys, &case.branches, &case.indices, depth, &rescue));
    let prover = MerkleProver::new(build_options(extension), case.root, case.keys.clone(), depth, rescue);
    let trace = prover.build_trace(case.branches.clone(), case.indices.clone()).unwrap();
    assert_eq!(trace.length(), num_keys * 8 * (depth + 2));
    assert_eq!(trace.width(), 15);
    // the public inputs, as the verifier reads them from the bytes of the prover
    let pub_inputs = MerklePublicInputs::from_bytes(&prover.get_pub_inputs(&trace).to_bytes()).unwrap();
    let air = MerkleAir::new(
        TraceInfo::new(15, trace.length()),
        pub_inputs,
        build_options(extension),
        depth,
        rescue,
    );
    let columns = air.get_periodic_column_values();
    first_violation(&columns, &trace, |c, n, p, r| air.evaluate_transition(c, n, p, r)).is_none()
        && assertions_hold(&air.get_assertions(), &trace)
}

#[test]
fn merkle_test_basic_proof_verification() {
    assert!(merkle_checks(8, 6, 1));
}

#[test]
fn merkle_test_basic_proof_verification_quadratic_extension() {
    assert!(merkle_checks(8, 6, 2));
}

#[test]
fn merkle_test_basic_proof_verification_cubic_extension() {
    assert!(merkle_checks(8, 6, 3));
}

#[test]
fn merkle_test_four_keys_in_a_tree_of_depth_six() {
    assert!(merkle_checks(4, 6, 1));
    // other depths that a trace can be built for
    assert!(merkle_checks(2, 2, 1));
    assert!(merkle_checks(1, 0, 1));
}

#[test]
fn merkle_test_basic_proof_verification_fail() {
    let rescue = test_rescue();
    let depth = 6;
    let case = merkle_case(8, depth, &rescue);
    let trace = merkle_trace(&case, depth, &rescue);
    // one coordinate of one key is off by one
    let fault_index = (OsRng.next_u32() as usize) % case.keys.len();
    let fault_position = (OsRng.next_u32() as usize) % 12;
    let mut keys = case.keys.clone();
    keys[fault_index][fault_position] = keys[fault_index][fault_position].add(Felt::one());
    let air = merkle_air(&case, keys, case.root, depth, &rescue);
    assert!(!assertions_hold(&air.get_assertions(), &trace));
    // one element of the root is off by one
    let mut root = case.root;
    let fault_position = (OsRng.next_u32() as usize) % 7;
    root[fault_position] = root[fault_position].add(Felt::one());
    let air = merkle_air(&case, case.keys.clone(), root, depth, &rescue);
    assert!(!assertions_hold(&air.get_assertions(), &trace));
}

#[test]
fn merkle_test_wrong_path_breaks_the_root() {
    let rescue = test_rescue();
    let depth = 6;
    let mut case = merkle_case(4, depth, &rescue);
    case.branches[2][9] = case.branches[2][9].add(Felt::one());
    assert!(!verify_merkle_proof(&case.root, &case.keys[2], &case.branches[2], case.indices[2], depth, &rescue));
    assert!(!naive_verify_merkle_proofs(&case.root, &case.keys, &case.branches, &case.indices, depth, &rescue));
    // the trace is built all the same, and meets every transition constraint;
    // it is the root at the end of the cycle that is not met
    let trace = merkle_trace(&case, depth, &rescue);
    let air = merkle_air(&case, case.keys.clone(), case.root, depth, &rescue);
    let columns = air.get_periodic_column_values();
    assert_eq!(first_violation(&columns, &trace, |c, n, p, r| air.evaluate_transition(c, n, p, r)), None);
    assert!(!assertions_hold(&air.get_assertions(), &trace));
}

#[test]
fn merkle_test_witness_shape() {
    let rescue = test_rescue();
    let depth = 6;
    let case = merkle_case(3, depth, &rescue);
    let prover = MerkleProver::new(build_options(1), case.root, case.keys.clone(), depth, rescue.clone());
    assert_eq!(
        prover.build_trace(case.branches.clone(), case.indices.clone()).err(),
        Some(WitnessError::NotPowerOfTwo)
    );
    assert_eq!(
        prover.build_trace(case.branches[..2].to_vec(), case.indices.clone()).err(),
        Some(WitnessError::WrongLength)
    );
    let mut short = case.branches.clone();
    short[1].pop();
    assert_eq!(prover.build_trace(short, case.indices.clone()).err(), Some(WitnessError::WrongLength));
}

// SCHNORR
// ================================================================================================

struct SchnorrCase {
    keys: Vec<[Felt; 12]>,
    addresses: Vec<[u8; 20]>,
    signatures: Vec<Signature>,
}

// The secret key of a signer. With four voters or fewer no vote of theirs, with the
// generator added or taken away, is the point at infinity.
fn secret_key(i: usize) -> u64 {
    [2, 3, 5, 7][i % 4]
}

// Signs with small secret keys: with such a secret the scalar s = k - sk * h can
// be had over the integers.
fn schnorr_case(num_signatures: usize, curve: &Curve, rescue: &Rescue) -> SchnorrCase {
    let g = curve.generator;
    let mut case = SchnorrCase { keys: vec![], addresses: vec![], signatures: vec![] };
    for i in 0..num_signatures {
        let secret = secret_key(i);
        let key = affine_array(g.scalar_mul(secret, curve), curve);
        let mut address = [0u8; 20];
        OsRng.fill_bytes(&mut address);
        let message = prepare_message(&key, &address);
        let signature = loop {
            let k = large_scalar();
            let r = g.scalar_mul_bytes(&k, curve).to_affine(curve);
            let mut r_x = [Felt::zero(); 6];
            r_x.copy_from_slice(&r.to_vec()[..6]);
            let h = digest_bytes(&hash_message(&r_x, &message, rescue));
            if let Some(s) = scalar_mul_small(&h, secret).and_then(|xh| scalar_sub(&k, &xh)) {
                break (r_x, s);
            }
        };
        case.keys.push(key);
        case.addresses.push(address);
        case.signatures.push(signature);
    }
    case
}

fn schnorr_trace(case: &SchnorrCase, extension: u8, curve: &Curve, rescue: &Rescue) -> TraceTable {
    SchnorrProver::new(
        build_options(extension),
        case.keys.clone(),
        case.addresses.clone(),
        case.signatures.clone(),
        *curve,
        rescue.clone(),
    )
    .build_trace()
    .unwrap()
}

fn schnorr_air(case: &SchnorrCase, extension: u8, curve: &Curve, rescue: &Rescue) -> SchnorrAir {
    SchnorrAir::new(
        TraceInfo::new(60, case.keys.len() * SIG_CYCLE_LENGTH),
        SchnorrPublicInputs {
            voting_keys: case.keys.clone(),
            addresses: case.addresses.clone(),
            signatures: case.signatures.clone(),
        },
        build_options(extension),
        *curve,
        rescue.clone(),
    )
}

fn schnorr_verifies(case: &SchnorrCase, trace: &TraceTable, extension: u8, curve: &Curve, rescue: &Rescue) -> bool {
    let air = schnorr_air(case, extension, curve, rescue);
    let columns = air.get_periodic_column_values();
    first_violation(&columns, trace, |c, n, p, r| air.evaluate_transition(c, n, p, r)).is_none()
        && assertions_hold(&air.get_assertions(), trace)
}

#[test]
fn schnorr_test_proof_verification() {
    let (curve, rescue) = (test_curve(), test_rescue());
    let case = schnorr_case(1, &curve, &rescue);
    assert!(Affine::read(&case.keys[0], 0).is_on_curve(&curve));
    assert!(verify_signature(&case.keys[0], &case.addresses[0], &case.signatures[0], &curve, &rescue));
    let trace = schnorr_trace(&case, 1, &curve, &rescue);
    assert_eq!(trace.length(), SIG_CYCLE_LENGTH);
    assert!(schnorr_verifies(&case, &trace, 1, &curve, &rescue));
}

#[test]
fn schnorr_test_proof_verification_quadratic_extension() {
    let (curve, rescue) = (test_curve(), test_rescue());
    let case = schnorr_case(2, &curve, &rescue);
    let trace = schnorr_trace(&case, 2, &curve, &rescue);
    assert!(schnorr_verifies(&case, &trace, 2, &curve, &rescue));
}

#[test]
fn schnorr_test_proof_verification_cubic_extension() {
    let (curve, rescue) = (test_curve(), test_rescue());
    let case = schnorr_case(2, &curve, &rescue);
    let trace = schnorr_trace(&case, 3, &curve, &rescue);
    assert!(schnorr_verifies(&case, &trace, 3, &curve, &rescue));
}

#[test]
fn schnorr_test_eight_signers_under_every_extension() {
    let (curve, rescue) = (test_curve(), test_rescue());
    let case = schnorr_case(8, &curve, &rescue);
    assert!(naive_verify_signatures(&case.keys, &case.addresses, &case.signatures, &curve, &rescue));
    let traces: Vec<TraceTable> =
        (1..=3).map(|extension| schnorr_trace(&case, extension, &curve, &rescue)).collect();
    assert_eq!(traces[0], traces[1]);
    assert_eq!(traces[0], traces[2]);
    for extension in 1..=3 {
        assert!(schnorr_verifies(&case, &traces[0], extension, &curve, &rescue));
    }
    // one byte of one signature is flipped
    let mut wrong = SchnorrCase {
        keys: case.keys.clone(),
        addresses: case.addresses.clone(),
        signatures: case.signatures.clone(),
    };
    let fault_index = (OsRng.next_u32() as usize) % 8;
    let fault_position = (OsRng.next_u32() as usize) % 31;
    wrong.signatures[fault_index].1[fault_position] ^= 1;
    assert!(!verify_signature(
        &wrong.keys[fault_index],
        &wrong.addresses[fault_index],
        &wrong.signatures[fault_index],
        &curve,
        &rescue
    ));
    assert!(!schnorr_verifies(&wrong, &traces[0], 1, &curve, &rescue));
}

#[test]
fn schnorr_test_proof_verification_wrong_message() {
    let (curve, rescue) = (test_curve(), test_rescue());
    let case = schnorr_case(2, &curve, &rescue);
    let trace = schnorr_trace(&case, 1, &curve, &rescue);
    let mut wrong = SchnorrCase {
        keys: case.keys.clone(),
        addresses: case.addresses.clone(),
        signatures: case.signatures.clone(),
    };
    if OsRng.next_u32() % 2 == 0 {
        // wrong voting key
        let fault_index = (OsRng.next_u32() as usize) % 2;
        let fault_position = (OsRng.next_u32() as usize) % 12;
        wrong.keys[fault_index][fault_position] = wrong.keys[fault_index][fault_position].add(Felt::one());
    } else {
        // wrong address
        let fault_index = (OsRng.next_u32() as usize) % 2;
        let fault_position = (OsRng.next_u32() as usize) % 20;
        wrong.addresses[fault_index][fault_position] ^= 1;
    }
    assert!(!schnorr_verifies(&wrong, &trace, 1, &curve, &rescue));
}

#[test]
fn schnorr_test_proof_verification_wrong_signature() {
    let (curve, rescue) = (test_curve(), test_rescue());
    let case = schnorr_case(2, &curve, &rescue);
    let trace = schnorr_trace(&case, 1, &curve, &rescue);
    let mut wrong = SchnorrCase {
        keys: case.keys.clone(),
        addresses: case.addresses.clone(),
        signatures: case.signatures.clone(),
    };
    let fault_index = (OsRng.next_u32() as usize) % 2;
    let fault_position = (OsRng.next_u32() as usize) % 6;
    wrong.signatures[fault_index].0[fault_position] =
        wrong.signatures[fault_index].0[fault_position].add(Felt::one());
    assert!(!schnorr_verifies(&wrong, &trace, 1, &curve, &rescue));
}

#[test]
fn schnorr_test_witness_shape() {
    let (curve, rescue) = (test_curve(), test_rescue());
    let case = schnorr_case(2, &curve, &rescue);
    let prover = SchnorrProver::new(
        build_options(1),
        case.keys.clone(),
        case.addresses[..1].to_vec(),
        case.signatures.clone(),
        curve,
        rescue.clone(),
    );
    assert_eq!(prover.build_trace().err(), Some(WitnessError::WrongLength));
    let mut keys = case.keys.clone();
    keys.push(keys[0]);
    let mut addresses = case.addresses.clone();
    addresses.push(addresses[0]);
    let mut signatures = case.signatures.clone();
    signatures.push(signatures[0]);
    let prover = SchnorrProver::new(build_options(1), keys, addresses, signatures, curve, rescue);
    assert_eq!(prover.build_trace().err(), Some(WitnessError::NotPowerOfTwo));
}

// CDS
// ================================================================================================

struct CdsCase {
    voting_keys: Vec<[Felt; 12]>,
    encrypted_votes: Vec<[Felt; 12]>,
    proof_points: Vec<[Felt; 48]>,
    proof_scalars: Vec<[[u8; 32]; 4]>,
}

fn concat_points(points: [Projective; 4], curve: &Curve) -> [Felt; 48] {
    let mut out = [Felt::zero(); 48];
    for (k, p) in points.iter().enumerate() {
        out[12 * k..12 * (k + 1)].copy_from_slice(&affine_array(*p, curve));
    }
    out
}

// Voters with small secret keys, and the votes given. With secrets that small the
// scalars of the real branch can be had over the integers.
fn cds_case(votes: &[bool], curve: &Curve, rescue: &Rescue) -> CdsCase {
    let secrets: Vec<u64> = (0..votes.len()).map(secret_key).collect();
    let voting_keys: Vec<[Felt; 12]> =
        secrets.iter().map(|&s| affine_array(curve.generator.scalar_mul(s, curve), curve)).collect();
    cds_case_of(&voting_keys, &secrets, votes, curve, rescue)
}

// The votes and the proofs of voters with the given keys and their secrets.
fn cds_case_of(voting_keys: &Vec<[Felt; 12]>, secrets: &[u64], votes: &[bool], curve: &Curve, rescue: &Rescue) -> CdsCase {
    let g = curve.generator;
    let n = votes.len();
    let mut blinding = Projective::identity();
    for key in voting_keys.iter().skip(1) {
        blinding = blinding.add_mixed(Affine::read(key, 0).neg(), curve);
    }
    let mut case = CdsCase {
        voting_keys: voting_keys.clone(),
        encrypted_votes: vec![],
        proof_points: vec![],
        proof_scalars: vec![],
    };
    for i in 0..n {
        let bk = blinding.to_affine(curve);
        let vk = Affine::read(&voting_keys[i], 0);
        let shared = bk.scalar_mul(secrets[i], curve);
        let vote = if votes[i] { shared.add_mixed(g, curve) } else { shared.add_mixed(g.neg(), curve) };
        let ev = affine_array(vote, curve);
        let ev_plus = vote.add_mixed(g, curve).to_affine(curve);
        let ev_minus = vote.add_mixed(g.neg(), curve).to_affine(curve);
        let (points, scalars) = loop {
            // the branch of the other vote is simulated with scalars of its own
            let (r_sim, d_sim) = (random_scalar(250), random_scalar(200));
            let ev_sim = if votes[i] { ev_plus } else { ev_minus };
            let a_sim = g.scalar_mul_bytes(&r_sim, curve).add(vk.scalar_mul_bytes(&d_sim, curve), curve);
            let b_sim = bk.scalar_mul_bytes(&r_sim, curve).add(ev_sim.scalar_mul_bytes(&d_sim, curve), curve);
            // the branch of the vote is real
            let w = large_scalar();
            let a_real = g.scalar_mul_bytes(&w, curve);
            let b_real = bk.scalar_mul_bytes(&w, curve);
            let points = if votes[i] {
                concat_points([a_sim, b_sim, a_real, b_real], curve)
            } else {
                concat_points([a_real, b_real, a_sim, b_sim], curve)
            };
            let message = prepare_hash_message(i, &voting_keys[i], &ev, &points);
            let c = hash_message_bytes(&message, rescue);
            let real = scalar_sub(&c, &d_sim).and_then(|d_real| {
                scalar_mul_small(&d_real, secrets[i])
                    .and_then(|xd| scalar_sub(&w, &xd))
                    .map(|r_real| (d_real, r_real))
            });
            if let Some((d_real, r_real)) = real {
                let scalars =
                    if votes[i] { [d_sim, d_real, r_sim, r_real] } else { [d_real, d_sim, r_real, r_sim] };
                break (points, scalars);
            }
        };
        case.encrypted_votes.push(ev);
        case.proof_points.push(points);
        case.proof_scalars.push(scalars);
        if i + 1 < n {
            blinding = blinding.add_mixed(vk, curve);
            blinding = blinding.add_mixed(Affine::read(&voting_keys[i + 1], 0), curve);
        }
    }
    case
}

fn cds_prover(case: &CdsCase, extension: u8, curve: &Curve, rescue: &Rescue) -> CDSProver {
    CDSProver::new(
        build_options(extension),
        case.voting_keys.clone(),
        case.encrypted_votes.clone(),
        case.proof_points.clone(),
        case.proof_scalars.clone(),
        *curve,
        rescue.clone(),
    )
    .unwrap()
}

fn cds_verifies(pub_inputs: CdsPublicInputs, trace: &TraceTable, extension: u8, curve: &Curve, rescue: &Rescue) -> bool {
    let air = CDSAir::new(
        TraceInfo::new(111, trace.length()),
        pub_inputs,
        build_options(extension),
        *curve,
        rescue.clone(),
    );
    let columns = air.get_periodic_column_values();
    first_violation(&columns, trace, |c, n, p, r| air.evaluate_transition(c, n, p, r)).is_none()
        && assertions_hold(&air.get_assertions(), trace)
}

fn cds_prove(extension: u8) -> (CdsPublicInputs, TraceTable, Curve, Rescue) {
    let (curve, rescue) = (test_curve(), test_rescue());
    let case = cds_case(&[true, false], &curve, &rescue);
    let prover = cds_prover(&case, extension, &curve, &rescue);
    let trace = prover.build_trace();
    (prover.get_pub_inputs(&trace), trace, curve, rescue)
}

#[test]
fn cds_test_basic_proof_verification() {
    let (pub_inputs, trace, curve, rescue) = cds_prove(1);
    assert_eq!(trace.length(), 2 * CDS_CYCLE_LENGTH);
    assert_eq!(trace.width(), 111);
    // the proofs are valid: nothing is left of what the outputs measure
    for output in pub_inputs.outputs.iter() {
        assert!(output.iter().all(|&e| e == Felt::zero()));
    }
    assert!(cds_verifies(pub_inputs, &trace, 1, &curve, &rescue));
}

#[test]
fn cds_test_basic_proof_verification_quadratic_extension() {
    let (pub_inputs, trace, curve, rescue) = cds_prove(2);
    assert!(cds_verifies(pub_inputs, &trace, 2, &curve, &rescue));
}

#[test]
fn cds_test_basic_proof_verification_cubic_extension() {
    let (pub_inputs, trace, curve, rescue) = cds_prove(3);
    assert!(cds_verifies(pub_inputs, &trace, 3, &curve, &rescue));
}

#[test]
fn cds_test_basic_proof_verification_fail() {
    let (pub_inputs, trace, curve, rescue) = cds_prove(1);
    // one element of one proof is off by one
    let mut wrong = pub_inputs.clone();
    let fault_index = (OsRng.next_u32() as usize) % wrong.proofs.len();
    let fault_position = (OsRng.next_u32() as usize) % wrong.proofs[0].len();
    wrong.proofs[fault_index][fault_position] = wrong.proofs[fault_index][fault_position].add(Felt::one());
    assert!(!cds_verifies(wrong, &trace, 1, &curve, &rescue));
    // one element of one output is off by one
    let mut wrong = pub_inputs.clone();
    let fault_index = (OsRng.next_u32() as usize) % wrong.outputs.len();
    let fault_position = (OsRng.next_u32() as usize) % wrong.outputs[0].len();
    wrong.outputs[fault_index][fault_position] = wrong.outputs[fault_index][fault_position].add(Felt::one());
    assert!(!cds_verifies(wrong, &trace, 1, &curve, &rescue));
}

#[test]
fn cds_test_invalid_proof_shows_in_the_outputs() {
    let (curve, rescue) = (test_curve(), test_rescue());
    let mut case = cds_case(&[false, true], &curve, &rescue);
    // a scalar that does not go with the proof points: the trace is built all the
    // same and meets the constraint system, but the outputs are not zero
    case.proof_scalars[1][2][0] ^= 1;
    let prover = cds_prover(&case, 1, &curve, &rescue);
    let trace = prover.build_trace();
    let pub_inputs = prover.get_pub_inputs(&trace);
    assert!(pub_inputs.outputs[0].iter().all(|&e| e == Felt::zero()));
    assert!(pub_inputs.outputs[1].iter().any(|&e| e != Felt::zero()));
    assert!(cds_verifies(pub_inputs, &trace, 1, &curve, &rescue));
}

#[test]
fn cds_test_witness_shape() {
    let (curve, rescue) = (test_curve(), test_rescue());
    let key = [Felt::zero(); 12];
    let points = [Felt::zero(); 48];
    let scalars = [[0u8; 32]; 4];
    let shape = |n: usize, m: usize| {
        CDSProver::new(
            build_options(1),
            vec![key; n],
            vec![key; n],
            vec![points; m],
            vec![scalars; n],
            curve,
            rescue.clone(),
        )
        .err()
    };
    assert_eq!(shape(2, 1), Some(WitnessError::WrongLength));
    assert_eq!(shape(1, 1), Some(WitnessError::TooFewItems));
    assert_eq!(shape(0, 0), Some(WitnessError::TooFewItems));
    assert_eq!(shape(6, 6), Some(WitnessError::NotPowerOfTwo));
    assert_eq!(shape(4, 4), None);
}

#[test]
fn cds_test_naive_verification() {
    let (curve, rescue) = (test_curve(), test_rescue());
    let case = cds_case(&[true, false, false, true], &curve, &rescue);
    assert!(naive_verify_cds_proofs(
        &case.voting_keys,
        &case.encrypted_votes,
        &case.proof_scalars,
        &case.proof_points,
        &curve,
        &rescue
    ));
    let blinding_keys = compute_blinding_keys(&case.voting_keys, &curve);
    let verifies = |voter: usize, vote: &[Felt; 12], points: &[Felt; 48], scalars: &[[u8; 32]; 4]| {
        verify_cds_proof(voter, &case.voting_keys[voter], &blinding_keys[voter], vote, points, scalars, &curve, &rescue)
    };
    for i in 0..4 {
        assert!(verifies(i, &case.encrypted_votes[i], &case.proof_points[i], &case.proof_scalars[i]));
        // the proof of another voter, another vote, a point or a scalar that is
        // not that of the proof
        let other = (i + 1) % 4;
        assert!(!verifies(other, &case.encrypted_votes[i], &case.proof_points[i], &case.proof_scalars[i]));
        assert!(!verifies(i, &case.encrypted_votes[other], &case.proof_points[i], &case.proof_scalars[i]));
        for at in [0, 13, 30, 47] {
            let mut points = case.proof_points[i];
            points[at] = points[at].add(Felt::one());
            assert!(!verifies(i, &case.encrypted_votes[i], &points, &case.proof_scalars[i]));
        }
        for k in 0..4 {
            let mut scalars = case.proof_scalars[i];
            scalars[k][5] ^= 1;
            assert!(!verifies(i, &case.encrypted_votes[i], &case.proof_points[i], &scalars));
        }
    }
    // a vote for neither: the key of the voter in place of the generator
    let mut votes = case.encrypted_votes.clone();
    votes[2] = case.voting_keys[2];
    assert!(!naive_verify_cds_proofs(
        &case.voting_keys,
        &votes,
        &case.proof_scalars,
        &case.proof_points,
        &curve,
        &rescue
    ));
}

// TALLY
// ================================================================================================

// Votes s_i * G whose scalars add up to 2t - N, the last being what is missing
// of the others.
fn tally_case(num_votes: usize, tally_result: u64, curve: &Curve) -> Vec<[Felt; 12]> {
    let g = curve.generator;
    let mut votes = vec![];
    let mut sum: i128 = 0;
    for _ in 0..num_votes - 1 {
        let s = (OsRng.next_u32() as u64) + 1;
        sum += s as i128;
        votes.push(affine_array(g.scalar_mul(s, curve), curve));
    }
    let last = 2 * tally_result as i128 - num_votes as i128 - sum;
    let point = g.scalar_mul(last.unsigned_abs() as u64, curve);
    votes.push(affine_array(if last < 0 { point.neg() } else { point }, curve));
    votes
}

fn tally_verifies(votes: &[[Felt; 12]], tally_result: u64, trace: &TraceTable, extension: u8, curve: &Curve) -> bool {
    let air = TallyAir::new(
        TraceInfo::new(18, trace.length()),
        TallyPublicInputs { encrypted_votes: votes.to_vec(), tally_result },
        build_options(extension),
        *curve,
    );
    let columns = air.get_periodic_column_values();
    first_violation(&columns, trace, |c, n, p, r| air.evaluate_transition(c, n, p, r)).is_none()
        && assertions_hold(&air.get_assertions(), trace)
}

fn tally_prove(extension: u8) -> (Vec<[Felt; 12]>, u64, TraceTable, Curve) {
    let curve = test_curve();
    let tally_result = OsRng.next_u64() % 9;
    let votes = tally_case(8, tally_result, &curve);
    assert!(naive_verify_tally_result(&votes, tally_result, &curve));
    let trace = TallyProver::new(build_options(extension), votes.clone(), tally_result, curve)
        .build_trace()
        .unwrap();
    (votes, tally_result, trace, curve)
}

#[test]
fn tally_test_basic_proof_verification() {
    let (votes, tally_result, trace, curve) = tally_prove(1);
    assert_eq!(trace.length(), 8);
    assert_eq!(trace.width(), 18);
    assert!(tally_verifies(&votes, tally_result, &trace, 1, &curve));
}

#[test]
fn tally_test_basic_proof_verification_quadratic_extension() {
    let (votes, tally_result, trace, curve) = tally_prove(2);
    assert!(tally_verifies(&votes, tally_result, &trace, 2, &curve));
}

#[test]
fn tally_test_basic_proof_verification_cubic_extension() {
    let (votes, tally_result, trace, curve) = tally_prove(3);
    assert!(tally_verifies(&votes, tally_result, &trace, 3, &curve));
}

#[test]
fn tally_test_basic_proof_verification_fail() {
    let (votes, tally_result, trace, curve) = tally_prove(1);
    // wrong encrypted vote
    let mut wrong = votes.clone();
    let fault_index = (OsRng.next_u32() as usize) % 8;
    let fault_position = (OsRng.next_u32() as usize) % 12;
    wrong[fault_index][fault_position] = wrong[fault_index][fault_position].add(Felt::one());
    assert!(!tally_verifies(&wrong, tally_result, &trace, 1, &curve));
    // wrong tally result
    let mut wrong_result = tally_result;
    while wrong_result == tally_result {
        wrong_result = OsRng.next_u64() % 9;
    }
    assert!(!naive_verify_tally_result(&votes, wrong_result, &curve));
    assert!(!tally_verifies(&votes, wrong_result, &trace, 1, &curve));
}

#[test]
fn tally_test_off_by_one_tally_of_two_voters() {
    // two voters, one voting yes and one voting no: the tally is one
    let (curve, rescue) = (test_curve(), test_rescue());
    let case = cds_case(&[true, false], &curve, &rescue);
    let votes = case.encrypted_votes.clone();
    assert!(naive_verify_tally_result(&votes, 1, &curve));
    let trace = TallyProver::new(build_options(1), votes.clone(), 1, curve).build_trace().unwrap();
    assert!(tally_verifies(&votes, 1, &trace, 1, &curve));
    for wrong in [0, 2] {
        assert!(!naive_verify_tally_result(&votes, wrong, &curve));
        assert!(!tally_verifies(&votes, wrong, &trace, 1, &curve));
        // nor does the trace of the wrong tally meet its own constraint system
        let trace = TallyProver::new(build_options(1), votes.clone(), wrong, curve).build_trace().unwrap();
        assert!(!tally_verifies(&votes, wrong, &trace, 1, &curve));
    }
}

#[test]
fn tally_test_witness_shape() {
    let curve = test_curve();
    let vote = [Felt::zero(); 12];
    let shape = |n: usize| TallyProver::new(build_options(1), vec![vote; n], 0, curve).build_trace().err();
    assert_eq!(shape(0), Some(WitnessError::TooFewItems));
    assert_eq!(shape(1), Some(WitnessError::TooFewItems));
    assert_eq!(shape(3), Some(WitnessError::NotPowerOfTwo));
    assert_eq!(shape(4), None);
}

// AGGREGATOR AND VERIFIER
// ================================================================================================

struct Election {
    root: [Felt; 7],
    depth: usize,
    registrations: Vec<Registration>,
    votes: Vec<EncryptedVote>,
    tally: u32,
}

// An election of voters who all register and vote, yes and no in turn.
fn election(num_voters: usize, curve: &Curve, rescue: &Rescue) -> Election {
    let depth = 6;
    let signed = schnorr_case(num_voters, curve, rescue);
    let indices: Vec<usize> = (0..num_voters).map(|i| (7 * i + 3) % 64).collect();
    let leaves: Vec<Vec<Felt>> = (0..64).map(|_| random_elements::<7>().to_vec()).collect();
    let (root, branches) = build_merkle_tree_from(&signed.keys, leaves, &indices, depth, rescue);
    let mut root_array = [Felt::zero(); 7];
    root_array.copy_from_slice(&root);
    let registrations = (0..num_voters)
        .map(|i| Registration {
            voting_key: signed.keys[i],
            merkle_branch: branches[i].clone(),
            hash_index: indices[i],
            signature: signed.signatures[i],
            address: signed.addresses[i],
        })
        .collect();
    // the keys of the voters are those of the proofs of their votes
    let yes: Vec<bool> = (0..num_voters).map(|i| i % 2 == 0).collect();
    let secrets: Vec<u64> = (0..num_voters).map(secret_key).collect();
    let cast = cds_case_of(&signed.keys, &secrets, &yes, curve, rescue);
    let votes = (0..num_voters)
        .map(|i| EncryptedVote {
            voter_index: i,
            encrypted_vote: cast.encrypted_votes[i],
            proof_points: cast.proof_points[i],
            proof_scalars: cast.proof_scalars[i],
        })
        .collect();
    Election { root: root_array, depth, registrations, votes, tally: yes.iter().filter(|&&v| v).count() as u32 }
}

fn registar_of(election: &Election, curve: &Curve, rescue: &Rescue) -> VoterRegistar {
    let mut registar =
        VoterRegistar::new(election.root, election.registrations.len(), election.depth, *curve, *rescue);
    let results = registar.add_registrations(&election.registrations);
    assert!(results.iter().all(|r| r.is_ok()));
    registar
}

fn root_bytes(root: &[Felt; 7]) -> Vec<u8> {
    let mut bytes = vec![];
    write_elements(&mut bytes, root);
    bytes
}

// What the proving engine would do with the two provers of a registrar: here the
// traces are checked against the constraint systems themselves.
fn registrations_verify(registar: &VoterRegistar, merkle: &MerklePublicInputs, schnorr: &SchnorrPublicInputs) -> bool {
    let (merkle_prover, schnorr_prover) = registar.register_provers(build_options(1));
    let merkle_trace =
        merkle_prover.build_trace(registar.merkle_branches.clone(), registar.hash_indices.clone()).unwrap();
    let schnorr_trace = schnorr_prover.build_trace().unwrap();
    let merkle_air = MerkleAir::new(
        TraceInfo::new(15, merkle_trace.length()),
        merkle.clone(),
        build_options(1),
        registar.tree_depth,
        registar.rescue,
    );
    let schnorr_air = SchnorrAir::new(
        TraceInfo::new(60, schnorr_trace.length()),
        schnorr.clone(),
        build_options(1),
        registar.curve,
        registar.rescue,
    );
    let merkle_verified = merkle.voting_keys.len() == registar.voting_keys.len()
        && first_violation(&merkle_air.get_periodic_column_values(), &merkle_trace, |c, n, p, r| {
            merkle_air.evaluate_transition(c, n, p, r)
        })
        .is_none()
        && assertions_hold(&merkle_air.get_assertions(), &merkle_trace);
    let schnorr_verified = schnorr.voting_keys.len() == registar.voting_keys.len()
        && schnorr.addresses.len() == registar.voting_keys.len()
        && schnorr.signatures.len() == registar.voting_keys.len()
        && first_violation(&schnorr_air.get_periodic_column_values(), &schnorr_trace, |c, n, p, r| {
            schnorr_air.evaluate_transition(c, n, p, r)
        })
        .is_none()
        && assertions_hold(&schnorr_air.get_assertions(), &schnorr_trace);
    verify_register_proof(merkle_verified, schnorr_verified)
}

#[test]
fn register_test_all_valid() {
    let (curve, rescue) = (test_curve(), test_rescue());
    let election = election(2, &curve, &rescue);
    let mut registar = registar_of(&election, &curve, &rescue);
    assert!(registar.dirty_flag);
    assert!(registar.cached_register_proof().is_none());
    let register_proof = registar.store_register_proof(&[1, 2, 3], &[4, 5]);
    assert!(!registar.dirty_flag);
    assert_eq!(registar.cached_register_proof(), Some(register_proof.clone()));
    // 4 bytes of the count, 196 bytes for each registration, the length of the
    // first proof and the two proofs
    assert_eq!(register_proof.len(), 4 + 2 * 196 + 4 + 3 + 2);
    let verified = split_register_proof(&root_bytes(&registar.elg_root), &register_proof);
    assert!(verified.is_ok(), "Serialized proof should be deserialized with no error.");
    let parts = verified.unwrap();
    assert_eq!(parts.merkle_proof, vec![1, 2, 3]);
    assert_eq!(parts.schnorr_proof, vec![4, 5]);
    assert_eq!(parts.merkle_pub_inputs.tree_root, registar.elg_root);
    assert_eq!(parts.merkle_pub_inputs.voting_keys, registar.voting_keys);
    assert_eq!(parts.schnorr_pub_inputs.voting_keys, registar.voting_keys);
    assert_eq!(parts.schnorr_pub_inputs.addresses, registar.addresses);
    assert_eq!(parts.schnorr_pub_inputs.signatures, registar.signatures);
    assert!(
        registrations_verify(&registar, &parts.merkle_pub_inputs, &parts.schnorr_pub_inputs),
        "STARK proofs should be valid."
    );
}

#[test]
fn register_test_wrong_pub_inputs() {
    let (curve, rescue) = (test_curve(), test_rescue());
    let election = election(2, &curve, &rescue);
    let mut registar = registar_of(&election, &curve, &rescue);
    let mut register_proof = registar.store_register_proof(&[1, 2, 3], &[4, 5]);
    let pub_inputs_nbytes = registar.voting_keys.len() * (96 + 20 + 80);
    let fault_position = 4 + ((OsRng.next_u32() as usize) % pub_inputs_nbytes);
    register_proof[fault_position] ^= 1;
    match split_register_proof(&root_bytes(&registar.elg_root), &register_proof) {
        // a word that is not below the modulus is no element
        Err(e) => assert_eq!(e, DeserializationError::InvalidValue),
        Ok(parts) => assert!(
            !registrations_verify(&registar, &parts.merkle_pub_inputs, &parts.schnorr_pub_inputs),
            "One of the STARK proofs should be invalid."
        ),
    }
}

#[test]
fn register_test_wrong_stark_proof() {
    let (curve, rescue) = (test_curve(), test_rescue());
    let election = election(2, &curve, &rescue);
    let mut registar = registar_of(&election, &curve, &rescue);
    let merkle_proof: Vec<u8> = (0..100).collect();
    let schnorr_proof: Vec<u8> = (100..250).collect();
    let mut register_proof = registar.store_register_proof(&merkle_proof, &schnorr_proof);
    let pub_inputs_nbytes = registar.voting_keys.len() * (96 + 20 + 80);
    let proof_nbytes = register_proof.len() - 4 - pub_inputs_nbytes - 4;
    let fault_position = 4 + pub_inputs_nbytes + 4 + ((OsRng.next_u32() as usize) % proof_nbytes);
    register_proof[fault_position] ^= 1;
    let parts = split_register_proof(&root_bytes(&registar.elg_root), &register_proof).unwrap();
    // the public inputs are those of the registrar, and one of the two proofs that
    // go to the verifying engine is not the one that the proving engine made
    assert_eq!(parts.schnorr_pub_inputs.signatures, registar.signatures);
    assert!(parts.merkle_proof != merkle_proof || parts.schnorr_proof != schnorr_proof);
    assert_eq!(parts.merkle_proof.len() + parts.schnorr_proof.len(), 250);
    assert!(!verify_register_proof(parts.merkle_proof == merkle_proof, parts.schnorr_proof == schnorr_proof));
}

#[test]
fn register_test_refusals() {
    let (curve, rescue) = (test_curve(), test_rescue());
    let election = election(4, &curve, &rescue);
    let mut registar = VoterRegistar::new(election.root, 3, election.depth, curve, rescue);
    let r = &election.registrations;
    assert_eq!(registar.add_registration(r[0].clone()), Ok(()));
    assert_eq!(registar.voting_keys.len(), 1);
    // the address of the first voter under the key of the second
    let mut stolen = r[1].clone();
    stolen.address = r[0].address;
    assert_eq!(registar.add_registration(stolen), Err(RegistarError::DuplicatedEthAddress));
    // a path that does not lead to the root
    let mut lost = r[1].clone();
    lost.hash_index ^= 1;
    assert_eq!(registar.add_registration(lost), Err(RegistarError::InvalidMerkleProof));
    let mut short = r[1].clone();
    short.merkle_branch.pop();
    assert_eq!(registar.add_registration(short), Err(RegistarError::InvalidMerkleProof));
    // a signature of another message
    let mut forged = r[1].clone();
    forged.signature.1[3] ^= 1;
    assert_eq!(registar.add_registration(forged), Err(RegistarError::InvalidSchnorrSig));
    let mut moved = r[1].clone();
    moved.address[0] ^= 1;
    assert_eq!(registar.add_registration(moved), Err(RegistarError::InvalidSchnorrSig));
    assert_eq!(registar.voting_keys.len(), 1);
    // a voter who registers again takes the place of the earlier registration
    assert_eq!(registar.add_registration(r[1].clone()), Ok(()));
    assert_eq!(registar.add_registration(r[0].clone()), Ok(()));
    assert_eq!(registar.voting_keys, vec![r[0].voting_key, r[1].voting_key]);
    // three voters are eligible
    let results = registar.add_registrations(&vec![r[2].clone(), r[3].clone(), r[2].clone()]);
    assert_eq!(results, vec![Ok(()), Err(RegistarError::TooManyRegistrations), Ok(())]);
    assert_eq!(registar.voting_keys.len(), 3);
    assert_eq!(registar.addresses[2], r[2].address);
    let pub_inputs = registar.get_pub_inputs();
    assert_eq!(pub_inputs.voting_keys, registar.voting_keys);
    assert_eq!(pub_inputs.signatures, registar.signatures);
}

fn key_bytes(keys: &Vec<[Felt; 12]>) -> Vec<u8> {
    let mut bytes = vec![];
    write_count(&mut bytes, keys.len() as u32);
    write_rows(&mut bytes, keys);
    bytes
}

fn collector_of(election: &Election, curve: &Curve, rescue: &Rescue) -> VoteCollector {
    let keys = election.registrations.iter().map(|r| r.voting_key).collect();
    let mut collector = VoteCollector::new(keys, *curve, *rescue);
    for vote in election.votes.iter() {
        assert_eq!(collector.add_encrypted_vote(*vote), Ok(()));
    }
    collector
}

fn cast_proof_of(collector: &mut VoteCollector, proof: &[u8]) -> (Vec<u8>, TraceTable) {
    let prover = collector.cast_prover(build_options(1)).unwrap();
    let trace = prover.build_trace();
    let pub_inputs = prover.get_pub_inputs(&trace);
    (collector.store_cast_proof(&pub_inputs, proof), trace)
}

#[test]
fn cast_test_all_valid() {
    let (curve, rescue) = (test_curve(), test_rescue());
    let election = election(2, &curve, &rescue);
    let mut collector = collector_of(&election, &curve, &rescue);
    assert_eq!(collector.num_valid_votes, 2);
    assert!(collector.cached_cast_proof().is_none());
    let (cast_proof, trace) = cast_proof_of(&mut collector, &[9, 8, 7]);
    assert_eq!(collector.cached_cast_proof(), Some(cast_proof.clone()));
    assert_eq!(cast_proof.len(), 4 + 2 * 960 + 3);
    let verified = split_cast_proof(&key_bytes(&collector.voting_keys), &cast_proof);
    assert!(verified.is_ok(), "Serialized proof should be deserialized with no error.");
    let parts = verified.unwrap();
    assert_eq!(parts.cds_proof, vec![9, 8, 7]);
    for (i, proof) in parts.cds_pub_inputs.proofs.iter().enumerate() {
        assert_eq!(proof[..12], collector.voting_keys[i]);
        assert_eq!(proof[12..24], election.votes[i].encrypted_vote);
        assert_eq!(proof[24..], election.votes[i].proof_points);
    }
    assert!(
        verify_cast_proof(cds_verifies(parts.cds_pub_inputs, &trace, 1, &curve, &rescue)),
        "STARK proof should be valid."
    );
    // the answer of the precompiled contract tells of each vote that its outputs vanish
    let answer = verify_cast_proof_run(&cast_proof, 0, Ok(true)).unwrap().1;
    assert_eq!(answer.len(), 96 + 2 + 30);
    assert_eq!(answer[31], 1);
    assert_eq!(answer[63], 0x40);
    assert_eq!(answer[92..96], [0, 0, 0, 2]);
    assert_eq!(answer[96..98], [1, 1]);
    assert!(answer[98..].iter().all(|&b| b == 0));
}

#[test]
fn cast_test_wrong_pub_inputs() {
    let (curve, rescue) = (test_curve(), test_rescue());
    let election = election(2, &curve, &rescue);
    let mut collector = collector_of(&election, &curve, &rescue);
    let (mut cast_proof, trace) = cast_proof_of(&mut collector, &[9, 8, 7]);
    let pub_inputs_nbytes = collector.num_valid_votes * 960;
    let fault_position = 4 + ((OsRng.next_u32() as usize) % pub_inputs_nbytes);
    cast_proof[fault_position] ^= 1;
    match split_cast_proof(&key_bytes(&collector.voting_keys), &cast_proof) {
        Err(e) => assert_eq!(e, DeserializationError::InvalidValue),
        Ok(parts) => assert!(
            !verify_cast_proof(cds_verifies(parts.cds_pub_inputs, &trace, 1, &curve, &rescue)),
            "STARK proof should be invalid."
        ),
    }
}

#[test]
fn cast_test_wrong_stark_proof() {
    let (curve, rescue) = (test_curve(), test_rescue());
    let election = election(2, &curve, &rescue);
    let mut collector = collector_of(&election, &curve, &rescue);
    let proof: Vec<u8> = (0..200).collect();
    let (mut cast_proof, _) = cast_proof_of(&mut collector, &proof);
    let pub_inputs_nbytes = collector.num_valid_votes * 960;
    let proof_nbytes = cast_proof.len() - 4 - pub_inputs_nbytes;
    let fault_position = 4 + pub_inputs_nbytes + ((OsRng.next_u32() as usize) % proof_nbytes);
    cast_proof[fault_position] ^= 1;
    let parts = split_cast_proof(&key_bytes(&collector.voting_keys), &cast_proof).unwrap();
    assert_eq!(parts.cds_proof.len(), 200);
    assert!(parts.cds_proof != proof);
    assert!(!verify_cast_proof(parts.cds_proof == proof));
}

#[test]
fn cast_test_refusals() {
    let (curve, rescue) = (test_curve(), test_rescue());
    let election = election(2, &curve, &rescue);
    let keys: Vec<[Felt; 12]> = election.registrations.iter().map(|r| r.voting_key).collect();
    let mut collector = VoteCollector::new(keys.clone(), curve, rescue);
    assert_eq!(collector.cast_prover(build_options(1)).err(), Some(CollectorError::NotEnoughEncryptedVotes));
    // not a voter
    let mut stranger = election.votes[0];
    stranger.voter_index = 2;
    assert_eq!(collector.add_encrypted_vote(stranger), Err(CollectorError::InvalidEncryptedVote));
    // the vote of the first voter under the index of the second
    let mut swapped = election.votes[0];
    swapped.voter_index = 1;
    assert_eq!(collector.add_encrypted_vote(swapped), Err(CollectorError::InvalidEncryptedVote));
    // a proof that does not go with the vote
    let mut forged = election.votes[0];
    forged.proof_scalars[2][0] ^= 1;
    assert_eq!(collector.add_encrypted_vote(forged), Err(CollectorError::InvalidEncryptedVote));
    assert_eq!(collector.num_valid_votes, 0);
    assert_eq!(collector.add_encrypted_vote(election.votes[0]), Ok(()));
    assert_eq!(collector.num_valid_votes, 1);
    assert_eq!(collector.encrypted_votes[0], Some(election.votes[0].encrypted_vote));
    assert_eq!(collector.encrypted_votes[1], None);
    // a second vote of a voter
    assert_eq!(collector.add_encrypted_vote(election.votes[0]), Err(CollectorError::InvalidEncryptedVote));
    assert_eq!(collector.cast_prover(build_options(1)).err(), Some(CollectorError::NotEnoughEncryptedVotes));
    assert_eq!(collector.add_encrypted_vote(election.votes[1]), Ok(()));
    assert!(collector.cast_prover(build_options(1)).is_ok());
    assert_eq!(VoteCollector::compute_blinding_keys(&keys, &curve), collector.blinding_keys);
    // a different number of keys and of proofs
    let mut one_key = vec![];
    write_count(&mut one_key, 1);
    let mut cast_proof = vec![];
    write_count(&mut cast_proof, 2);
    assert_eq!(split_cast_proof(&one_key, &cast_proof).err(), Some(DeserializationError::InvalidValue));
    assert_eq!(split_cast_proof(&one_key, &[]).err(), Some(DeserializationError::UnexpectedEOF));
}

fn vote_bytes(votes: &Vec<[Felt; 12]>) -> Vec<u8> {
    VoteTallier::new(votes.clone()).to_bytes()
}

#[test]
fn tally_test_all_valid() {
    let curve = test_curve();
    let expected_result = 2;
    let mut tallier = VoteTallier::new(tally_case(2, expected_result as u64, &curve));
    let tally_result = tallier.tally_votes(&curve).unwrap();
    assert!(tally_result == expected_result, "Vote tallying result should be correct.");
    assert_eq!(tallier.tally_result, Some(2));
    // the tally is not looked for again
    tallier.encrypted_votes[0][0] = Felt::zero();
    assert_eq!(tallier.tally_votes(&curve), Ok(2));
    let mut tallier = VoteTallier::new(tally_case(2, expected_result as u64, &curve));
    let encrypted_votes = vote_bytes(&tallier.encrypted_votes);
    let verified = verify_tally_result(&encrypted_votes, tallier.tally_votes(&curve).unwrap(), &curve);
    assert!(verified.is_ok(), "Serialized proof should be deserialized with no error.");
    assert!(verified.unwrap(), "STARK proof should be valid.")
}

#[test]
fn tally_test_wrong_result() {
    let curve = test_curve();
    let expected_result = (OsRng.next_u32() % 3) as u32;
    let mut tallier = VoteTallier::new(tally_case(2, expected_result as u64, &curve));
    assert_eq!(tallier.tally_votes(&curve), Ok(expected_result));
    let mut tally_result = OsRng.next_u32() % 3;
    while tally_result == expected_result {
        tally_result = OsRng.next_u32() % 3;
    }
    assert!(tally_result != expected_result, "Vote tallying result should be incorrect.");
    let encrypted_votes = vote_bytes(&tallier.encrypted_votes);
    let verified = verify_tally_result(&encrypted_votes, tally_result, &curve);
    assert!(verified.is_ok(), "Serialized proof should be deserialized with no error.");
    assert!(!verified.unwrap(), "STARK proof should be invalid.");
    // votes that no tally goes with
    let mut votes = tallier.encrypted_votes.clone();
    votes[1] = affine_array(curve.generator.scalar_mul(1000, &curve), &curve);
    votes[0] = affine_array(curve.generator.scalar_mul(1001, &curve), &curve);
    assert_eq!(VoteTallier::new(votes).tally_votes(&curve), Err(TallierError::InvalidTallyResult));
    // votes that end early, and a vote that is no element
    assert_eq!(
        verify_tally_result(&encrypted_votes[..encrypted_votes.len() - 1], tally_result, &curve),
        Err(DeserializationError::UnexpectedEOF)
    );
    assert_eq!(verify_tally_result(&[1, 0], 0, &curve), Err(DeserializationError::UnexpectedEOF));
    let mut invalid = encrypted_votes.clone();
    invalid[4..12].copy_from_slice(&MODULUS.to_le_bytes());
    assert_eq!(verify_tally_result(&invalid, tally_result, &curve), Err(DeserializationError::InvalidValue));
}

#[test]
fn aggregator_test_all_valid() {
    let (curve, rescue) = (test_curve(), test_rescue());
    let election = election(2, &curve, &rescue);
    // Voter registration
    let mut registar = registar_of(&election, &curve, &rescue);
    let register_proof = registar.store_register_proof(&[1], &[2]);
    let parts = split_register_proof(&root_bytes(&registar.elg_root), &register_proof).unwrap();
    assert!(
        registrations_verify(&registar, &parts.merkle_pub_inputs, &parts.schnorr_pub_inputs),
        "Register proofs should be valid."
    );
    // Vote casting
    let mut collector = collector_of(&election, &curve, &rescue);
    let (cast_proof, trace) = cast_proof_of(&mut collector, &[3]);
    let parts = split_cast_proof(&key_bytes(&collector.voting_keys), &cast_proof).unwrap();
    assert!(parts.cds_pub_inputs.outputs.iter().all(|output| output.iter().all(|&e| e == Felt::zero())));
    assert!(cds_verifies(parts.cds_pub_inputs.clone(), &trace, 1, &curve, &rescue), "Cast proof should be valid.");
    // Vote tallying
    let votes: Vec<[Felt; 12]> = parts.cds_pub_inputs.proofs.iter().map(|p| p[12..24].try_into().unwrap()).collect();
    let mut tallier = VoteTallier::new(votes);
    let tally_result = tallier.tally_votes(&curve).unwrap();
    assert_eq!(tally_result, election.tally);
    let verified = verify_tally_result(&vote_bytes(&tallier.encrypted_votes), tally_result, &curve);
    assert_eq!(verified, Ok(true), "Tally result should be valid.");
    // the same through the precompiled contract
    let mut input = tally_result.to_be_bytes().to_vec();
    input.extend(vote_bytes(&tallier.encrypted_votes));
    assert_eq!(verify_tally_result_run(&input, 0, &curve).unwrap().1[31], 1);
    input[3] = 2;
    assert_eq!(verify_tally_result_run(&input, 0, &curve).unwrap().1, vec![0u8; 32]);
    input[3] = 3;
    assert_eq!(verify_tally_result_run(&input, 0, &curve).unwrap().1, vec![0u8; 32]);
}

// WIRE
// ================================================================================================

#[test]
fn public_inputs_round_trip() {
    let (curve, rescue) = (test_curve(), test_rescue());
    let election = election(2, &curve, &rescue);
    let registar = registar_of(&election, &curve, &rescue);
    // the inputs of the proof of membership
    let merkle = MerklePublicInputs { tree_root: registar.elg_root, voting_keys: registar.voting_keys.clone() };
    let bytes = merkle.to_bytes();
    assert_eq!(bytes.len(), 56 + 4 + 2 * 96);
    assert_eq!(bytes[56..60], [2, 0, 0, 0]);
    assert_eq!(bytes[..8], registar.elg_root[0].value.to_le_bytes());
    let read = MerklePublicInputs::from_bytes(&bytes).unwrap();
    assert_eq!(read.tree_root, merkle.tree_root);
    assert_eq!(read.voting_keys, merkle.voting_keys);
    // what follows the inputs is not looked at, what is missing is
    let mut longer = bytes.clone();
    longer.push(7);
    assert_eq!(MerklePublicInputs::from_bytes(&longer).unwrap().voting_keys, merkle.voting_keys);
    for end in [0, 7, 55, 56, 59, 60, bytes.len() - 1] {
        assert_eq!(MerklePublicInputs::from_bytes(&bytes[..end]).err(), Some(DeserializationError::UnexpectedEOF));
    }
    let mut invalid = bytes.clone();
    invalid[8..16].copy_from_slice(&MODULUS.to_le_bytes());
    assert_eq!(MerklePublicInputs::from_bytes(&invalid).err(), Some(DeserializationError::InvalidValue));
    invalid[8..16].copy_from_slice(&(MODULUS - 1).to_le_bytes());
    assert_eq!(MerklePublicInputs::from_bytes(&invalid).unwrap().tree_root[1].value, MODULUS - 1);
    // the inputs of the proof of the signatures
    let schnorr = registar.get_pub_inputs();
    let bytes = schnorr.to_bytes();
    assert_eq!(bytes.len(), 4 + 2 * (96 + 20 + 80));
    assert_eq!(bytes[4 + 192..4 + 212], schnorr.addresses[0]);
    assert_eq!(bytes[4 + 232 + 48..4 + 232 + 80], schnorr.signatures[0].1);
    let read = SchnorrPublicInputs::from_bytes(&bytes).unwrap();
    assert_eq!(read.voting_keys, schnorr.voting_keys);
    assert_eq!(read.addresses, schnorr.addresses);
    assert_eq!(read.signatures, schnorr.signatures);
    assert_eq!(SchnorrPublicInputs::from_bytes(&bytes[..bytes.len() - 1]).err(), Some(DeserializationError::UnexpectedEOF));
    // the inputs of the proof of the votes, as the prover reads them from a trace
    let mut collector = collector_of(&election, &curve, &rescue);
    let prover = collector.cast_prover(build_options(1)).unwrap();
    let trace = prover.build_trace();
    let cds = prover.get_pub_inputs(&trace);
    for extension in 1..=3 {
        let bytes = cds.to_bytes();
        assert_eq!(bytes.len(), 4 + 2 * (96 + 960));
        let read = CdsPublicInputs::from_bytes(&bytes).unwrap();
        assert_eq!(read.proofs, cds.proofs);
        assert_eq!(read.outputs, cds.outputs);
        assert!(cds_verifies(read, &trace, extension, &curve, &rescue));
    }
    let compact = CompactPublicInputs {
        encrypted_votes: prover.encrypted_votes.clone(),
        cds_proofs: prover.proof_points.clone(),
        outputs: cds.outputs.clone(),
    };
    let mut bytes = vec![];
    compact.write_into(&mut bytes);
    assert_eq!(bytes, collector.store_cast_proof(&cds, &[]));
    let read = CompactPublicInputs::from_bytes(&bytes).unwrap();
    assert_eq!(read.encrypted_votes, compact.encrypted_votes);
    assert_eq!(read.cds_proofs, compact.cds_proofs);
    assert_eq!(read.outputs, compact.outputs);
    // the votes of the tallying phase
    let tallier = VoteTallier::new(prover.encrypted_votes.clone());
    let read = VoteTallier::from_bytes(&tallier.to_bytes()).unwrap();
    assert_eq!(read.encrypted_votes, tallier.encrypted_votes);
    assert_eq!(read.tally_result, None);
    assert_eq!(VoteTallier::from_bytes(&[2, 0, 0]).err(), Some(DeserializationError::UnexpectedEOF));
}

#[test]
fn precompile_test_methods() {
    let curve = test_curve();
    assert_eq!(stark_verifier_run(&[248, 243, 181, 56, 0]), Ok(Method::CheckGenerator));
    assert_eq!(stark_verifier_run(&[243, 90, 41, 19]), Ok(Method::VerifyRegister));
    assert_eq!(stark_verifier_run(&[199, 65, 76, 236, 1, 2]), Ok(Method::VerifyCast));
    assert_eq!(stark_verifier_run(&[151, 84, 187, 55]), Ok(Method::VerifyTally));
    assert_eq!(stark_verifier_run(&[151, 84, 187, 56]), Err(PrecompileError::InvalidMethod));
    assert_eq!(stark_verifier_run(&[151, 84, 187]), Err(PrecompileError::InvalidMethod));
    // the generator
    let mut generator = vec![];
    write_elements(&mut generator, &curve.generator.to_vec());
    let answer = check_generator_run(&generator, 0, &curve).unwrap();
    assert_eq!(answer.0, 0);
    assert_eq!(answer.1.len(), 32);
    assert_eq!(answer.1[31], 1);
    let mut other = generator.clone();
    other[0] ^= 1;
    assert_eq!(check_generator_run(&other, 0, &curve).unwrap().1, vec![0u8; 32]);
    assert_eq!(check_generator_run(&generator[..95], 0, &curve), Err(PrecompileError::DeserializationError));
    generator.push(0);
    assert_eq!(check_generator_run(&generator, 0, &curve), Err(PrecompileError::UnconsumedBytes));
    // the registrations: the root, and the proof with its count of 258 registrations
    let mut input = vec![0u8; 56];
    input.extend([2, 1, 0, 0, 9]);
    let (root, proof) = register_arguments(&input).unwrap();
    assert_eq!(root.len(), 56);
    assert_eq!(proof, [2, 1, 0, 0, 9]);
    let answer = verify_register_proof_run(&input, 0, Ok(true)).unwrap().1;
    assert_eq!(answer.len(), 64);
    assert_eq!(answer[31], 1);
    assert_eq!(answer[60..64], [0, 0, 1, 2]);
    assert!(answer[..31].iter().chain(answer[32..60].iter()).all(|&b| b == 0));
    assert_eq!(verify_register_proof_run(&input, 0, Ok(false)).unwrap().1[31], 0);
    assert_eq!(
        verify_register_proof_run(&input, 0, Err(DeserializationError::InvalidValue)),
        Err(PrecompileError::DeserializationError)
    );
    assert_eq!(register_arguments(&input[..55]).err(), Some(PrecompileError::DeserializationError));
    // the votes: the keys of the verifier, and the proof
    let mut input = vec![1, 0, 0, 0];
    input.extend(vec![5u8; 96]);
    input.extend([1, 0, 0, 0, 7]);
    let (keys, proof) = cast_arguments(&input).unwrap();
    assert_eq!(keys.len(), 100);
    assert_eq!(proof, [1, 0, 0, 0, 7]);
    assert_eq!(cast_arguments(&input[..99]).err(), Some(PrecompileError::DeserializationError));
    assert_eq!(verify_cast_proof_run(proof, 0, Ok(true)), Err(PrecompileError::DeserializationError));
    // a tally above the number of votes
    assert_eq!(verify_tally_result_run(&[0, 0, 0, 3, 2, 0, 0, 0], 0, &curve).unwrap().1, vec![0u8; 32]);
    assert_eq!(verify_tally_result_run(&[0, 0, 0, 3, 2, 0, 0], 0, &curve), Err(PrecompileError::DeserializationError));
    assert_eq!(verify_tally_result_run(&[0, 0, 0, 1, 2, 0, 0, 0], 0, &curve), Err(PrecompileError::DeserializationError));
}

// THE AGGREGATORS ON THEIR WAY TO A FILE
// ================================================================================================

#[test]
fn registar_round_trip() {
    let (curve, rescue) = (test_curve(), test_rescue());
    let election = election(2, &curve, &rescue);
    let registar = registar_of(&election, &curve, &rescue);
    let bytes = registar.to_bytes();
    // the header, and for each registration the key, the path of six levels, the
    // position, the signature and the address
    assert_eq!(bytes.len(), 64 + 2 * (96 + 6 * 56 + 8 + 48 + 32 + 20));
    assert_eq!(bytes[..4], [2, 0, 0, 0]);
    assert_eq!(bytes[4..12], registar.elg_root[0].value.to_le_bytes());
    assert_eq!(bytes[60..64], [2, 0, 0, 0]);
    assert_eq!(bytes[64..72], registar.voting_keys[0][0].value.to_le_bytes());
    let index_at = 64 + 96 + 6 * 56;
    assert_eq!(bytes[index_at..index_at + 8], (registar.hash_indices[0] as u64).to_le_bytes());
    assert_eq!(bytes[bytes.len() - 20..], registar.addresses[1]);
    let read = VoterRegistar::from_bytes(&bytes, election.depth, curve, rescue).unwrap();
    assert_eq!(read.num_elg_voters, registar.num_elg_voters);
    assert_eq!(read.elg_root, registar.elg_root);
    assert_eq!(read.voting_keys, registar.voting_keys);
    assert_eq!(read.merkle_branches, registar.merkle_branches);
    assert_eq!(read.hash_indices, registar.hash_indices);
    assert_eq!(read.signatures, registar.signatures);
    assert_eq!(read.addresses, registar.addresses);
    assert!(read.dirty_flag);
    assert!(read.serialized_proof.is_empty());
    assert_eq!(read.to_bytes(), bytes);
    // what was read takes registrations as what was written does
    let mut read = read;
    assert_eq!(read.add_registration(election.registrations[0].clone()), Ok(()));
    assert_eq!(read.voting_keys.len(), 2);
    // bytes that end early, and a word that is no element
    for end in [0, 3, 4, 59, 63, 64, 200, bytes.len() - 1] {
        assert_eq!(
            VoterRegistar::from_bytes(&bytes[..end], election.depth, curve, rescue).err(),
            Some(DeserializationError::UnexpectedEOF)
        );
    }
    let mut invalid = bytes.clone();
    invalid[64 + 96..64 + 104].copy_from_slice(&MODULUS.to_le_bytes());
    assert_eq!(
        VoterRegistar::from_bytes(&invalid, election.depth, curve, rescue).err(),
        Some(DeserializationError::InvalidValue)
    );
    // with another depth the records stand elsewhere
    assert!(VoterRegistar::from_bytes(&bytes, election.depth + 1, curve, rescue).is_err());
    // no registrations
    let empty = VoterRegistar::new(election.root, 4, election.depth, curve, rescue);
    let bytes = empty.to_bytes();
    assert_eq!(bytes.len(), 64);
    let read = VoterRegistar::from_bytes(&bytes, election.depth, curve, rescue).unwrap();
    assert_eq!(read.num_elg_voters, 4);
    assert!(read.voting_keys.is_empty());
    assert!(!read.dirty_flag);
}

#[test]
fn collector_round_trip() {
    let (curve, rescue) = (test_curve(), test_rescue());
    let election = election(2, &curve, &rescue);
    let keys: Vec<[Felt; 12]> = election.registrations.iter().map(|r| r.voting_key).collect();
    let mut collector = VoteCollector::new(keys.clone(), curve, rescue);
    assert_eq!(collector.add_encrypted_vote(election.votes[1]), Ok(()));
    let bytes = collector.to_bytes();
    assert_eq!(bytes.len(), 4 + 2 * 704);
    assert_eq!(bytes[..4], [2, 0, 0, 0]);
    assert_eq!(bytes[4..12], keys[0][0].value.to_le_bytes());
    // the first voter has not voted
    assert!(bytes[4 + 96..4 + 704].iter().all(|&b| b == 0));
    assert_eq!(bytes[4 + 704 + 96..4 + 704 + 104], election.votes[1].encrypted_vote[0].value.to_le_bytes());
    assert_eq!(bytes[bytes.len() - 32..], election.votes[1].proof_scalars[3]);
    let read = VoteCollector::from_bytes(&bytes, curve, rescue).unwrap();
    assert_eq!(read.voting_keys, collector.voting_keys);
    assert_eq!(read.blinding_keys, collector.blinding_keys);
    assert_eq!(read.encrypted_votes, collector.encrypted_votes);
    assert_eq!(read.proof_points, collector.proof_points);
    assert_eq!(read.proof_scalars, collector.proof_scalars);
    assert_eq!(read.num_valid_votes, 1);
    assert!(read.serialized_proof.is_empty());
    assert_eq!(read.to_bytes(), bytes);
    // what was read takes the vote that is missing
    let mut read = read;
    assert_eq!(read.add_encrypted_vote(election.votes[1]), Err(CollectorError::InvalidEncryptedVote));
    assert_eq!(read.add_encrypted_vote(election.votes[0]), Ok(()));
    assert_eq!(read.num_valid_votes, 2);
    let full = read.to_bytes();
    let read = VoteCollector::from_bytes(&full, curve, rescue).unwrap();
    assert_eq!(read.num_valid_votes, 2);
    assert_eq!(read.encrypted_votes[0], Some(election.votes[0].encrypted_vote));
    // bytes that end early, a word that is no element, and numbers of voters that
    // no casting phase has
    for end in [0, 3, 4, 99, 4 + 703, 4 + 704 + 191, bytes.len() - 1] {
        assert_eq!(
            VoteCollector::from_bytes(&bytes[..end], curve, rescue).err(),
            Some(DeserializationError::UnexpectedEOF)
        );
    }
    let mut invalid = bytes.clone();
    invalid[4..12].copy_from_slice(&u64::MAX.to_le_bytes());
    assert_eq!(VoteCollector::from_bytes(&invalid, curve, rescue).err(), Some(DeserializationError::InvalidValue));
    for count in [0u8, 1, 3, 6] {
        let mut invalid = bytes.clone();
        invalid[0] = count;
        assert_eq!(
            VoteCollector::from_bytes(&invalid, curve, rescue).err(),
            Some(DeserializationError::InvalidValue)
        );
    }
}

#[test]
fn tally_public_inputs_as_bytes() {
    let curve = test_curve();
    let votes = tally_case(2, 1, &curve);
    let bytes = TallyPublicInputs { encrypted_votes: votes.clone(), tally_result: 0x0102 }.to_bytes();
    assert_eq!(bytes.len(), 2 * 96 + 32);
    assert_eq!(bytes[..8], votes[0][0].value.to_le_bytes());
    assert_eq!(bytes[96..104], votes[1][0].value.to_le_bytes());
    assert_eq!(bytes[192..195], [2, 1, 0]);
    assert!(bytes[195..].iter().all(|&b| b == 0));
}
