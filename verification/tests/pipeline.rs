use ark_bls12_381::{Bls12_381, Fr};
use ark_ff::BigInt;
use ark_groth16::Groth16;
use ark_relations::r1cs::{
    ConstraintSynthesizer, ConstraintSystemRef, LinearCombination as BackendCombination,
    SynthesisError, Variable as BackendVariable,
};
use ark_serialize::CanonicalSerialize;
use zk_age_verification::circuit::AgeVerificationCircuit;
use zk_age_verification::constraint_system::{ConstraintSystem, SynthesisMode};
use zk_age_verification::error::AgeProofError;
use zk_age_verification::field::FieldElement;
use zk_age_verification::groth16::{
    compute_domain_size, key_fits, proving_outcome, verification_outcome, verify_proof,
    Groth16AgeVerifier, KeyShape, VerifyFault, PROOF_BYTES,
};
use zk_age_verification::linear_combination::{LinearCombination, Variable};

struct Replay(AgeVerificationCircuit);

fn backend_element(element: FieldElement) -> Fr {
    Fr::from(BigInt::new(element.to_limbs()))
}

fn backend_combination(combination: &LinearCombination) -> BackendCombination<Fr> {
    let mut terms = Vec::new();
    for i in 0..combination.len() {
        let term = combination.term(i);
        let variable = match term.variable {
            Variable::One => BackendVariable::One,
            Variable::Public(index) => BackendVariable::Instance(index),
            Variable::Witness(index) => BackendVariable::Witness(index),
        };
        terms.push((backend_element(term.coefficient), variable));
    }
    BackendCombination(terms)
}

impl ConstraintSynthesizer<Fr> for Replay {
    fn generate_constraints(self, cs: ConstraintSystemRef<Fr>) -> Result<(), SynthesisError> {
        let mode = if cs.is_in_setup_mode() { SynthesisMode::Setup } else { SynthesisMode::Prove };
        let mut system = ConstraintSystem::new(mode);
        self.0
            .generate_constraints(&mut system)
            .map_err(|_| SynthesisError::AssignmentMissing)?;
        for i in 1..=system.num_public_inputs() {
            let value = system.public_value(i);
            cs.new_input_variable(|| Ok(backend_element(value)))?;
        }
        for i in 0..system.num_witness_variables() {
            let value = system.witness_value(i);
            cs.new_witness_variable(|| Ok(backend_element(value)))?;
        }
        for i in 0..system.num_constraints() {
            let constraint = system.constraint(i);
            cs.enforce_constraint(
                backend_combination(&constraint.a),
                backend_combination(&constraint.b),
                backend_combination(&constraint.c),
            )?;
        }
        Ok(())
    }
}

fn generate_keys(legal_age: u64) -> (Vec<u8>, Vec<u8>) {
    let circuit = Groth16AgeVerifier::setup_circuit(FieldElement::from_u64(legal_age));
    let mut rng = ark_std::test_rng();
    let key =
        Groth16::<Bls12_381>::generate_random_parameters_with_reduction(Replay(circuit), &mut rng)
            .unwrap();
    let mut proving_key = Vec::new();
    key.serialize_compressed(&mut proving_key).unwrap();
    let mut verifying_key = Vec::new();
    key.vk.serialize_compressed(&mut verifying_key).unwrap();
    (proving_key, verifying_key)
}

fn loaded() -> Groth16AgeVerifier {
    let (proving_key, verifying_key) = generate_keys(6570);
    Groth16AgeVerifier::new(proving_key, verifying_key).unwrap()
}

#[test]
fn proof_of_a_satisfying_witness_verifies() {
    let verifier = loaded();
    let legal_age = FieldElement::from_u64(6570);
    let proof = verifier
        .generate_proof(FieldElement::from_u64(1000), FieldElement::from_u64(7570), legal_age)
        .unwrap();
    assert_eq!(proof.len(), PROOF_BYTES);
    assert_eq!(verifier.verify(legal_age, &proof), Ok(true));
    assert_eq!(verifier.verify(legal_age, &proof), Ok(true));
    assert_eq!(verify_proof(verifier.verifying_key(), legal_age, &proof), Ok(true));
}

#[test]
fn keys_serve_every_legal_age() {
    let verifier = loaded();
    let legal_age = FieldElement::from_u64(21 * 365);
    let proof = verifier
        .generate_proof(FieldElement::from_u64(2000), FieldElement::from_u64(2000 + 7666), legal_age)
        .unwrap();
    assert_eq!(verifier.verify(legal_age, &proof), Ok(true));
}

#[test]
fn proof_does_not_verify_for_another_legal_age() {
    let verifier = loaded();
    let proof = verifier
        .generate_proof(
            FieldElement::from_u64(1000),
            FieldElement::from_u64(7570),
            FieldElement::from_u64(6570),
        )
        .unwrap();
    assert_eq!(verifier.verify(FieldElement::from_u64(6571), &proof), Ok(false));
}

#[test]
fn proofs_with_given_randomness_are_reproducible() {
    let verifier = loaded();
    let circuit = AgeVerificationCircuit {
        birthdate: Some(FieldElement::from_u64(1000)),
        current_date: Some(FieldElement::from_u64(7570)),
        legal_age: FieldElement::from_u64(6570),
    };
    let r = FieldElement::from_u64(11);
    let s = FieldElement::from_u64(13);
    let first = verifier.prove_with_randomness(circuit, r, s).unwrap();
    let second = verifier.prove_with_randomness(circuit, r, s).unwrap();
    let other = verifier.prove_with_randomness(circuit, s, r).unwrap();
    assert_eq!(first, second);
    assert_ne!(first, other);
    assert_eq!(verifier.verify(circuit.legal_age, &first), Ok(true));
    assert_eq!(verifier.verify(circuit.legal_age, &other), Ok(true));
}

#[test]
fn fresh_randomness_gives_fresh_proofs() {
    let verifier = loaded();
    let circuit = AgeVerificationCircuit {
        birthdate: Some(FieldElement::from_u64(1000)),
        current_date: Some(FieldElement::from_u64(7570)),
        legal_age: FieldElement::from_u64(6570),
    };
    let first = verifier.prove(circuit).unwrap();
    let second = verifier.prove(circuit).unwrap();
    assert_ne!(first, second);
    assert_eq!(verifier.verify(circuit.legal_age, &first), Ok(true));
    assert_eq!(verifier.verify(circuit.legal_age, &second), Ok(true));
}

#[test]
fn no_proof_for_an_age_below_the_legal_age() {
    let verifier = loaded();
    let outcome = verifier.generate_proof(
        FieldElement::from_u64(1001),
        FieldElement::from_u64(7570),
        FieldElement::from_u64(6570),
    );
    assert_eq!(outcome, Err(AgeProofError::UnsatisfiedConstraints));
}

#[test]
fn no_proof_without_a_private_input() {
    let verifier = loaded();
    let circuit = AgeVerificationCircuit {
        birthdate: Some(FieldElement::from_u64(1000)),
        current_date: None,
        legal_age: FieldElement::from_u64(6570),
    };
    assert_eq!(verifier.prove(circuit), Err(AgeProofError::MissingAssignment));
}

#[test]
fn flipping_a_byte_of_a_proof_invalidates_it() {
    let verifier = loaded();
    let legal_age = FieldElement::from_u64(6570);
    let proof = verifier
        .generate_proof(FieldElement::from_u64(1000), FieldElement::from_u64(7570), legal_age)
        .unwrap();
    for position in [0usize, 1, 47, 48, 100, 143, 144, 191] {
        let mut tampered = proof.clone();
        tampered[position] ^= 0x01;
        let outcome = verifier.verify(legal_age, &tampered);
        assert!(
            outcome == Ok(false) || outcome == Err(AgeProofError::MalformedProof),
            "byte {} gave {:?}",
            position,
            outcome
        );
    }
}

#[test]
fn proof_of_wrong_length_is_malformed() {
    let verifier = loaded();
    let legal_age = FieldElement::from_u64(6570);
    let proof = verifier
        .generate_proof(FieldElement::from_u64(1000), FieldElement::from_u64(7570), legal_age)
        .unwrap();
    let mut longer = proof.clone();
    longer.push(0);
    assert_eq!(verifier.verify(legal_age, &longer), Err(AgeProofError::MalformedProof));
    let shorter = proof[..PROOF_BYTES - 1].to_vec();
    assert_eq!(verifier.verify(legal_age, &shorter), Err(AgeProofError::MalformedProof));
    assert_eq!(verifier.verify(legal_age, &Vec::new()), Err(AgeProofError::MalformedProof));
}

#[test]
fn proof_of_right_length_that_is_no_point_is_malformed() {
    let verifier = loaded();
    let uncompressed_flag = vec![0u8; PROOF_BYTES];
    assert_eq!(
        verifier.verify(FieldElement::from_u64(6570), &uncompressed_flag),
        Err(AgeProofError::MalformedProof)
    );
    let mut off_the_field = vec![0xffu8; PROOF_BYTES];
    off_the_field[0] = 0x9f;
    assert_eq!(
        verifier.verify(FieldElement::from_u64(6570), &off_the_field),
        Err(AgeProofError::MalformedProof)
    );
}

#[test]
fn verifying_key_that_does_not_decode_is_a_topology_mismatch() {
    let verifier = loaded();
    let legal_age = FieldElement::from_u64(6570);
    let proof = verifier
        .generate_proof(FieldElement::from_u64(1000), FieldElement::from_u64(7570), legal_age)
        .unwrap();
    let truncated = verifier.verifying_key()[..40].to_vec();
    assert_eq!(
        verify_proof(&truncated, legal_age, &proof),
        Err(AgeProofError::KeyTopologyMismatch)
    );
}

#[test]
fn proving_key_that_does_not_decode_is_rejected() {
    let (_, verifying_key) = generate_keys(6570);
    let outcome = Groth16AgeVerifier::new(vec![1, 2, 3], verifying_key);
    assert!(matches!(outcome, Err(AgeProofError::KeyTopologyMismatch)));
    let outcome = Groth16AgeVerifier::new(Vec::new(), Vec::new());
    assert!(matches!(outcome, Err(AgeProofError::KeyTopologyMismatch)));
}

struct OtherCircuit;

impl ConstraintSynthesizer<Fr> for OtherCircuit {
    fn generate_constraints(self, cs: ConstraintSystemRef<Fr>) -> Result<(), SynthesisError> {
        let x = cs.new_witness_variable(|| Ok(Fr::from(3u64)))?;
        let y = cs.new_input_variable(|| Ok(Fr::from(9u64)))?;
        cs.enforce_constraint(
            BackendCombination::from(x),
            BackendCombination::from(x),
            BackendCombination::from(y),
        )
    }
}

#[test]
fn proving_key_of_another_circuit_is_rejected() {
    let mut rng = ark_std::test_rng();
    let key = Groth16::<Bls12_381>::generate_random_parameters_with_reduction(OtherCircuit, &mut rng)
        .unwrap();
    let mut proving_key = Vec::new();
    key.serialize_compressed(&mut proving_key).unwrap();
    let mut verifying_key = Vec::new();
    key.vk.serialize_compressed(&mut verifying_key).unwrap();
    let outcome = Groth16AgeVerifier::new(proving_key, verifying_key);
    assert!(matches!(outcome, Err(AgeProofError::KeyTopologyMismatch)));
}

struct TwoInputCircuit;

impl ConstraintSynthesizer<Fr> for TwoInputCircuit {
    fn generate_constraints(self, cs: ConstraintSystemRef<Fr>) -> Result<(), SynthesisError> {
        let x = cs.new_input_variable(|| Ok(Fr::from(3u64)))?;
        let y = cs.new_input_variable(|| Ok(Fr::from(9u64)))?;
        cs.enforce_constraint(
            BackendCombination::from(x),
            BackendCombination::from(x),
            BackendCombination::from(y),
        )
    }
}

#[test]
fn verifying_key_of_another_shape_is_rejected() {
    let (proving_key, verifying_key) = generate_keys(6570);
    let mut rng = ark_std::test_rng();
    let other =
        Groth16::<Bls12_381>::generate_random_parameters_with_reduction(TwoInputCircuit, &mut rng)
            .unwrap();
    let mut other_verifying_key = Vec::new();
    other.vk.serialize_compressed(&mut other_verifying_key).unwrap();
    assert!(matches!(
        Groth16AgeVerifier::new(proving_key.clone(), other_verifying_key.clone()),
        Err(AgeProofError::KeyTopologyMismatch)
    ));
    assert!(matches!(
        Groth16AgeVerifier::new(proving_key.clone(), vec![0u8; verifying_key.len()]),
        Err(AgeProofError::KeyTopologyMismatch)
    ));
    assert!(matches!(
        Groth16AgeVerifier::new(proving_key.clone(), verifying_key[..100].to_vec()),
        Err(AgeProofError::KeyTopologyMismatch)
    ));
    assert!(Groth16AgeVerifier::new(proving_key, verifying_key).is_ok());
}

#[test]
fn proof_against_a_key_for_more_public_inputs_is_a_topology_mismatch() {
    let verifier = loaded();
    let legal_age = FieldElement::from_u64(6570);
    let proof = verifier
        .generate_proof(FieldElement::from_u64(1000), FieldElement::from_u64(7570), legal_age)
        .unwrap();
    let mut rng = ark_std::test_rng();
    let other =
        Groth16::<Bls12_381>::generate_random_parameters_with_reduction(TwoInputCircuit, &mut rng)
            .unwrap();
    let mut other_verifying_key = Vec::new();
    other.vk.serialize_compressed(&mut other_verifying_key).unwrap();
    assert_eq!(
        verify_proof(&other_verifying_key, legal_age, &proof),
        Err(AgeProofError::KeyTopologyMismatch)
    );
}

#[test]
fn proof_against_a_key_of_another_setup_does_not_verify() {
    let verifier = loaded();
    let legal_age = FieldElement::from_u64(6570);
    let proof = verifier
        .generate_proof(FieldElement::from_u64(1000), FieldElement::from_u64(7570), legal_age)
        .unwrap();
    let mut rng = ark_std::test_rng();
    let other = Groth16::<Bls12_381>::generate_random_parameters_with_reduction(OtherCircuit, &mut rng)
        .unwrap();
    let mut other_verifying_key = Vec::new();
    other.vk.serialize_compressed(&mut other_verifying_key).unwrap();
    assert_eq!(verify_proof(&other_verifying_key, legal_age, &proof), Ok(false));
}

#[test]
fn verifier_keeps_the_keys_it_was_given() {
    let (proving_key, verifying_key) = generate_keys(6570);
    let verifier = Groth16AgeVerifier::new(proving_key.clone(), verifying_key.clone()).unwrap();
    assert_eq!(verifier.proving_key(), &proving_key);
    assert_eq!(verifier.verifying_key(), &verifying_key);
}

#[test]
fn setup_circuit_holds_placeholder_dates() {
    let circuit = Groth16AgeVerifier::setup_circuit(FieldElement::from_u64(6570));
    assert_eq!(circuit.birthdate, Some(FieldElement::from_u64(0)));
    assert_eq!(circuit.current_date, Some(FieldElement::from_u64(0)));
    assert_eq!(circuit.legal_age, FieldElement::from_u64(6570));
}

#[test]
fn domain_size_is_the_next_power_of_two() {
    assert_eq!(compute_domain_size(2, 3), Some(8));
    assert_eq!(compute_domain_size(1, 0), Some(1));
    assert_eq!(compute_domain_size(0, 0), Some(1));
    assert_eq!(compute_domain_size(1, 1), Some(2));
    assert_eq!(compute_domain_size(4, 4), Some(8));
    assert_eq!(compute_domain_size(4, 5), Some(16));
    assert_eq!(compute_domain_size(0x8000_0000, 0x8000_0000), Some(0x1_0000_0000));
    assert_eq!(compute_domain_size(0x8000_0000, 0x8000_0001), None);
}

#[test]
fn key_shape_of_the_age_circuit_fits_it() {
    let shape = KeyShape {
        public_slots: 2,
        witness_slots: 4,
        a_query: 6,
        b_g1_query: 6,
        b_g2_query: 6,
        h_query: 7,
    };
    assert!(key_fits(shape, 2, 4, 3));
    assert!(!key_fits(shape, 2, 4, 7));
    assert!(!key_fits(shape, 3, 3, 3));
    assert!(!key_fits(KeyShape { h_query: 8, ..shape }, 2, 4, 3));
    assert!(!key_fits(KeyShape { a_query: 5, ..shape }, 2, 4, 3));
    assert!(!key_fits(KeyShape { b_g1_query: 7, ..shape }, 2, 4, 3));
    assert!(!key_fits(KeyShape { b_g2_query: 0, ..shape }, 2, 4, 3));
    assert!(!key_fits(KeyShape { witness_slots: 5, ..shape }, 2, 4, 3));
}

#[test]
fn verification_outcome_maps_each_finding() {
    assert_eq!(verification_outcome(Ok(true)), Ok(true));
    assert_eq!(verification_outcome(Ok(false)), Ok(false));
    assert_eq!(
        verification_outcome(Err(VerifyFault::MalformedProof)),
        Err(AgeProofError::MalformedProof)
    );
    assert_eq!(
        verification_outcome(Err(VerifyFault::MalformedKey)),
        Err(AgeProofError::KeyTopologyMismatch)
    );
    assert_eq!(
        verification_outcome(Err(VerifyFault::KeyMismatch)),
        Err(AgeProofError::KeyTopologyMismatch)
    );
}

#[test]
fn proving_outcome_maps_each_result() {
    assert_eq!(proving_outcome(Ok(vec![1, 2, 3])), Ok(vec![1, 2, 3]));
    assert_eq!(
        proving_outcome(Err(SynthesisError::PolynomialDegreeTooLarge)),
        Err(AgeProofError::ProvingError)
    );
    assert_eq!(
        proving_outcome(Err(SynthesisError::UnexpectedIdentity)),
        Err(AgeProofError::ProvingError)
    );
}

#[test]
fn failed_key_generation_is_a_setup_error() {
    assert!(matches!(Groth16AgeVerifier::from_setup(None), Err(AgeProofError::SetupError)));
}

#[test]
fn generated_keys_are_loaded() {
    let (proving_key, verifying_key) = generate_keys(6570);
    let verifier =
        Groth16AgeVerifier::from_setup(Some((proving_key.clone(), verifying_key.clone()))).unwrap();
    assert_eq!(verifier.proving_key(), &proving_key);
    assert_eq!(verifier.verifying_key(), &verifying_key);
    assert!(matches!(
        Groth16AgeVerifier::from_setup(Some((verifying_key, proving_key))),
        Err(AgeProofError::KeyTopologyMismatch)
    ));
}

#[test]
fn setup_system_records_the_shape_of_the_circuit() {
    let circuit = Groth16AgeVerifier::setup_circuit(FieldElement::from_u64(6570));
    let system = circuit.setup_system().unwrap();
    assert_eq!(system.mode(), SynthesisMode::Setup);
    assert_eq!(system.num_public_inputs(), 1);
    assert_eq!(system.num_witness_variables(), 4);
    assert_eq!(system.num_constraints(), 3);
    assert_eq!(system.public_value(1), FieldElement::zero());
    let without_dates = AgeVerificationCircuit {
        birthdate: None,
        current_date: None,
        legal_age: FieldElement::from_u64(6570),
    };
    let system = without_dates.setup_system().unwrap();
    assert_eq!(system.num_witness_variables(), 4);
    assert_eq!(system.num_constraints(), 3);
}

#[test]
fn keys_do_not_depend_on_the_dates_of_the_setup_circuit() {
    let mut rng = ark_std::test_rng();
    let from_placeholder = Groth16::<Bls12_381>::generate_random_parameters_with_reduction(
        Replay(Groth16AgeVerifier::setup_circuit(FieldElement::from_u64(6570))),
        &mut rng,
    )
    .unwrap();
    let mut rng = ark_std::test_rng();
    let from_nothing = Groth16::<Bls12_381>::generate_random_parameters_with_reduction(
        Replay(AgeVerificationCircuit {
            birthdate: None,
            current_date: None,
            legal_age: FieldElement::from_u64(1),
        }),
        &mut rng,
    )
    .unwrap();
    assert_eq!(from_placeholder, from_nothing);
}
