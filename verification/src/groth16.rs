//! The Groth16 pipeline around the age circuit: loading keys, proving and verifying.
//! Keys and proofs are held as the bytes of their compressed canonical encoding.

use crate::backend::{
    backend_assignment, backend_constraints, backend_public, backend_witness, BackendSystem,
};
use crate::circuit::{circuit_system, synthesized, AgeVerificationCircuit};
use crate::constraint_system::{
    constraints_bound, ConstraintSystem, ConstraintView, SynthesisMode, SystemView,
};
use crate::error::AgeProofError;
use crate::field::FieldElement;
use ark_bls12_381::{Bls12_381, Fr};
use ark_ff::{BigInt, PrimeField, UniformRand};
use ark_groth16::{prepare_verifying_key, Groth16, Proof, ProvingKey, VerifyingKey};
use ark_relations::r1cs::SynthesisError;
use ark_serialize::{CanonicalDeserialize, CanonicalSerialize};
use vstd::prelude::*;

verus! {

/// The number of bytes of an encoded proof: two points of the first group and one of the
/// second, compressed.
pub const PROOF_BYTES: usize = 192;

/// The lengths of the vectors of a proving key. They depend on the shape of the circuit
/// that the key was generated for, and on nothing else.
#[derive(Clone, Copy, Debug, PartialEq, Eq, Structural)]
pub struct KeyShape {
    /// The length of the public-input part of the embedded verifying key.
    pub public_slots: usize,
    /// The length of the witness query.
    pub witness_slots: usize,
    /// The length of the first query.
    pub a_query: usize,
    /// The length of the second query in the first group.
    pub b_g1_query: usize,
    /// The length of the second query in the second group.
    pub b_g2_query: usize,
    /// The length of the quotient query.
    pub h_query: usize,
}

/// The least power of two that is at least `size`, searched upwards from the power of two
/// `from`.
pub open spec fn power_of_two_from(from: nat, size: nat) -> nat
    decreases
            (if from < size {
                size - from
            } else {
                0
            }),
{
    if from >= size || from == 0 {
        from
    } else {
        power_of_two_from(2 * from, size)
    }
}

/// The size of the evaluation domain for a circuit: the least power of two that is at
/// least the number of constraints plus the number of public slots.
pub open spec fn domain_size(num_public: nat, num_constraints: nat) -> nat {
    power_of_two_from(1, num_public + num_constraints)
}

/// The largest evaluation domain that the scalar field offers by powers of two alone.
pub open spec fn max_domain_size() -> nat {
    0x1_0000_0000
}

impl KeyShape {
    /// Whether a key of this shape belongs to a circuit with the given numbers of public
    /// slots (the constant one included), witness variables and constraints.
    pub open spec fn fits(self, num_public: nat, num_witness: nat, num_constraints: nat) -> bool {
        &&& self.public_slots == num_public
        &&& self.witness_slots == num_witness
        &&& self.a_query == num_public + num_witness
        &&& self.b_g1_query == num_public + num_witness
        &&& self.b_g2_query == num_public + num_witness
        &&& domain_size(num_public, num_constraints) <= max_domain_size()
        &&& self.h_query + 1 == domain_size(num_public, num_constraints)
    }
}

/// The size of the evaluation domain, where it is within the largest one.
pub fn compute_domain_size(num_public: usize, num_constraints: usize) -> (r: Option<u64>)
    ensures
        r.is_some() <==> domain_size(num_public as nat, num_constraints as nat)
            <= max_domain_size(),
        r matches Some(size) ==> size == domain_size(num_public as nat, num_constraints as nat),
{
    let size: u128 = num_public as u128 + num_constraints as u128;
    let mut power: u128 = 1;
    while power < size
        invariant
            1 <= power <= 0x1_0000_0000,
            size == num_public + num_constraints,
            power_of_two_from(power as nat, size as nat) == power_of_two_from(1, size as nat),
        decreases
                (if power < size {
                    size - power
                } else {
                    0
                }),
    {
        assert(power_of_two_from(power as nat, size as nat) == power_of_two_from(
            (2 * power) as nat,
            size as nat,
        ));
        if power > 0x8000_0000 {
            proof {
                lemma_power_of_two_from_grows((2 * power) as nat, size as nat);
            }
            return None;
        }
        power = 2 * power;
    }
    Some(power as u64)
}

/// The search for a power of two never ends below where it started.
proof fn lemma_power_of_two_from_grows(from: nat, size: nat)
    ensures
        power_of_two_from(from, size) >= from,
    decreases
            (if from < size {
                size - from
            } else {
                0
            }),
{
    if from >= size || from == 0 {
    } else {
        lemma_power_of_two_from_grows(2 * from, size);
    }
}

/// Whether a key of the given shape fits a circuit with the given numbers of public
/// slots, witness variables and constraints.
pub fn key_fits(shape: KeyShape, num_public: usize, num_witness: usize, num_constraints: usize) -> (r:
    bool)
    ensures
        r == shape.fits(num_public as nat, num_witness as nat, num_constraints as nat),
{
    let variables: u128 = num_public as u128 + num_witness as u128;
    match compute_domain_size(num_public, num_constraints) {
        None => false,
        Some(size) => shape.public_slots == num_public && shape.witness_slots == num_witness
            && shape.a_query as u128 == variables && shape.b_g1_query as u128 == variables
            && shape.b_g2_query as u128 == variables && shape.h_query as u128 + 1 == size as u128,
    }
}

/// Why the backend could not check a proof.
#[derive(Clone, Copy, Debug, PartialEq, Eq, Structural)]
pub enum VerifyFault {
    /// The bytes of the key do not encode a verifying key.
    MalformedKey,
    /// The bytes of the proof do not encode a proof.
    MalformedProof,
    /// The key does not go with the public inputs: it was made for another number of
    /// them, or the pairing check has no value.
    KeyMismatch,
}

/// The shape of the proving key that the bytes encode, where they encode one.
pub uninterp spec fn decoded_key_shape(key: Seq<u8>) -> Option<KeyShape>;

/// The number of public slots of the verifying key that the bytes encode, the constant one
/// included, where they encode one.
pub uninterp spec fn decoded_public_slots(key: Seq<u8>) -> Option<usize>;

/// The bytes of the proof that the backend computes from the bytes of a proving key, two
/// blinding scalars and the content of a constraint system, where it computes one.
pub uninterp spec fn groth16_proof(
    key: Seq<u8>,
    r: nat,
    s: nat,
    public: Seq<nat>,
    witness: Seq<nat>,
    constraints: Seq<ConstraintView>,
) -> Option<Seq<u8>>;

/// What the backend finds of the bytes of a proof, against the bytes of a verifying key
/// and the public inputs.
pub uninterp spec fn groth16_verdict(key: Seq<u8>, public_inputs: Seq<nat>, proof: Seq<u8>) -> Result<
    bool,
    VerifyFault,
>;

/// The values of a sequence of field elements.
pub open spec fn field_values(elements: Seq<FieldElement>) -> Seq<nat> {
    Seq::new(elements.len(), |i: int| elements[i]@)
}

/// The bytes of a result that holds a byte vector.
pub open spec fn bytes_of<E>(result: Result<Vec<u8>, E>) -> Option<Seq<u8>> {
    match result {
        Ok(bytes) => Some(bytes@),
        Err(_) => None,
    }
}

/// Decodes the bytes with `ProvingKey::deserialize_compressed` and reads the lengths of
/// the vectors of the key. The contract claims no more than that the result depends on
/// the bytes alone.
#[verifier::external_body]
fn proving_key_shape(key: &Vec<u8>) -> (r: Option<KeyShape>)
    ensures
        r == decoded_key_shape(key@),
{
    let key = ProvingKey::<Bls12_381>::deserialize_compressed(&key[..]).ok()?;
    Some(
        KeyShape {
            public_slots: key.vk.gamma_abc_g1.len(),
            witness_slots: key.l_query.len(),
            a_query: key.a_query.len(),
            b_g1_query: key.b_g1_query.len(),
            b_g2_query: key.b_g2_query.len(),
            h_query: key.h_query.len(),
        },
    )
}

/// Decodes the bytes with `VerifyingKey::deserialize_compressed` and reads the length of
/// the public-input part of the key. The contract claims no more than that the result
/// depends on the bytes alone.
#[verifier::external_body]
fn verifying_key_slots(key: &Vec<u8>) -> (r: Option<usize>)
    ensures
        r == decoded_public_slots(key@),
{
    let key = VerifyingKey::<Bls12_381>::deserialize_compressed(&key[..]).ok()?;
    Some(key.gamma_abc_g1.len())
}

/// Draws a field element with `UniformRand::rand` from the generator of the thread.
/// Nothing is claimed of the element.
#[verifier::external_body]
fn random_scalar() -> FieldElement {
    let BigInt([l0, l1, l2, l3]) = Fr::rand(&mut ark_std::rand::thread_rng()).into_bigint();
    FieldElement { l0, l1, l2, l3 }
}

/// Calls `Groth16::create_proof_with_reduction_and_matrices`. Its arguments are the key,
/// decoded with `deserialize_compressed`, the two scalars, and the matrices and values
/// that the system holds after `finalize`; its result is encoded with
/// `serialize_compressed`. The contract claims that the result depends on the arguments
/// alone, and that an encoded proof has `PROOF_BYTES` bytes: two compressed points of 48
/// bytes and one of 96. It asks for a key with non-empty queries and for constraints over
/// bound variables, without which the call would index out of bounds.
#[verifier::external_body]
fn backend_prove(key: &Vec<u8>, r: FieldElement, s: FieldElement, system: BackendSystem) -> (proof:
    Result<Vec<u8>, SynthesisError>)
    requires
        decoded_key_shape(key@) matches Some(shape) && shape.a_query >= 1 && shape.b_g1_query >= 1
            && shape.b_g2_query >= 1,
        constraints_bound(backend_constraints(system), backend_assignment(system)),
    ensures
        bytes_of(proof) == groth16_proof(
            key@,
            r@,
            s@,
            backend_public(system),
            backend_witness(system),
            backend_constraints(system),
        ),
        proof matches Ok(bytes) ==> bytes@.len() == PROOF_BYTES,
{
    let fault = SynthesisError::MalformedVerifyingKey;
    let key = ProvingKey::<Bls12_381>::deserialize_compressed(&key[..]).map_err(|_| fault)?;
    let (r, s) = (BigInt::new(r.to_limbs()).into(), BigInt::new(s.to_limbs()).into());
    let mut cs = system.inner;
    cs.finalize();
    let matrices = cs.to_matrices().ok_or(fault)?;
    let (inputs, constraints) = (cs.num_instance_variables, cs.num_constraints);
    let values = [cs.instance_assignment, cs.witness_assignment].concat();
    let proof = Groth16::<Bls12_381>::create_proof_with_reduction_and_matrices(
        &key, r, s, &matrices, inputs, constraints, &values,
    )?;
    let mut bytes = Vec::new();
    proof.serialize_compressed(&mut bytes).map_err(|_| fault)?;
    Ok(bytes)
}

/// Calls `Groth16::verify_proof`. Its arguments are the key, decoded with
/// `deserialize_compressed` and prepared with `prepare_verifying_key`, the proof, decoded
/// likewise, and the public inputs. The contract claims no more than that the result
/// depends on the bytes and the public inputs alone.
#[verifier::external_body]
fn backend_verify(key: &Vec<u8>, public_inputs: &Vec<FieldElement>, proof: &Vec<u8>) -> (r: Result<
    bool,
    VerifyFault,
>)
    ensures
        r == groth16_verdict(key@, field_values(public_inputs@), proof@),
{
    let key = VerifyingKey::<Bls12_381>::deserialize_compressed(&key[..]).map_err(
        |_| VerifyFault::MalformedKey,
    )?;
    let proof = Proof::<Bls12_381>::deserialize_compressed(&proof[..]).map_err(
        |_| VerifyFault::MalformedProof,
    )?;
    let inputs: Vec<Fr> = public_inputs.iter().map(|e| Fr::from(BigInt::new(e.to_limbs()))).collect();
    Groth16::<Bls12_381>::verify_proof(&prepare_verifying_key(&key), &proof, &inputs).map_err(
        |_| VerifyFault::KeyMismatch,
    )
}

/// What verification reports for each finding of the backend: the finding where there
/// is one, `MalformedProof` where the proof does not decode, and `KeyTopologyMismatch`
/// where the key does not decode or does not go with the public inputs.
pub open spec fn verdict_outcome(verdict: Result<bool, VerifyFault>) -> Result<bool, AgeProofError> {
    match verdict {
        Ok(valid) => Ok(valid),
        Err(VerifyFault::MalformedProof) => Err(AgeProofError::MalformedProof),
        Err(VerifyFault::MalformedKey) => Err(AgeProofError::KeyTopologyMismatch),
        Err(VerifyFault::KeyMismatch) => Err(AgeProofError::KeyTopologyMismatch),
    }
}

/// What verification reports of a proof against a verifying key and a legal age: a proof
/// of another length than `PROOF_BYTES` is malformed, and any other one is judged by the
/// backend with the legal age as the only public input.
pub open spec fn verification_of(key: Seq<u8>, legal_age: nat, proof: Seq<u8>) -> Result<
    bool,
    AgeProofError,
> {
    if proof.len() != PROOF_BYTES {
        Err(AgeProofError::MalformedProof)
    } else {
        verdict_outcome(groth16_verdict(key, seq![legal_age], proof))
    }
}

/// What proving reports for what the backend computed: the proof where there is one, and
/// `ProvingError` where there is none.
pub open spec fn prover_outcome(computed: Option<Seq<u8>>) -> Result<Seq<u8>, AgeProofError> {
    match computed {
        Some(bytes) => Ok(bytes),
        None => Err(AgeProofError::ProvingError),
    }
}

/// What proving reports for a circuit under a proving key and two blinding scalars:
/// `MissingAssignment` where a private date is absent, `UnsatisfiedConstraints` where the
/// dates do not satisfy the circuit, and else the proof of the backend, or `ProvingError`
/// where it computes none.
pub open spec fn proof_of(key: Seq<u8>, circuit: AgeVerificationCircuit, r: nat, s: nat) -> Result<
    Seq<u8>,
    AgeProofError,
> {
    match (circuit.birthdate, circuit.current_date) {
        (Some(birthdate), Some(current_date)) => {
            let system = circuit_system(birthdate@, current_date@, circuit.legal_age@);
            if !system.satisfied() {
                Err(AgeProofError::UnsatisfiedConstraints)
            } else {
                prover_outcome(
                    groth16_proof(key, r, s, system.public, system.witness, system.constraints),
                )
            }
        },
        _ => Err(AgeProofError::MissingAssignment),
    }
}

/// The bytes of a proving outcome.
pub open spec fn outcome_bytes(outcome: Result<Vec<u8>, AgeProofError>) -> Result<
    Seq<u8>,
    AgeProofError,
> {
    match outcome {
        Ok(bytes) => Ok(bytes@),
        Err(e) => Err(e),
    }
}

/// The shape of the age circuit: the system that it generates from nothing where only
/// the shape matters.
pub open spec fn circuit_shape() -> SystemView {
    synthesized(SystemView::empty(SynthesisMode::Setup), 0, 0, 0)
}

/// Whether the bytes encode a proving key for the age circuit.
pub open spec fn is_circuit_key(key: Seq<u8>) -> bool {
    decoded_key_shape(key) matches Some(shape) && shape.fits(
        circuit_shape().public.len(),
        circuit_shape().witness.len(),
        circuit_shape().constraints.len(),
    )
}

/// Whether the bytes encode a verifying key for the age circuit: one with as many public
/// slots as the circuit.
pub open spec fn is_circuit_verifying_key(key: Seq<u8>) -> bool {
    decoded_public_slots(key) matches Some(slots) && slots == circuit_shape().public.len()
}

/// What proving reports for a result of the backend.
pub fn proving_outcome(computed: Result<Vec<u8>, SynthesisError>) -> (r: Result<
    Vec<u8>,
    AgeProofError,
>)
    ensures
        outcome_bytes(r) == prover_outcome(bytes_of(computed)),
        r matches Ok(bytes) ==> computed matches Ok(given) && bytes == given,
{
    match computed {
        Ok(bytes) => Ok(bytes),
        Err(_) => Err(AgeProofError::ProvingError),
    }
}

/// What verification reports for a finding of the backend.
pub fn verification_outcome(verdict: Result<bool, VerifyFault>) -> (r: Result<bool, AgeProofError>)
    ensures
        r == verdict_outcome(verdict),
{
    match verdict {
        Ok(valid) => Ok(valid),
        Err(VerifyFault::MalformedProof) => Err(AgeProofError::MalformedProof),
        Err(VerifyFault::MalformedKey) => Err(AgeProofError::KeyTopologyMismatch),
        Err(VerifyFault::KeyMismatch) => Err(AgeProofError::KeyTopologyMismatch),
    }
}

/// Checks a proof against a verifying key and the legal age. The result is `Ok(false)`
/// for a proof that decodes and does not hold, and an error for bytes that are no proof
/// or a key that does not go with the circuit.
pub fn verify_proof(verifying_key: &Vec<u8>, legal_age: FieldElement, proof: &Vec<u8>) -> (r: Result<
    bool,
    AgeProofError,
>)
    ensures
        r == verification_of(verifying_key@, legal_age@, proof@),
{
    if proof.len() != PROOF_BYTES {
        return Err(AgeProofError::MalformedProof);
    }
    let mut public_inputs: Vec<FieldElement> = Vec::new();
    public_inputs.push(legal_age);
    assert(field_values(public_inputs@) =~= seq![legal_age@]);
    verification_outcome(backend_verify(verifying_key, &public_inputs, proof))
}

/// A prover and verifier of the age predicate under one pair of Groth16 keys. The keys
/// are made once per circuit and shared by every proof; the legal age is a public input
/// of each proof, so one pair serves every legal age.
#[derive(Debug)]
pub struct Groth16AgeVerifier {
    proving_key: Vec<u8>,
    verifying_key: Vec<u8>,
}

impl Groth16AgeVerifier {
    #[verifier::type_invariant]
    spec fn keys_are_for_circuit(self) -> bool {
        is_circuit_key(self.proving_key@) && is_circuit_verifying_key(self.verifying_key@)
    }

    /// The bytes of the proving key.
    pub closed spec fn proving_key_bytes(&self) -> Seq<u8> {
        self.proving_key@
    }

    /// The bytes of the verifying key.
    pub closed spec fn verifying_key_bytes(&self) -> Seq<u8> {
        self.verifying_key@
    }

    /// The circuit to generate keys from. Key generation reads its shape only, so the
    /// private dates are placeholders.
    pub fn setup_circuit(legal_age: FieldElement) -> (r: AgeVerificationCircuit)
        ensures
            r.birthdate matches Some(birthdate) && birthdate@ == 0,
            r.current_date matches Some(current_date) && current_date@ == 0,
            r.legal_age == legal_age,
    {
        AgeVerificationCircuit {
            birthdate: Some(FieldElement::from_u64(0)),
            current_date: Some(FieldElement::from_u64(0)),
            legal_age,
        }
    }

    /// Loads a pair of keys. A key that does not decode, or whose shape is not that of
    /// the age circuit, is rejected.
    pub fn new(proving_key: Vec<u8>, verifying_key: Vec<u8>) -> (r: Result<
        Groth16AgeVerifier,
        AgeProofError,
    >)
        ensures
            r.is_ok() <==> is_circuit_key(proving_key@) && is_circuit_verifying_key(
                verifying_key@,
            ),
            match r {
                Ok(verifier) => verifier.proving_key_bytes() == proving_key@
                    && verifier.verifying_key_bytes() == verifying_key@,
                Err(e) => e == AgeProofError::KeyTopologyMismatch,
            },
    {
        let placeholder = AgeVerificationCircuit {
            birthdate: None,
            current_date: None,
            legal_age: FieldElement::zero(),
        };
        let shape_system = match placeholder.setup_system() {
            Ok(system) => system,
            Err(_) => {
                return Err(AgeProofError::KeyTopologyMismatch);
            },
        };
        let num_public: usize = shape_system.num_public_inputs() + 1;
        let proving_fits: bool = match proving_key_shape(&proving_key) {
            None => false,
            Some(shape) => key_fits(
                shape,
                num_public,
                shape_system.num_witness_variables(),
                shape_system.num_constraints(),
            ),
        };
        let verifying_fits: bool = match verifying_key_slots(&verifying_key) {
            None => false,
            Some(slots) => slots == num_public,
        };
        if proving_fits && verifying_fits {
            Ok(Groth16AgeVerifier { proving_key, verifying_key })
        } else {
            Err(AgeProofError::KeyTopologyMismatch)
        }
    }

    /// Loads the pair of keys that key generation made, proving key first. Where key
    /// generation failed and made none, the failure is `SetupError`.
    pub fn from_setup(generated: Option<(Vec<u8>, Vec<u8>)>) -> (r: Result<
        Groth16AgeVerifier,
        AgeProofError,
    >)
        ensures
            r.is_ok() <==> (generated matches Some(keys) && is_circuit_key(keys.0@)
                && is_circuit_verifying_key(keys.1@)),
            match r {
                Ok(verifier) => (generated matches Some(keys) && verifier.proving_key_bytes()
                    == keys.0@ && verifier.verifying_key_bytes() == keys.1@),
                Err(e) => e == (if generated.is_none() {
                    AgeProofError::SetupError
                } else {
                    AgeProofError::KeyTopologyMismatch
                }),
            },
    {
        match generated {
            None => Err(AgeProofError::SetupError),
            Some((proving_key, verifying_key)) => Groth16AgeVerifier::new(proving_key, verifying_key),
        }
    }

    /// The proving key, encoded.
    pub fn proving_key(&self) -> (r: &Vec<u8>)
        ensures
            r@ == self.proving_key_bytes(),
            is_circuit_key(r@),
    {
        proof {
            use_type_invariant(self);
        }
        &self.proving_key
    }

    /// The verifying key, encoded.
    pub fn verifying_key(&self) -> (r: &Vec<u8>)
        ensures
            r@ == self.verifying_key_bytes(),
            is_circuit_verifying_key(r@),
    {
        proof {
            use_type_invariant(self);
        }
        &self.verifying_key
    }

    /// Proves that the dates of the circuit satisfy it, with the given blinding scalars.
    /// No proof is made for dates that do not satisfy the circuit.
    pub fn prove_with_randomness(
        &self,
        circuit: AgeVerificationCircuit,
        r: FieldElement,
        s: FieldElement,
    ) -> (outcome: Result<Vec<u8>, AgeProofError>)
        ensures
            outcome_bytes(outcome) == proof_of(self.proving_key_bytes(), circuit, r@, s@),
            outcome matches Ok(bytes) ==> bytes@.len() == PROOF_BYTES,
    {
        proof {
            use_type_invariant(self);
        }
        let mut system = ConstraintSystem::new(SynthesisMode::Prove);
        circuit.generate_constraints(&mut system)?;
        match system.is_satisfied() {
            Ok(true) => {},
            _ => {
                return Err(AgeProofError::UnsatisfiedConstraints);
            },
        }
        match system.mirror() {
            None => Err(AgeProofError::ProvingError),
            Some(backend) => proving_outcome(backend_prove(&self.proving_key, r, s, backend)),
        }
    }

    /// Proves that the dates of the circuit satisfy it, with fresh blinding scalars.
    pub fn prove(&self, circuit: AgeVerificationCircuit) -> (outcome: Result<Vec<u8>, AgeProofError>)
        ensures
            exists|r: nat, s: nat|
                outcome_bytes(outcome) == #[trigger] proof_of(self.proving_key_bytes(), circuit, r, s),
            outcome matches Ok(bytes) ==> bytes@.len() == PROOF_BYTES,
    {
        let r = random_scalar();
        let s = random_scalar();
        self.prove_with_randomness(circuit, r, s)
    }

    /// Proves that a person born on `birthdate` has reached `legal_age` on `current_date`.
    pub fn generate_proof(
        &self,
        birthdate: FieldElement,
        current_date: FieldElement,
        legal_age: FieldElement,
    ) -> (outcome: Result<Vec<u8>, AgeProofError>)
        ensures
            exists|r: nat, s: nat|
                outcome_bytes(outcome) == #[trigger] proof_of(
                    self.proving_key_bytes(),
                    (AgeVerificationCircuit {
                        birthdate: Some(birthdate),
                        current_date: Some(current_date),
                        legal_age,
                    }),
                    r,
                    s,
                ),
            outcome matches Ok(bytes) ==> bytes@.len() == PROOF_BYTES,
    {
        self.prove(
            AgeVerificationCircuit {
                birthdate: Some(birthdate),
                current_date: Some(current_date),
                legal_age,
            },
        )
    }

    /// Checks a proof against the verifying key and the legal age.
    pub fn verify(&self, legal_age: FieldElement, proof: &Vec<u8>) -> (r: Result<bool, AgeProofError>)
        ensures
            r == verification_of(self.verifying_key_bytes(), legal_age@, proof@),
    {
        verify_proof(&self.verifying_key, legal_age, proof)
    }
}

} // verus!
