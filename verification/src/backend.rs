//! The constraint system of `ark_relations`, as far as the library uses it: filled value
//! by value and constraint by constraint, then asked whether it is satisfied.

use crate::constraint_system::{constraints_bound, constraints_hold, ConstraintView};
use crate::field::FieldElement;
use crate::linear_combination::{Assignment, LinearCombination, Variable};
use ark_bls12_381::Fr;
use ark_ff::BigInt;
use ark_relations::r1cs::{ConstraintSystem as R1cs, SynthesisError};
use vstd::prelude::*;

verus! {

/// The error type of `ark_relations`.
#[verifier::external_type_specification]
#[verifier::external_body]
pub struct ExSynthesisError(SynthesisError);

/// A constraint system of `ark_relations` over the BLS12-381 scalar field, in proving
/// mode.
#[verifier::external_body]
pub struct BackendSystem {
    pub(crate) inner: R1cs<Fr>,
}

/// The values that the backend system binds to its public variables, slot 0 first.
pub uninterp spec fn backend_public(system: BackendSystem) -> Seq<nat>;

/// The values that the backend system binds to its witness variables.
pub uninterp spec fn backend_witness(system: BackendSystem) -> Seq<nat>;

/// The constraints of the backend system, in the order in which they were enforced.
pub uninterp spec fn backend_constraints(system: BackendSystem) -> Seq<ConstraintView>;

/// The values that the backend system binds to its variables.
pub open spec fn backend_assignment(system: BackendSystem) -> Assignment {
    Assignment { public: backend_public(system), witness: backend_witness(system) }
}

/// Calls `ConstraintSystem::new`. The contract claims that the new system binds the
/// constant one to public slot 0 and holds nothing else.
#[verifier::external_body]
pub(crate) fn backend_new() -> (r: BackendSystem)
    ensures
        backend_public(r) == seq![1nat],
        backend_witness(r) == Seq::<nat>::empty(),
        backend_constraints(r) == Seq::<ConstraintView>::empty(),
{
    BackendSystem { inner: R1cs::new() }
}

/// Calls `ConstraintSystem::new_input_variable` with a closure that yields `value`. The
/// contract claims that the call succeeds and appends the value to the public part.
#[verifier::external_body]
pub(crate) fn backend_input(system: &mut BackendSystem, value: FieldElement) -> (r: Result<
    (),
    SynthesisError,
>)
    requires
        backend_public(*old(system)).len() < usize::MAX,
    ensures
        r.is_ok(),
        backend_public(*final(system)) == backend_public(*old(system)).push(value@),
        backend_witness(*final(system)) == backend_witness(*old(system)),
        backend_constraints(*final(system)) == backend_constraints(*old(system)),
{
    let element = Fr::from(BigInt::new(value.to_limbs()));
    system.inner.new_input_variable(|| Ok(element)).map(|_| ())
}

/// Calls `ConstraintSystem::new_witness_variable` with a closure that yields `value`. The
/// contract claims that the call succeeds and appends the value to the witness part.
#[verifier::external_body]
pub(crate) fn backend_witness_variable(system: &mut BackendSystem, value: FieldElement) -> (r:
    Result<(), SynthesisError>)
    requires
        backend_witness(*old(system)).len() < usize::MAX,
    ensures
        r.is_ok(),
        backend_public(*final(system)) == backend_public(*old(system)),
        backend_witness(*final(system)) == backend_witness(*old(system)).push(value@),
        backend_constraints(*final(system)) == backend_constraints(*old(system)),
{
    let element = Fr::from(BigInt::new(value.to_limbs()));
    system.inner.new_witness_variable(|| Ok(element)).map(|_| ())
}

/// Calls `ConstraintSystem::enforce_constraint` with the three combinations, term for
/// term. The contract claims that the call succeeds and appends the constraint.
#[verifier::external_body]
pub(crate) fn backend_enforce(
    system: &mut BackendSystem,
    a: &LinearCombination,
    b: &LinearCombination,
    c: &LinearCombination,
) -> (r: Result<(), SynthesisError>)
    requires
        3 * backend_constraints(*old(system)).len() + 3 <= usize::MAX,
    ensures
        r.is_ok(),
        backend_public(*final(system)) == backend_public(*old(system)),
        backend_witness(*final(system)) == backend_witness(*old(system)),
        backend_constraints(*final(system)) == backend_constraints(*old(system)).push(
            ConstraintView { a: a@, b: b@, c: c@ },
        ),
{
    let variable = |v: Variable| match v {
        Variable::One => ark_relations::r1cs::Variable::One,
        Variable::Public(i) => ark_relations::r1cs::Variable::Instance(i),
        Variable::Witness(i) => ark_relations::r1cs::Variable::Witness(i),
    };
    let term = |t: &crate::linear_combination::Term| {
        (Fr::from(BigInt::new(t.coefficient.to_limbs())), variable(t.variable))
    };
    let combination = |l: &LinearCombination| {
        ark_relations::r1cs::LinearCombination(l.terms.iter().map(term).collect())
    };
    system.inner.enforce_constraint(combination(a), combination(b), combination(c))
}

/// Calls `ConstraintSystem::is_satisfied`. The contract claims that, where every
/// constraint names bound variables only, the call succeeds and tells whether every
/// constraint holds under the values that the system binds.
#[verifier::external_body]
pub(crate) fn backend_is_satisfied(system: &BackendSystem) -> (r: Result<bool, SynthesisError>)
    ensures
        constraints_bound(backend_constraints(*system), backend_assignment(*system)) ==> r is Ok,
        constraints_bound(backend_constraints(*system), backend_assignment(*system)) ==> r->Ok_0
            == constraints_hold(backend_constraints(*system), backend_assignment(*system)),
{
    system.inner.is_satisfied()
}

} // verus!
