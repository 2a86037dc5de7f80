//! The age predicate as an arithmetic circuit: the age is the current date minus the
//! birthdate, and the distance from the age to the legal age is tied to a witness that
//! must equal its own square.

use crate::constraint_system::{
    value_or_zero, ConstraintSystem, ConstraintView, SynthesisMode, SystemView,
};
use crate::error::AgeProofError;
use crate::field::{field_add, field_mul, field_neg, field_sub, modulus, FieldElement};
use crate::linear_combination::{eval_terms, Assignment, LinearCombination, Variable};
use vstd::arithmetic::div_mod::{
    lemma_add_mod_noop_right, lemma_fundamental_div_mod_converse_mod, lemma_mod_multiples_vanish,
    lemma_small_mod,
};
use vstd::prelude::*;

verus! {

/// The constraint that a variable minus another, times one, is a third.
pub open spec fn difference_constraint(
    minuend: Variable,
    subtrahend: Variable,
    result: Variable,
) -> ConstraintView {
    ConstraintView {
        a: seq![(1nat, minuend), (field_neg(1), subtrahend)],
        b: seq![(1nat, Variable::One)],
        c: seq![(1nat, result)],
    }
}

/// The constraint that a variable times itself is itself.
pub open spec fn idempotence_constraint(variable: Variable) -> ConstraintView {
    ConstraintView {
        a: seq![(1nat, variable)],
        b: seq![(1nat, variable)],
        c: seq![(1nat, variable)],
    }
}

/// The system after the circuit was generated into it: four more witness variables
/// (birthdate, current date, age, distance to the legal age, in this order), one more
/// public input (the legal age) and three more constraints.
pub open spec fn synthesized(system: SystemView, birthdate: nat, current_date: nat, legal_age: nat) -> SystemView {
    let birthdate_var = Variable::Witness(system.witness.len() as usize);
    let current_date_var = Variable::Witness((system.witness.len() + 1) as usize);
    let age_var = Variable::Witness((system.witness.len() + 2) as usize);
    let difference_var = Variable::Witness((system.witness.len() + 3) as usize);
    let legal_age_var = Variable::Public(system.public.len() as usize);
    let age = field_sub(current_date, birthdate);
    let difference = field_sub(age, legal_age);
    system.with_witness(birthdate).with_witness(current_date).with_witness(age).with_public_input(
        legal_age,
    ).with_constraint(difference_constraint(current_date_var, birthdate_var, age_var)).with_witness(
        difference,
    ).with_constraint(difference_constraint(age_var, legal_age_var, difference_var)).with_constraint(
        idempotence_constraint(difference_var),
    )
}

/// The system that the circuit generates from nothing, with a value bound to every
/// variable.
pub open spec fn circuit_system(birthdate: nat, current_date: nat, legal_age: nat) -> SystemView {
    synthesized(SystemView::empty(SynthesisMode::Prove), birthdate, current_date, legal_age)
}

/// The age predicate for one person: two private dates and the public legal age, all in
/// days. The private dates may be absent where only the shape of the circuit matters.
#[derive(Clone, Copy, Debug)]
pub struct AgeVerificationCircuit {
    pub birthdate: Option<FieldElement>,
    pub current_date: Option<FieldElement>,
    pub legal_age: FieldElement,
}

impl AgeVerificationCircuit {
    /// The system that key generation reads: the circuit generated into an empty system
    /// that records its shape only. It succeeds whether the private dates are present or
    /// not; a failure of the generation would come back as `SetupError`.
    pub fn setup_system(self) -> (r: Result<ConstraintSystem, AgeProofError>)
        ensures
            r matches Ok(system) && system.wf() && system@ == synthesized(
                SystemView::empty(SynthesisMode::Setup),
                value_or_zero(self.birthdate),
                value_or_zero(self.current_date),
                self.legal_age@,
            ),
    {
        let mut system = ConstraintSystem::new(SynthesisMode::Setup);
        match self.generate_constraints(&mut system) {
            Ok(_) => Ok(system),
            Err(_) => Err(AgeProofError::SetupError),
        }
    }

    /// Adds the variables and the constraints of the circuit to `cs`.
    ///
    /// In a system that binds values both private dates are required: without the
    /// birthdate nothing is added, and without the current date only the birthdate is.
    pub fn generate_constraints(self, cs: &mut ConstraintSystem) -> (r: Result<(), AgeProofError>)
        requires
            old(cs).wf(),
        ensures
            final(cs).wf(),
            r.is_ok() <==> old(cs)@.mode == SynthesisMode::Setup || (self.birthdate.is_some()
                && self.current_date.is_some()),
            match r {
                Ok(_) => final(cs)@ == synthesized(
                    old(cs)@,
                    value_or_zero(self.birthdate),
                    value_or_zero(self.current_date),
                    self.legal_age@,
                ),
                Err(e) => e == AgeProofError::MissingAssignment && final(cs)@ == (
                if self.birthdate.is_some() {
                    old(cs)@.with_witness(value_or_zero(self.birthdate))
                } else {
                    old(cs)@
                }),
            },
    {
        let birthdate_var = cs.allocate_witness(self.birthdate)?;
        let current_date_var = cs.allocate_witness(self.current_date)?;
        let age: Option<FieldElement> = match (self.birthdate, self.current_date) {
            (Some(birthdate), Some(current_date)) => Some(current_date.sub(&birthdate)),
            _ => None,
        };
        let age_var = cs.allocate_witness(age)?;
        let legal_age_var = cs.allocate_public_input(Some(self.legal_age))?;
        cs.enforce(
            LinearCombination::zero().plus(current_date_var).minus(birthdate_var),
            LinearCombination::zero().plus(Variable::One),
            LinearCombination::zero().plus(age_var),
        )?;
        let difference: Option<FieldElement> = match age {
            Some(age) => Some(age.sub(&self.legal_age)),
            None => None,
        };
        let difference_var = cs.allocate_witness(difference)?;
        cs.enforce(
            LinearCombination::zero().plus(age_var).minus(legal_age_var),
            LinearCombination::zero().plus(Variable::One),
            LinearCombination::zero().plus(difference_var),
        )?;
        let r = cs.enforce(
            LinearCombination::zero().plus(difference_var),
            LinearCombination::zero().plus(difference_var),
            LinearCombination::zero().plus(difference_var),
        );
        assert(r.is_ok() ==> cs@ =~~= synthesized(
            old(cs)@,
            value_or_zero(self.birthdate),
            value_or_zero(self.current_date),
            self.legal_age@,
        ));
        r
    }
}

/// The shape of the circuit does not depend on the dates, on the legal age or on the mode:
/// every system that the circuit generates from nothing has one public input after the
/// constant one, four witness variables and the same three constraints. In proving mode
/// the public part is the constant one followed by the legal age, which is what
/// verification supplies.
pub proof fn lemma_shape_is_fixed(
    mode: SynthesisMode,
    birthdate: nat,
    current_date: nat,
    legal_age: nat,
)
    ensures
        synthesized(SystemView::empty(mode), birthdate, current_date, legal_age).public.len() == 2,
        synthesized(SystemView::empty(mode), birthdate, current_date, legal_age).witness.len()
            == 4,
        synthesized(SystemView::empty(mode), birthdate, current_date, legal_age).constraints
            == seq![
            difference_constraint(Variable::Witness(1), Variable::Witness(0), Variable::Witness(2)),
            difference_constraint(Variable::Witness(2), Variable::Public(1), Variable::Witness(3)),
            idempotence_constraint(Variable::Witness(3)),
        ],
        circuit_system(birthdate, current_date, legal_age).public == seq![1nat, legal_age],
        synthesized(SystemView::empty(mode), birthdate, current_date, legal_age).well_formed(),
{
    let system = synthesized(SystemView::empty(mode), birthdate, current_date, legal_age);
    assert(system.constraints =~= seq![
        difference_constraint(Variable::Witness(1), Variable::Witness(0), Variable::Witness(2)),
        difference_constraint(Variable::Witness(2), Variable::Public(1), Variable::Witness(3)),
        idempotence_constraint(Variable::Witness(3)),
    ]);
    assert(circuit_system(birthdate, current_date, legal_age).public =~= seq![1nat, legal_age]);
}

/// The distance from the age to the legal age, in the field.
pub open spec fn age_difference(birthdate: nat, current_date: nat, legal_age: nat) -> nat {
    field_sub(field_sub(current_date, birthdate), legal_age)
}

/// Whether the circuit accepts the dates: the distance from the age to the legal age is
/// its own square in the field.
pub open spec fn circuit_accepts(birthdate: nat, current_date: nat, legal_age: nat) -> bool {
    field_mul(
        age_difference(birthdate, current_date, legal_age),
        age_difference(birthdate, current_date, legal_age),
    ) == age_difference(birthdate, current_date, legal_age)
}

/// The largest day count that the statements on whole days speak of.
pub open spec fn max_day_count() -> nat {
    0xffff_ffff_ffff_ffff
}

/// The value of a single variable with coefficient one is the value of the variable.
proof fn lemma_variable_value(variable: Variable, assignment: Assignment)
    requires
        assignment.value(variable) < modulus(),
    ensures
        eval_terms(seq![(1nat, variable)], assignment) == assignment.value(variable),
{
    let terms = seq![(1nat, variable)];
    assert(terms.drop_last() =~= Seq::<(nat, Variable)>::empty());
    assert(terms.last() == (1nat, variable));
    assert(eval_terms(terms.drop_last(), assignment) == 0);
    assert(field_mul(1, assignment.value(variable)) == assignment.value(variable));
}

/// The value of one variable minus another is the difference of their values in the
/// field.
proof fn lemma_variable_difference_value(
    minuend: Variable,
    subtrahend: Variable,
    assignment: Assignment,
)
    requires
        assignment.value(minuend) < modulus(),
        assignment.value(subtrahend) < modulus(),
    ensures
        eval_terms(seq![(1nat, minuend), (field_neg(1), subtrahend)], assignment) == field_sub(
            assignment.value(minuend),
            assignment.value(subtrahend),
        ),
{
    let terms = seq![(1nat, minuend), (field_neg(1), subtrahend)];
    assert(terms.drop_last() =~= seq![(1nat, minuend)]);
    assert(terms.last() == (field_neg(1), subtrahend));
    lemma_variable_value(minuend, assignment);
    lemma_difference_value(assignment.value(minuend), assignment.value(subtrahend));
}

/// A variable minus another evaluates to the difference of their values in the field.
proof fn lemma_difference_value(x: nat, y: nat)
    requires
        x < modulus(),
        y < modulus(),
    ensures
        field_add(x, field_mul(field_neg(1), y)) == field_sub(x, y),
{
    let m = modulus() as int;
    assert(field_neg(1) == m - 1);
    assert((m - 1) * y == m * y - y) by (nonlinear_arith);
    lemma_add_mod_noop_right(x as int, (m - 1) * y, m);
    lemma_mod_multiples_vanish(y as int, x - y, m);
    assert(x + (m - 1) * y == m * y + (x - y));
}

/// The system that the circuit generates is satisfied exactly where the circuit accepts
/// the dates: the first two constraints hold of every input, and the third one holds
/// where the distance from the age to the legal age is its own square.
pub proof fn lemma_satisfied_iff_accepted(birthdate: nat, current_date: nat, legal_age: nat)
    requires
        birthdate < modulus(),
        current_date < modulus(),
        legal_age < modulus(),
    ensures
        circuit_system(birthdate, current_date, legal_age).satisfied() <==> circuit_accepts(
            birthdate,
            current_date,
            legal_age,
        ),
{
    let system = circuit_system(birthdate, current_date, legal_age);
    let assignment = system.assignment();
    let age = field_sub(current_date, birthdate);
    let difference = field_sub(age, legal_age);
    let age_is_difference = difference_constraint(
        Variable::Witness(1),
        Variable::Witness(0),
        Variable::Witness(2),
    );
    let distance_is_difference = difference_constraint(
        Variable::Witness(2),
        Variable::Public(1),
        Variable::Witness(3),
    );
    let distance_is_idempotent = idempotence_constraint(Variable::Witness(3));
    assert(system.public =~= seq![1nat, legal_age]);
    assert(system.witness =~= seq![birthdate, current_date, age, difference]);
    assert(system.constraints =~= seq![
        age_is_difference,
        distance_is_difference,
        distance_is_idempotent,
    ]);
    lemma_variable_value(Variable::One, assignment);
    lemma_variable_value(Variable::Witness(2), assignment);
    lemma_variable_value(Variable::Witness(3), assignment);
    lemma_variable_difference_value(Variable::Witness(1), Variable::Witness(0), assignment);
    lemma_variable_difference_value(Variable::Witness(2), Variable::Public(1), assignment);
    assert(eval_terms(age_is_difference.a, assignment) == age);
    assert(eval_terms(age_is_difference.b, assignment) == 1);
    assert(eval_terms(age_is_difference.c, assignment) == age);
    assert(age_is_difference.holds(assignment));
    assert(eval_terms(distance_is_difference.a, assignment) == difference);
    assert(eval_terms(distance_is_difference.b, assignment) == 1);
    assert(eval_terms(distance_is_difference.c, assignment) == difference);
    assert(distance_is_difference.holds(assignment));
    assert(eval_terms(distance_is_idempotent.a, assignment) == difference);
    assert(distance_is_idempotent.holds(assignment) <==> circuit_accepts(
        birthdate,
        current_date,
        legal_age,
    ));
    assert(system.constraints[0] == age_is_difference);
    assert(system.constraints[1] == distance_is_difference);
    assert(system.constraints[2] == distance_is_idempotent);
}

/// The difference of two values below the modulus, in the field: the plain difference
/// where it is not negative, and the modulus more where it is.
proof fn lemma_field_sub_value(x: nat, y: nat)
    requires
        x < modulus(),
        y < modulus(),
    ensures
        x >= y ==> field_sub(x, y) == x - y,
        x < y ==> field_sub(x, y) == modulus() + x - y,
{
    let m = modulus() as int;
    if x >= y {
        lemma_small_mod((x - y) as nat, modulus());
    } else {
        lemma_fundamental_div_mod_converse_mod(x - y, m, -1, m + x - y);
    }
}

/// A value `k` below the modulus whose square is below it too is its own square in the
/// field only where it is zero or one, and the modulus less `k` is never its own square
/// where `k` is positive and `k * (k + 1)` is below the modulus.
proof fn lemma_small_squares(k: nat)
    requires
        k * (k + 1) < modulus(),
    ensures
        field_mul(k, k) == k <==> k <= 1,
        k >= 1 ==> field_mul((modulus() - k) as nat, (modulus() - k) as nat) != modulus() - k,
{
    let m = modulus() as int;
    assert(k * (k + 1) == k * k + k) by (nonlinear_arith);
    lemma_small_mod(k * k, modulus());
    if k >= 2 {
        assert(k * k >= 2 * k) by (nonlinear_arith)
            requires
                k >= 2,
        ;
    }
    if k >= 1 {
        assert(k < m);
        assert((m - k) * (m - k) == m * (m - 2 * k) + k * k) by (nonlinear_arith);
        lemma_mod_multiples_vanish(m - 2 * k, (k * k) as int, m);
        assert(((m - k) * (m - k)) % m == k * k);
    }
}

/// Where the age is the legal age or one day more, the system that the circuit generates
/// is satisfied.
pub proof fn lemma_age_at_threshold_satisfied(birthdate: nat, current_date: nat, legal_age: nat)
    requires
        birthdate <= current_date < modulus(),
        legal_age <= current_date - birthdate <= legal_age + 1,
    ensures
        circuit_system(birthdate, current_date, legal_age).satisfied(),
{
    lemma_satisfied_iff_accepted(birthdate, current_date, legal_age);
    lemma_field_sub_value(current_date, birthdate);
    lemma_field_sub_value((current_date - birthdate) as nat, legal_age);
    let difference = age_difference(birthdate, current_date, legal_age);
    assert(difference <= 1);
    assert(difference * (difference + 1) < modulus()) by (nonlinear_arith)
        requires
            difference <= 1,
            modulus() > 2,
    ;
    lemma_small_squares(difference);
}

/// Where the age is below the legal age, the system that the circuit generates is not
/// satisfied, as long as the shortfall `k` is small against the modulus: `k * (k + 1)` is
/// below it. A current date before the birthdate counts as an age below zero.
pub proof fn lemma_age_below_threshold_unsatisfied(
    birthdate: nat,
    current_date: nat,
    legal_age: nat,
)
    requires
        birthdate < modulus(),
        current_date < modulus(),
        legal_age < modulus(),
        current_date - birthdate < legal_age,
        (legal_age + birthdate - current_date) * (legal_age + birthdate - current_date + 1)
            < modulus(),
    ensures
        !circuit_system(birthdate, current_date, legal_age).satisfied(),
{
    let shortfall = (legal_age + birthdate - current_date) as nat;
    assert(shortfall < modulus()) by (nonlinear_arith)
        requires
            shortfall * (shortfall + 1) < modulus(),
    ;
    lemma_satisfied_iff_accepted(birthdate, current_date, legal_age);
    lemma_field_sub_value(current_date, birthdate);
    let age = field_sub(current_date, birthdate);
    lemma_field_sub_value(age, legal_age);
    assert(age_difference(birthdate, current_date, legal_age) == modulus() - shortfall);
    lemma_small_squares(shortfall);
}

/// Where the age is two days or more above the legal age, the system that the circuit
/// generates is not satisfied, as long as the excess `k` is small against the modulus:
/// `k * (k + 1)` is below it. The third constraint admits a distance of zero or one only.
pub proof fn lemma_age_beyond_threshold_unsatisfied(
    birthdate: nat,
    current_date: nat,
    legal_age: nat,
)
    requires
        birthdate <= current_date < modulus(),
        legal_age + 2 <= current_date - birthdate,
        (current_date - birthdate - legal_age) * (current_date - birthdate - legal_age + 1)
            < modulus(),
    ensures
        !circuit_system(birthdate, current_date, legal_age).satisfied(),
{
    lemma_satisfied_iff_accepted(birthdate, current_date, legal_age);
    lemma_field_sub_value(current_date, birthdate);
    lemma_field_sub_value((current_date - birthdate) as nat, legal_age);
    let excess = (current_date - birthdate - legal_age) as nat;
    assert(age_difference(birthdate, current_date, legal_age) == excess);
    lemma_small_squares(excess);
}

/// Of dates and a legal age that are whole day counts, the system that the circuit
/// generates is satisfied exactly where the age is the legal age or one day more.
pub proof fn lemma_day_counts_judged(birthdate: nat, current_date: nat, legal_age: nat)
    requires
        birthdate <= max_day_count(),
        current_date <= max_day_count(),
        legal_age <= max_day_count(),
    ensures
        circuit_system(birthdate, current_date, legal_age).satisfied() <==> legal_age
            <= current_date - birthdate <= legal_age + 1,
{
    if current_date - birthdate < legal_age {
        let shortfall = (legal_age + birthdate - current_date) as nat;
        assert(shortfall * (shortfall + 1) < modulus()) by (nonlinear_arith)
            requires
                shortfall < 0x2_0000_0000_0000_0000,
                modulus() > 0x8_0000_0000_0000_0000_0000_0000_0000_0000_0000,
        ;
        lemma_age_below_threshold_unsatisfied(birthdate, current_date, legal_age);
    } else if current_date - birthdate <= legal_age + 1 {
        lemma_age_at_threshold_satisfied(birthdate, current_date, legal_age);
    } else {
        let excess = (current_date - birthdate - legal_age) as nat;
        assert(excess * (excess + 1) < modulus()) by (nonlinear_arith)
            requires
                excess < 0x1_0000_0000_0000_0000,
                modulus() > 0x8_0000_0000_0000_0000_0000_0000_0000_0000_0000,
        ;
        lemma_age_beyond_threshold_unsatisfied(birthdate, current_date, legal_age);
    }
}

} // verus!
