//! Rank-1 constraint systems: a table of variables, the values bound to them and an
//! ordered list of constraints `a * b = c` over linear combinations.

use crate::backend::{
    backend_constraints, backend_enforce, backend_input, backend_is_satisfied, backend_new,
    backend_public, backend_witness, backend_witness_variable, BackendSystem,
};
use crate::error::AgeProofError;
use crate::field::{field_mul, FieldElement};
use crate::linear_combination::{
    eval_terms, lemma_eval_unchanged_by_new_slots, terms_bound, Assignment, LinearCombination,
    Variable,
};
use vstd::prelude::*;

verus! {

/// What a constraint system is used for.
#[derive(Clone, Copy, Debug, PartialEq, Eq, Structural)]
pub enum SynthesisMode {
    /// Only the shape of the system matters; values handed to it are discarded.
    Setup,
    /// The system binds a value to every variable and can be checked.
    Prove,
}

/// The mathematical content of a constraint.
#[verifier::ext_equal]
pub struct ConstraintView {
    pub a: Seq<(nat, Variable)>,
    pub b: Seq<(nat, Variable)>,
    pub c: Seq<(nat, Variable)>,
}

impl ConstraintView {
    /// Whether the assignment binds every variable of the constraint.
    pub open spec fn bound(self, assignment: Assignment) -> bool {
        &&& terms_bound(self.a, assignment)
        &&& terms_bound(self.b, assignment)
        &&& terms_bound(self.c, assignment)
    }

    /// Whether `a * b = c` holds in the field under the assignment.
    pub open spec fn holds(self, assignment: Assignment) -> bool {
        field_mul(eval_terms(self.a, assignment), eval_terms(self.b, assignment)) == eval_terms(
            self.c,
            assignment,
        )
    }
}

/// Whether the assignment binds every variable of every constraint.
pub open spec fn constraints_bound(constraints: Seq<ConstraintView>, assignment: Assignment) -> bool {
    forall|i: int| 0 <= i < constraints.len() ==> (#[trigger] constraints[i]).bound(assignment)
}

/// Whether every constraint holds under the assignment.
pub open spec fn constraints_hold(constraints: Seq<ConstraintView>, assignment: Assignment) -> bool {
    forall|i: int| 0 <= i < constraints.len() ==> (#[trigger] constraints[i]).holds(assignment)
}

/// The order of the constraints does not matter for whether they all hold: two sequences
/// with the same members hold under the same assignments.
pub proof fn lemma_constraint_order_irrelevant(
    first: Seq<ConstraintView>,
    second: Seq<ConstraintView>,
    assignment: Assignment,
)
    requires
        forall|constraint: ConstraintView| first.contains(constraint) <==> second.contains(constraint),
    ensures
        constraints_hold(first, assignment) <==> constraints_hold(second, assignment),
{
    if constraints_hold(first, assignment) {
        assert forall|i: int| 0 <= i < second.len() implies (#[trigger] second[i]).holds(
            assignment,
        ) by {
            assert(second.contains(second[i]));
            let j = choose|j: int| 0 <= j < first.len() && first[j] == second[i];
            assert(first[j].holds(assignment));
        }
    }
    if constraints_hold(second, assignment) {
        assert forall|i: int| 0 <= i < first.len() implies (#[trigger] first[i]).holds(
            assignment,
        ) by {
            assert(first.contains(first[i]));
            let j = choose|j: int| 0 <= j < second.len() && second[j] == first[i];
            assert(second[j].holds(assignment));
        }
    }
}

/// New variables leave the constraints as they were: constraints over bound variables
/// hold after an allocation exactly where they held before it.
pub proof fn lemma_new_slots_keep_constraints(
    constraints: Seq<ConstraintView>,
    earlier: Assignment,
    later: Assignment,
)
    requires
        later.extends(earlier),
        constraints_bound(constraints, earlier),
    ensures
        constraints_bound(constraints, later),
        constraints_hold(constraints, later) <==> constraints_hold(constraints, earlier),
{
    assert forall|i: int| 0 <= i < constraints.len() implies (#[trigger] constraints[i]).bound(
        later,
    ) && (constraints[i].holds(later) <==> constraints[i].holds(earlier)) by {
        assert(constraints[i].bound(earlier));
        lemma_eval_unchanged_by_new_slots(constraints[i].a, earlier, later);
        lemma_eval_unchanged_by_new_slots(constraints[i].b, earlier, later);
        lemma_eval_unchanged_by_new_slots(constraints[i].c, earlier, later);
    }
}

/// The assertion that the value of `a` times the value of `b` is the value of `c`.
#[derive(Debug, PartialEq, Eq)]
pub struct Constraint {
    pub a: LinearCombination,
    pub b: LinearCombination,
    pub c: LinearCombination,
}

impl View for Constraint {
    type V = ConstraintView;

    open spec fn view(&self) -> ConstraintView {
        ConstraintView { a: self.a@, b: self.b@, c: self.c@ }
    }
}

impl Clone for Constraint {
    fn clone(&self) -> (r: Constraint)
        ensures
            r@ == self@,
    {
        Constraint { a: self.a.clone(), b: self.b.clone(), c: self.c.clone() }
    }
}

/// The mathematical content of a constraint system.
#[verifier::ext_equal]
pub struct SystemView {
    pub mode: SynthesisMode,
    /// The values of the public variables. Slot 0 is the constant one.
    pub public: Seq<nat>,
    /// The values of the witness variables.
    pub witness: Seq<nat>,
    pub constraints: Seq<ConstraintView>,
}

impl SystemView {
    /// The system that holds no variable but the constant one, and no constraint.
    pub open spec fn empty(mode: SynthesisMode) -> SystemView {
        SystemView { mode, public: seq![1nat], witness: Seq::empty(), constraints: Seq::empty() }
    }

    /// The values bound to the variables.
    pub open spec fn assignment(self) -> Assignment {
        Assignment { public: self.public, witness: self.witness }
    }

    /// The value that a new slot takes: the one given where the system binds values, zero
    /// where it only records its shape.
    pub open spec fn slot_value(self, value: nat) -> nat {
        match self.mode {
            SynthesisMode::Setup => 0,
            SynthesisMode::Prove => value,
        }
    }

    /// The system after one more witness variable.
    pub open spec fn with_witness(self, value: nat) -> SystemView {
        SystemView { witness: self.witness.push(self.slot_value(value)), ..self }
    }

    /// The system after one more public input.
    pub open spec fn with_public_input(self, value: nat) -> SystemView {
        SystemView { public: self.public.push(self.slot_value(value)), ..self }
    }

    /// The system after one more constraint.
    pub open spec fn with_constraint(self, constraint: ConstraintView) -> SystemView {
        SystemView { constraints: self.constraints.push(constraint), ..self }
    }

    /// The invariant of a constraint system: slot 0 of the public part is the constant
    /// one, and every constraint names allocated variables only.
    pub open spec fn well_formed(self) -> bool {
        &&& self.public.len() >= 1
        &&& self.public[0] == 1
        &&& constraints_bound(self.constraints, self.assignment())
    }

    /// Whether the backend can number the linear combinations of the system: three for
    /// each constraint, with a machine word.
    pub open spec fn within_capacity(self) -> bool {
        3 * self.constraints.len() + 3 <= usize::MAX
    }

    /// Whether the values bound to the variables satisfy every constraint.
    pub open spec fn satisfied(self) -> bool {
        constraints_hold(self.constraints, self.assignment())
    }
}

/// A rank-1 constraint system. It owns its variables and its constraints; variables are
/// never removed, and the order of the public inputs and of the constraints is the order
/// in which they were added.
#[derive(Debug, PartialEq, Eq)]
pub struct ConstraintSystem {
    mode: SynthesisMode,
    public: Vec<FieldElement>,
    witness: Vec<FieldElement>,
    constraints: Vec<Constraint>,
}

impl View for ConstraintSystem {
    type V = SystemView;

    closed spec fn view(&self) -> SystemView {
        SystemView {
            mode: self.mode,
            public: Seq::new(self.public@.len(), |i: int| self.public@[i]@),
            witness: Seq::new(self.witness@.len(), |i: int| self.witness@[i]@),
            constraints: Seq::new(self.constraints@.len(), |i: int| self.constraints@[i]@),
        }
    }
}

/// A copy of a vector of field elements.
fn copy_values(values: &Vec<FieldElement>) -> (r: Vec<FieldElement>)
    ensures
        r@ == values@,
{
    let mut copy: Vec<FieldElement> = Vec::new();
    let mut i: usize = 0;
    while i < values.len()
        invariant
            i <= values@.len(),
            copy@ == values@.subrange(0, i as int),
        decreases values@.len() - i,
    {
        copy.push(values[i]);
        assert(copy@ =~= values@.subrange(0, i + 1));
        i = i + 1;
    }
    assert(copy@ =~= values@);
    copy
}

impl Clone for ConstraintSystem {
    fn clone(&self) -> (r: ConstraintSystem)
        ensures
            r@ == self@,
    {
        let mut constraints: Vec<Constraint> = Vec::new();
        let mut i: usize = 0;
        while i < self.constraints.len()
            invariant
                i <= self.constraints@.len(),
                constraints@.len() == i,
                forall|k: int| 0 <= k < i ==> (#[trigger] constraints@[k])@ == self.constraints@[k]@,
            decreases self.constraints@.len() - i,
        {
            constraints.push(self.constraints[i].clone());
            i = i + 1;
        }
        let r = ConstraintSystem {
            mode: self.mode,
            public: copy_values(&self.public),
            witness: copy_values(&self.witness),
            constraints,
        };
        assert(r@ =~~= self@);
        r
    }
}

/// The value that an optional field element stands for: zero where it is absent.
pub open spec fn value_or_zero(value: Option<FieldElement>) -> nat {
    match value {
        Some(v) => v@,
        None => 0,
    }
}

/// Whether the assignment binds every variable of the combination.
fn combination_bound(combination: &LinearCombination, num_public: usize, num_witness: usize) -> (r:
    bool)
    ensures
        r == forall|k: int|
            0 <= k < combination@.len() ==> (#[trigger] combination@[k].1).allocated(
                num_public as nat,
                num_witness as nat,
            ),
{
    let n: usize = combination.len();
    let mut i: usize = 0;
    while i < n
        invariant
            i <= n,
            n == combination@.len(),
            forall|k: int|
                0 <= k < i ==> (#[trigger] combination@[k].1).allocated(
                    num_public as nat,
                    num_witness as nat,
                ),
        decreases n - i,
    {
        let allocated: bool = match combination.term(i).variable {
            Variable::One => true,
            Variable::Public(index) => index < num_public,
            Variable::Witness(index) => index < num_witness,
        };
        if !allocated {
            assert(!combination@[i as int].1.allocated(num_public as nat, num_witness as nat));
            return false;
        }
        i = i + 1;
    }
    true
}

impl ConstraintSystem {
    /// The invariant that every operation keeps.
    pub open spec fn wf(&self) -> bool {
        self@.well_formed()
    }

    /// A system with no variable but the constant one, and no constraint.
    pub fn new(mode: SynthesisMode) -> (r: ConstraintSystem)
        ensures
            r.wf(),
            r@ == SystemView::empty(mode),
    {
        let mut public: Vec<FieldElement> = Vec::new();
        public.push(FieldElement::from_u64(1));
        let r = ConstraintSystem { mode, public, witness: Vec::new(), constraints: Vec::new() };
        assert(r@.public =~= seq![1nat]);
        assert(r@.witness =~= Seq::<nat>::empty());
        assert(r@.constraints =~= Seq::<ConstraintView>::empty());
        r
    }

    /// The mode that the system was made in.
    pub fn mode(&self) -> (r: SynthesisMode)
        ensures
            r == self@.mode,
    {
        self.mode
    }

    /// The number of public inputs, not counting the constant one.
    pub fn num_public_inputs(&self) -> (r: usize)
        requires
            self.wf(),
        ensures
            r == self@.public.len() - 1,
    {
        self.public.len() - 1
    }

    /// The number of witness variables.
    pub fn num_witness_variables(&self) -> (r: usize)
        ensures
            r == self@.witness.len(),
    {
        self.witness.len()
    }

    /// The number of constraints.
    pub fn num_constraints(&self) -> (r: usize)
        ensures
            r == self@.constraints.len(),
    {
        self.constraints.len()
    }

    /// The value in a slot of the public part; slot 0 holds the constant one. In a system
    /// that only records its shape every other slot holds zero.
    pub fn public_value(&self, index: usize) -> (r: FieldElement)
        requires
            index < self@.public.len(),
        ensures
            r@ == self@.public[index as int],
    {
        self.public[index]
    }

    /// The value in a slot of the witness part. In a system that only records its shape
    /// every slot holds zero.
    pub fn witness_value(&self, index: usize) -> (r: FieldElement)
        requires
            index < self@.witness.len(),
        ensures
            r@ == self@.witness[index as int],
    {
        self.witness[index]
    }

    /// The constraint at a position.
    pub fn constraint(&self, index: usize) -> (r: &Constraint)
        requires
            index < self@.constraints.len(),
        ensures
            r@ == self@.constraints[index as int],
    {
        &self.constraints[index]
    }

    /// Reserves a private variable. Where the system binds values the value is required;
    /// where it only records its shape the value is discarded.
    pub fn allocate_witness(&mut self, value: Option<FieldElement>) -> (r: Result<
        Variable,
        AgeProofError,
    >)
        requires
            old(self).wf(),
        ensures
            final(self).wf(),
            r.is_err() <==> old(self)@.mode == SynthesisMode::Prove && value.is_none(),
            match r {
                Ok(variable) => variable == Variable::Witness(old(self)@.witness.len() as usize)
                    && final(self)@ == old(self)@.with_witness(value_or_zero(value)),
                Err(e) => e == AgeProofError::MissingAssignment && final(self)@ == old(self)@,
            },
    {
        let slot: FieldElement = match self.mode {
            SynthesisMode::Setup => FieldElement::from_u64(0),
            SynthesisMode::Prove => match value {
                Some(v) => v,
                None => {
                    return Err(AgeProofError::MissingAssignment);
                },
            },
        };
        let index: usize = self.witness.len();
        self.witness.push(slot);
        proof {
            assert(final(self)@.witness =~= old(self)@.witness.push(slot@));
            assert(final(self)@.public =~= old(self)@.public);
            assert(final(self)@.constraints =~= old(self)@.constraints);
        }
        Ok(Variable::Witness(index))
    }

    /// Reserves a public input, under the same rule for its value as a private variable.
    /// Public inputs keep the order in which they were reserved.
    pub fn allocate_public_input(&mut self, value: Option<FieldElement>) -> (r: Result<
        Variable,
        AgeProofError,
    >)
        requires
            old(self).wf(),
        ensures
            final(self).wf(),
            r.is_err() <==> old(self)@.mode == SynthesisMode::Prove && value.is_none(),
            match r {
                Ok(variable) => variable == Variable::Public(old(self)@.public.len() as usize)
                    && final(self)@ == old(self)@.with_public_input(value_or_zero(value)),
                Err(e) => e == AgeProofError::MissingAssignment && final(self)@ == old(self)@,
            },
    {
        let slot: FieldElement = match self.mode {
            SynthesisMode::Setup => FieldElement::from_u64(0),
            SynthesisMode::Prove => match value {
                Some(v) => v,
                None => {
                    return Err(AgeProofError::MissingAssignment);
                },
            },
        };
        let index: usize = self.public.len();
        self.public.push(slot);
        proof {
            assert(final(self)@.public =~= old(self)@.public.push(slot@));
            assert(final(self)@.witness =~= old(self)@.witness);
            assert(final(self)@.constraints =~= old(self)@.constraints);
        }
        Ok(Variable::Public(index))
    }

    /// Appends the constraint `a * b = c`, unless one of its variables was never allocated
    /// in this system.
    pub fn enforce(&mut self, a: LinearCombination, b: LinearCombination, c: LinearCombination) -> (r:
        Result<(), AgeProofError>)
        requires
            old(self).wf(),
        ensures
            final(self).wf(),
            r.is_ok() <==> (ConstraintView { a: a@, b: b@, c: c@ }).bound(old(self)@.assignment()),
            match r {
                Ok(_) => final(self)@ == old(self)@.with_constraint(
                    (ConstraintView { a: a@, b: b@, c: c@ }),
                ),
                Err(e) => e == AgeProofError::InvalidVariable && final(self)@ == old(self)@,
            },
    {
        let num_public: usize = self.public.len();
        let num_witness: usize = self.witness.len();
        let bound: bool = combination_bound(&a, num_public, num_witness) && combination_bound(
            &b,
            num_public,
            num_witness,
        ) && combination_bound(&c, num_public, num_witness);
        if !bound {
            return Err(AgeProofError::InvalidVariable);
        }
        self.constraints.push(Constraint { a, b, c });
        proof {
            assert(final(self)@.public =~= old(self)@.public);
            assert(final(self)@.witness =~= old(self)@.witness);
            assert(final(self)@.constraints =~= old(self)@.constraints.push(
                ConstraintView { a: a@, b: b@, c: c@ },
            ));
        }
        Ok(())
    }

    /// A backend system that holds the variables and the constraints of this one, where
    /// the backend can number them.
    pub(crate) fn mirror(&self) -> (r: Option<BackendSystem>)
        requires
            self.wf(),
        ensures
            r.is_some() <==> self@.within_capacity(),
            r matches Some(backend) ==> backend_public(backend) == self@.public && backend_witness(
                backend,
            ) == self@.witness && backend_constraints(backend) == self@.constraints,
    {
        if self.constraints.len() > (usize::MAX - 3) / 3 {
            return None;
        }
        let mut backend = backend_new();
        let num_public: usize = self.public.len();
        let mut i: usize = 1;
        assert(backend_public(backend) =~= self@.public.subrange(0, 1));
        while i < num_public
            invariant
                1 <= i <= num_public,
                num_public == self.public@.len(),
                backend_public(backend) == self@.public.subrange(0, i as int),
                backend_witness(backend) == Seq::<nat>::empty(),
                backend_constraints(backend) == Seq::<ConstraintView>::empty(),
            decreases num_public - i,
        {
            let _ = backend_input(&mut backend, self.public[i]);
            assert(self@.public.subrange(0, i as int).push(self@.public[i as int])
                =~= self@.public.subrange(0, i + 1));
            i = i + 1;
        }
        assert(self@.public.subrange(0, num_public as int) =~= self@.public);
        let num_witness: usize = self.witness.len();
        let mut j: usize = 0;
        assert(backend_witness(backend) =~= self@.witness.subrange(0, 0));
        while j < num_witness
            invariant
                j <= num_witness,
                num_witness == self.witness@.len(),
                backend_public(backend) == self@.public,
                backend_witness(backend) == self@.witness.subrange(0, j as int),
                backend_constraints(backend) == Seq::<ConstraintView>::empty(),
            decreases num_witness - j,
        {
            let _ = backend_witness_variable(&mut backend, self.witness[j]);
            assert(self@.witness.subrange(0, j as int).push(self@.witness[j as int])
                =~= self@.witness.subrange(0, j + 1));
            j = j + 1;
        }
        assert(self@.witness.subrange(0, num_witness as int) =~= self@.witness);
        let num_constraints: usize = self.constraints.len();
        let mut k: usize = 0;
        assert(backend_constraints(backend) =~= self@.constraints.subrange(0, 0));
        while k < num_constraints
            invariant
                k <= num_constraints,
                num_constraints == self.constraints@.len(),
                3 * num_constraints + 3 <= usize::MAX,
                backend_public(backend) == self@.public,
                backend_witness(backend) == self@.witness,
                backend_constraints(backend) == self@.constraints.subrange(0, k as int),
            decreases num_constraints - k,
        {
            let constraint = &self.constraints[k];
            let _ = backend_enforce(&mut backend, &constraint.a, &constraint.b, &constraint.c);
            assert(self@.constraints.subrange(0, k as int).push(self@.constraints[k as int])
                =~= self@.constraints.subrange(0, k + 1));
            k = k + 1;
        }
        assert(self@.constraints.subrange(0, num_constraints as int) =~= self@.constraints);
        Some(backend)
    }

    /// Whether the values bound to the variables satisfy every constraint. A system that
    /// holds no witness cannot tell.
    pub fn is_satisfied(&self) -> (r: Result<bool, AgeProofError>)
        requires
            self.wf(),
        ensures
            r.is_ok() <==> self@.mode == SynthesisMode::Prove && self@.within_capacity(),
            match r {
                Ok(satisfied) => satisfied == self@.satisfied(),
                Err(e) => e == AgeProofError::EvaluationError,
            },
    {
        match self.mode {
            SynthesisMode::Setup => Err(AgeProofError::EvaluationError),
            SynthesisMode::Prove => match self.mirror() {
                None => Err(AgeProofError::EvaluationError),
                Some(backend) => match backend_is_satisfied(&backend) {
                    Ok(satisfied) => Ok(satisfied),
                    Err(_) => Err(AgeProofError::EvaluationError),
                },
            },
        }
    }
}

} // verus!
