//! Variables of a constraint system and linear combinations over them.

use crate::field::{
    field_add, field_mul, field_neg, lemma_field_add_associative, lemma_field_closed,
    lemma_field_commutative, lemma_field_distributive, lemma_field_identities,
    lemma_field_mul_associative, lemma_field_negation, modulus, FieldElement,
};
use vstd::prelude::*;

verus! {

/// A handle into a constraint system, tagged by visibility.
///
/// `Public(i)` is slot `i` of the public part of the assignment and `Witness(i)` slot `i`
/// of the private part. Slot 0 of the public part always holds the constant one, so the
/// public inputs that a system hands out start at `Public(1)`.
#[derive(Clone, Copy, Debug, PartialEq, Eq, Structural)]
pub enum Variable {
    /// The constant one.
    One,
    /// A variable that the verifier knows.
    Public(usize),
    /// A variable that only the prover knows.
    Witness(usize),
}

impl Variable {
    /// Whether the variable is a slot of a system with the given numbers of public and of
    /// witness slots.
    pub open spec fn allocated(self, num_public: nat, num_witness: nat) -> bool {
        match self {
            Variable::One => true,
            Variable::Public(i) => i < num_public,
            Variable::Witness(i) => i < num_witness,
        }
    }
}

/// The values bound to the variables of a constraint system.
#[verifier::ext_equal]
pub struct Assignment {
    /// The public part; slot 0 is the constant one.
    pub public: Seq<nat>,
    /// The private part.
    pub witness: Seq<nat>,
}

impl Assignment {
    /// Whether the assignment binds the variable.
    pub open spec fn binds(self, variable: Variable) -> bool {
        variable.allocated(self.public.len(), self.witness.len())
    }

    /// Whether this assignment binds every variable of `earlier` to the same value, and
    /// maybe more variables after them.
    pub open spec fn extends(self, earlier: Assignment) -> bool {
        earlier.public.is_prefix_of(self.public) && earlier.witness.is_prefix_of(self.witness)
    }

    /// The value of a variable under the assignment.
    pub open spec fn value(self, variable: Variable) -> nat {
        match variable {
            Variable::One => 1,
            Variable::Public(i) => self.public[i as int],
            Variable::Witness(i) => self.witness[i as int],
        }
    }
}

/// One summand of a linear combination: a coefficient times a variable.
#[derive(Clone, Copy, Debug, PartialEq, Eq)]
pub struct Term {
    pub coefficient: FieldElement,
    pub variable: Variable,
}

impl View for Term {
    type V = (nat, Variable);

    open spec fn view(&self) -> (nat, Variable) {
        (self.coefficient@, self.variable)
    }
}

/// Whether every term of the sequence names a variable that the assignment binds.
pub open spec fn terms_bound(terms: Seq<(nat, Variable)>, assignment: Assignment) -> bool {
    forall|i: int| 0 <= i < terms.len() ==> assignment.binds(#[trigger] terms[i].1)
}

/// The value of a sequence of terms under an assignment: the sum, in the field, of each
/// coefficient times the value of its variable.
pub open spec fn eval_terms(terms: Seq<(nat, Variable)>, assignment: Assignment) -> nat
    decreases terms.len(),
{
    if terms.len() == 0 {
        0
    } else {
        field_add(
            eval_terms(terms.drop_last(), assignment),
            field_mul(terms.last().0, assignment.value(terms.last().1)),
        )
    }
}

/// The terms with every coefficient multiplied, in the field, by `factor`.
pub open spec fn scaled_terms(terms: Seq<(nat, Variable)>, factor: nat) -> Seq<(nat, Variable)> {
    Seq::new(terms.len(), |i: int| (field_mul(terms[i].0, factor), terms[i].1))
}

/// The terms with every coefficient negated in the field.
pub open spec fn negated_terms(terms: Seq<(nat, Variable)>) -> Seq<(nat, Variable)> {
    Seq::new(terms.len(), |i: int| (field_neg(terms[i].0), terms[i].1))
}

/// The value of a sequence of terms is below the modulus.
pub proof fn lemma_eval_below_modulus(terms: Seq<(nat, Variable)>, assignment: Assignment)
    ensures
        eval_terms(terms, assignment) < modulus(),
    decreases terms.len(),
{
    if terms.len() > 0 {
        lemma_field_closed(
            eval_terms(terms.drop_last(), assignment),
            field_mul(terms.last().0, assignment.value(terms.last().1)),
        );
    }
}

/// New variables leave the value of a combination as it was: the value depends on the
/// variables that the combination names, and these keep their values.
pub proof fn lemma_eval_unchanged_by_new_slots(
    terms: Seq<(nat, Variable)>,
    earlier: Assignment,
    later: Assignment,
)
    requires
        later.extends(earlier),
        terms_bound(terms, earlier),
    ensures
        terms_bound(terms, later),
        eval_terms(terms, later) == eval_terms(terms, earlier),
    decreases terms.len(),
{
    if terms.len() > 0 {
        assert(earlier.binds(terms[terms.len() - 1].1));
        assert forall|i: int| 0 <= i < terms.drop_last().len() implies earlier.binds(
            #[trigger] terms.drop_last()[i].1,
        ) by {
            assert(terms.drop_last()[i] == terms[i]);
        }
        lemma_eval_unchanged_by_new_slots(terms.drop_last(), earlier, later);
        assert forall|i: int| 0 <= i < terms.len() implies later.binds(#[trigger] terms[i].1) by {
            assert(earlier.binds(terms[i].1));
        }
    }
}

/// The value of a sum of two combinations is the sum of their values.
pub proof fn lemma_eval_sum(
    left: Seq<(nat, Variable)>,
    right: Seq<(nat, Variable)>,
    assignment: Assignment,
)
    ensures
        eval_terms(left + right, assignment) == field_add(
            eval_terms(left, assignment),
            eval_terms(right, assignment),
        ),
    decreases right.len(),
{
    if right.len() == 0 {
        assert(left + right =~= left);
        lemma_eval_below_modulus(left, assignment);
        lemma_field_identities(eval_terms(left, assignment));
    } else {
        assert((left + right).drop_last() =~= left + right.drop_last());
        assert((left + right).last() == right.last());
        lemma_eval_sum(left, right.drop_last(), assignment);
        lemma_field_add_associative(
            eval_terms(left, assignment),
            eval_terms(right.drop_last(), assignment),
            field_mul(right.last().0, assignment.value(right.last().1)),
        );
    }
}

/// The value of a scaled combination is the factor times the value of the combination.
pub proof fn lemma_eval_scaled(terms: Seq<(nat, Variable)>, factor: nat, assignment: Assignment)
    ensures
        eval_terms(scaled_terms(terms, factor), assignment) == field_mul(
            factor,
            eval_terms(terms, assignment),
        ),
    decreases terms.len(),
{
    let scaled = scaled_terms(terms, factor);
    if terms.len() == 0 {
        assert(factor * 0 == 0) by (nonlinear_arith);
    } else {
        let coefficient = terms.last().0;
        let value = assignment.value(terms.last().1);
        assert(scaled.drop_last() =~= scaled_terms(terms.drop_last(), factor));
        assert(scaled.last() == (field_mul(coefficient, factor), terms.last().1));
        lemma_eval_scaled(terms.drop_last(), factor, assignment);
        lemma_field_commutative(coefficient, factor);
        lemma_field_mul_associative(factor, coefficient, value);
        lemma_field_distributive(
            factor,
            eval_terms(terms.drop_last(), assignment),
            field_mul(coefficient, value),
        );
    }
}

/// The value of a negated combination is the negation of the value of the combination.
pub proof fn lemma_eval_negated(terms: Seq<(nat, Variable)>, assignment: Assignment)
    ensures
        eval_terms(negated_terms(terms), assignment) == field_neg(eval_terms(terms, assignment)),
    decreases terms.len(),
{
    let negated = negated_terms(terms);
    if terms.len() > 0 {
        let coefficient = terms.last().0;
        let value = assignment.value(terms.last().1);
        assert(negated.drop_last() =~= negated_terms(terms.drop_last()));
        assert(negated.last() == (field_neg(coefficient), terms.last().1));
        lemma_eval_negated(terms.drop_last(), assignment);
        lemma_field_negation(coefficient, value);
        lemma_field_negation(
            eval_terms(terms.drop_last(), assignment),
            field_mul(coefficient, value),
        );
    }
}

/// The value of one combination plus the negation of another is the difference of their
/// values.
pub proof fn lemma_eval_difference(
    left: Seq<(nat, Variable)>,
    right: Seq<(nat, Variable)>,
    assignment: Assignment,
)
    ensures
        eval_terms(left + negated_terms(right), assignment) == crate::field::field_sub(
            eval_terms(left, assignment),
            eval_terms(right, assignment),
        ),
{
    lemma_eval_sum(left, negated_terms(right), assignment);
    lemma_eval_negated(right, assignment);
    lemma_field_negation(eval_terms(left, assignment), eval_terms(right, assignment));
}

/// A sum of terms. A variable may occur in several terms; its coefficient is then the sum
/// of theirs, and a variable that occurs in none has coefficient zero.
#[derive(Debug, PartialEq, Eq)]
pub struct LinearCombination {
    pub(crate) terms: Vec<Term>,
}

impl View for LinearCombination {
    type V = Seq<(nat, Variable)>;

    closed spec fn view(&self) -> Seq<(nat, Variable)> {
        Seq::new(self.terms@.len(), |i: int| self.terms@[i]@)
    }
}

impl Clone for LinearCombination {
    fn clone(&self) -> (r: LinearCombination)
        ensures
            r@ == self@,
    {
        let r = self.add(&LinearCombination::zero());
        assert(r@ =~= self@);
        r
    }
}

impl LinearCombination {
    /// The empty combination, whose value is zero under every assignment.
    pub fn zero() -> (r: LinearCombination)
        ensures
            r@ == Seq::<(nat, Variable)>::empty(),
    {
        let r = LinearCombination { terms: Vec::new() };
        assert(r@ =~= Seq::<(nat, Variable)>::empty());
        r
    }

    /// The number of terms.
    pub fn len(&self) -> (r: usize)
        ensures
            r == self@.len(),
    {
        self.terms.len()
    }

    /// The term at a position.
    pub fn term(&self, index: usize) -> (r: Term)
        requires
            index < self@.len(),
        ensures
            r@ == self@[index as int],
    {
        self.terms[index]
    }

    /// This combination plus `coefficient` times `variable`.
    pub fn plus_term(self, coefficient: FieldElement, variable: Variable) -> (r: LinearCombination)
        ensures
            r@ == self@.push((coefficient@, variable)),
    {
        let mut terms = self.terms;
        terms.push(Term { coefficient, variable });
        let r = LinearCombination { terms };
        assert(r@ =~= self@.push((coefficient@, variable)));
        r
    }

    /// This combination plus `variable`.
    pub fn plus(self, variable: Variable) -> (r: LinearCombination)
        ensures
            r@ == self@.push((1nat, variable)),
    {
        self.plus_term(FieldElement::from_u64(1), variable)
    }

    /// This combination minus `variable`.
    pub fn minus(self, variable: Variable) -> (r: LinearCombination)
        ensures
            r@ == self@.push((field_neg(1), variable)),
    {
        self.plus_term(FieldElement::one().neg(), variable)
    }

    /// The sum of the two combinations: the terms of this one, then those of the other.
    pub fn add(&self, other: &LinearCombination) -> (r: LinearCombination)
        ensures
            r@ == self@ + other@,
    {
        let mut terms: Vec<Term> = Vec::new();
        let mut i: usize = 0;
        while i < self.terms.len()
            invariant
                i <= self.terms@.len(),
                terms@ == self.terms@.subrange(0, i as int),
            decreases self.terms@.len() - i,
        {
            terms.push(self.terms[i]);
            assert(terms@ =~= self.terms@.subrange(0, i + 1));
            i = i + 1;
        }
        let mut j: usize = 0;
        while j < other.terms.len()
            invariant
                j <= other.terms@.len(),
                terms@ == self.terms@ + other.terms@.subrange(0, j as int),
            decreases other.terms@.len() - j,
        {
            terms.push(other.terms[j]);
            assert(terms@ =~= self.terms@ + other.terms@.subrange(0, j + 1));
            j = j + 1;
        }
        let r = LinearCombination { terms };
        assert(r@ =~= self@ + other@);
        r
    }

    /// The combination with every coefficient multiplied by `factor`.
    pub fn scale(&self, factor: FieldElement) -> (r: LinearCombination)
        ensures
            r@ == scaled_terms(self@, factor@),
    {
        let mut terms: Vec<Term> = Vec::new();
        let mut i: usize = 0;
        while i < self.terms.len()
            invariant
                i <= self.terms@.len(),
                terms@.len() == i,
                forall|k: int|
                    0 <= k < i ==> (#[trigger] terms@[k])@ == (
                        field_mul(self.terms@[k].coefficient@, factor@),
                        self.terms@[k].variable,
                    ),
            decreases self.terms@.len() - i,
        {
            let term = self.terms[i];
            terms.push(
                Term { coefficient: term.coefficient.mul(&factor), variable: term.variable },
            );
            i = i + 1;
        }
        let r = LinearCombination { terms };
        assert(r@ =~= scaled_terms(self@, factor@));
        r
    }

    /// The combination with every coefficient negated.
    pub fn negate(&self) -> (r: LinearCombination)
        ensures
            r@ == negated_terms(self@),
    {
        let mut terms: Vec<Term> = Vec::new();
        let mut i: usize = 0;
        while i < self.terms.len()
            invariant
                i <= self.terms@.len(),
                terms@.len() == i,
                forall|k: int|
                    0 <= k < i ==> (#[trigger] terms@[k])@ == (
                        field_neg(self.terms@[k].coefficient@),
                        self.terms@[k].variable,
                    ),
            decreases self.terms@.len() - i,
        {
            let term = self.terms[i];
            terms.push(Term { coefficient: term.coefficient.neg(), variable: term.variable });
            i = i + 1;
        }
        let r = LinearCombination { terms };
        assert(r@ =~= negated_terms(self@));
        r
    }

    /// The difference of the two combinations: the terms of this one, then those of the
    /// other, negated.
    pub fn sub(&self, other: &LinearCombination) -> (r: LinearCombination)
        ensures
            r@ == self@ + negated_terms(other@),
    {
        let negated = other.negate();
        self.add(&negated)
    }
}

} // verus!
