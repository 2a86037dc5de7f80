use zk_age_verification::field::FieldElement;
use zk_age_verification::linear_combination::{LinearCombination, Term, Variable};

fn terms(combination: &LinearCombination) -> Vec<(FieldElement, Variable)> {
    let mut terms = Vec::new();
    for i in 0..combination.len() {
        let Term { coefficient, variable } = combination.term(i);
        terms.push((coefficient, variable));
    }
    terms
}

fn minus(value: u64) -> FieldElement {
    FieldElement::from_u64(value).neg()
}

#[test]
fn empty_combination_has_no_terms() {
    let zero = LinearCombination::zero();
    assert_eq!(zero.len(), 0);
    assert_eq!(terms(&zero), vec![]);
}

#[test]
fn plus_and_minus_append_terms_in_order() {
    let combination =
        LinearCombination::zero().plus(Variable::Witness(1)).minus(Variable::Witness(0));
    assert_eq!(
        terms(&combination),
        vec![(FieldElement::one(), Variable::Witness(1)), (minus(1), Variable::Witness(0))]
    );
}

#[test]
fn plus_term_appends_the_given_coefficient() {
    let combination = LinearCombination::zero()
        .plus_term(FieldElement::from_u64(7), Variable::Public(1))
        .plus_term(FieldElement::from_u64(9), Variable::One);
    assert_eq!(combination.len(), 2);
    assert_eq!(
        combination.term(0),
        Term { coefficient: FieldElement::from_u64(7), variable: Variable::Public(1) }
    );
    assert_eq!(
        combination.term(1),
        Term { coefficient: FieldElement::from_u64(9), variable: Variable::One }
    );
}

#[test]
fn sum_concatenates_the_terms() {
    let left = LinearCombination::zero().plus(Variable::Witness(0)).plus(Variable::One);
    let right = LinearCombination::zero().plus_term(FieldElement::from_u64(3), Variable::Witness(0));
    let sum = left.add(&right);
    assert_eq!(
        terms(&sum),
        vec![
            (FieldElement::one(), Variable::Witness(0)),
            (FieldElement::one(), Variable::One),
            (FieldElement::from_u64(3), Variable::Witness(0)),
        ]
    );
    assert_eq!(terms(&left.add(&LinearCombination::zero())), terms(&left));
    assert_eq!(terms(&LinearCombination::zero().add(&right)), terms(&right));
}

#[test]
fn difference_appends_the_negated_terms() {
    let left = LinearCombination::zero().plus(Variable::Witness(2));
    let right = LinearCombination::zero()
        .plus_term(FieldElement::from_u64(3), Variable::Public(1))
        .minus(Variable::One);
    let difference = left.sub(&right);
    assert_eq!(
        terms(&difference),
        vec![
            (FieldElement::one(), Variable::Witness(2)),
            (minus(3), Variable::Public(1)),
            (FieldElement::one(), Variable::One),
        ]
    );
}

#[test]
fn scaling_multiplies_every_coefficient() {
    let combination = LinearCombination::zero()
        .plus_term(FieldElement::from_u64(3), Variable::Witness(0))
        .minus(Variable::Witness(1))
        .plus_term(FieldElement::zero(), Variable::One);
    let scaled = combination.scale(FieldElement::from_u64(5));
    assert_eq!(
        terms(&scaled),
        vec![
            (FieldElement::from_u64(15), Variable::Witness(0)),
            (minus(5), Variable::Witness(1)),
            (FieldElement::zero(), Variable::One),
        ]
    );
    assert_eq!(terms(&combination.scale(FieldElement::one())), terms(&combination));
}

#[test]
fn negation_negates_every_coefficient() {
    let combination = LinearCombination::zero()
        .plus_term(FieldElement::from_u64(3), Variable::Witness(0))
        .minus(Variable::Witness(1));
    let negated = combination.negate();
    assert_eq!(
        terms(&negated),
        vec![(minus(3), Variable::Witness(0)), (FieldElement::one(), Variable::Witness(1))]
    );
    assert_eq!(terms(&negated.negate()), terms(&combination));
}

#[test]
fn clone_keeps_the_terms() {
    let combination = LinearCombination::zero()
        .plus_term(FieldElement::from_u64(3), Variable::Witness(0))
        .minus(Variable::Witness(1));
    let copy = combination.clone();
    assert_eq!(copy, combination);
    assert_eq!(terms(&copy), terms(&combination));
    assert_eq!(terms(&LinearCombination::zero().clone()), vec![]);
}
