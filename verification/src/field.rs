//! Elements of the BLS12-381 scalar field, held as four little-endian 64-bit limbs.

use ark_bls12_381::Fr;
use ark_ff::{BigInt, PrimeField};
use vstd::arithmetic::div_mod::{
    lemma_add_mod_noop, lemma_fundamental_div_mod_converse_div,
    lemma_fundamental_div_mod_converse_mod, lemma_mod_bound, lemma_mul_mod_noop_general,
    lemma_small_mod, lemma_sub_mod_noop,
};
use vstd::prelude::*;

verus! {

/// The order of the BLS12-381 scalar field.
pub open spec fn modulus() -> nat {
    52435875175126190479447740508185965837690552500527637822603658699938581184513nat
}

/// Addition in the field.
pub open spec fn field_add(a: nat, b: nat) -> nat {
    (a + b) % modulus()
}

/// Subtraction in the field.
pub open spec fn field_sub(a: nat, b: nat) -> nat {
    ((a - b) % (modulus() as int)) as nat
}

/// Multiplication in the field.
pub open spec fn field_mul(a: nat, b: nat) -> nat {
    (a * b) % modulus()
}

/// Negation in the field.
pub open spec fn field_neg(a: nat) -> nat {
    field_sub(0, a)
}

/// The results of the field operations are below the modulus.
pub proof fn lemma_field_closed(a: nat, b: nat)
    ensures
        field_add(a, b) < modulus(),
        field_sub(a, b) < modulus(),
        field_mul(a, b) < modulus(),
        field_neg(a) < modulus(),
{
    let m = modulus() as int;
    lemma_mod_bound((a + b) as int, m);
    lemma_mod_bound(a - b, m);
    lemma_mod_bound((a * b) as int, m);
    lemma_mod_bound(0 - a, m);
}

/// Zero is neutral for addition and one for multiplication, on values below the modulus.
pub proof fn lemma_field_identities(a: nat)
    requires
        a < modulus(),
    ensures
        field_add(a, 0) == a,
        field_add(0, a) == a,
        field_sub(a, 0) == a,
        field_mul(a, 1) == a,
        field_mul(1, a) == a,
        field_mul(a, 0) == 0,
        field_mul(0, a) == 0,
        field_sub(a, a) == 0,
{
    lemma_small_mod(a, modulus());
    lemma_small_mod(0, modulus());
    assert(a * 1 == a && 1 * a == a && a * 0 == 0 && 0 * a == 0) by (nonlinear_arith);
}

/// Addition and multiplication in the field are commutative.
pub proof fn lemma_field_commutative(a: nat, b: nat)
    ensures
        field_add(a, b) == field_add(b, a),
        field_mul(a, b) == field_mul(b, a),
{
    assert(a * b == b * a) by (nonlinear_arith);
}

/// Addition in the field is associative.
pub proof fn lemma_field_add_associative(a: nat, b: nat, c: nat)
    ensures
        field_add(field_add(a, b), c) == field_add(a, field_add(b, c)),
{
    let m = modulus() as int;
    let (x, y, z) = (a as int, b as int, c as int);
    lemma_add_mod_noop(x + y, z, m);
    lemma_add_mod_noop(x, y + z, m);
    lemma_mod_twice(x + y);
    lemma_mod_twice(y + z);
    lemma_add_mod_noop((x + y) % m, z, m);
    lemma_add_mod_noop(x, (y + z) % m, m);
}

/// Multiplication in the field is associative.
pub proof fn lemma_field_mul_associative(a: nat, b: nat, c: nat)
    ensures
        field_mul(field_mul(a, b), c) == field_mul(a, field_mul(b, c)),
{
    let m = modulus() as int;
    let (x, y, z) = (a as int, b as int, c as int);
    lemma_mul_mod_noop_general(x * y, z, m);
    lemma_mul_mod_noop_general(x, y * z, m);
    assert((x * y) * z == x * (y * z)) by (nonlinear_arith);
}

/// Multiplication in the field distributes over addition.
pub proof fn lemma_field_distributive(a: nat, b: nat, c: nat)
    ensures
        field_mul(a, field_add(b, c)) == field_add(field_mul(a, b), field_mul(a, c)),
{
    let m = modulus() as int;
    let (x, y, z) = (a as int, b as int, c as int);
    lemma_mul_mod_noop_general(x, y + z, m);
    lemma_add_mod_noop(x * y, x * z, m);
    assert(x * (y + z) == x * y + x * z) by (nonlinear_arith);
}

/// Subtracting is adding the negation, and negation goes through sums and products.
pub proof fn lemma_field_negation(a: nat, b: nat)
    ensures
        field_add(a, field_neg(b)) == field_sub(a, b),
        field_add(field_neg(a), field_neg(b)) == field_neg(field_add(a, b)),
        field_mul(field_neg(a), b) == field_neg(field_mul(a, b)),
{
    let m = modulus() as int;
    let (x, y) = (a as int, b as int);
    lemma_add_mod_noop(x, 0 - y, m);
    lemma_add_mod_noop(x, (0 - y) % m, m);
    lemma_mod_twice(0 - y);
    assert(x + (0 - y) == x - y);
    lemma_add_mod_noop(0 - x, 0 - y, m);
    lemma_sub_mod_noop(0, x + y, m);
    lemma_small_mod(0, modulus());
    assert((0 - x) + (0 - y) == 0 - (x + y));
    lemma_mul_mod_noop_general(0 - x, y, m);
    lemma_sub_mod_noop(0, x * y, m);
    assert((0 - x) * y == 0 - x * y) by (nonlinear_arith);
}

/// Reducing twice is reducing once.
proof fn lemma_mod_twice(x: int)
    ensures
        (x % (modulus() as int)) % (modulus() as int) == x % (modulus() as int),
{
    let m = modulus() as int;
    lemma_mod_bound(x, m);
    lemma_small_mod((x % m) as nat, modulus());
}

/// The number that four little-endian 64-bit limbs stand for.
pub open spec fn limbs_value(l0: u64, l1: u64, l2: u64, l3: u64) -> nat {
    (l0 + l1 * 0x1_0000_0000_0000_0000 + l2 * 0x1_0000_0000_0000_0000_0000_0000_0000_0000 + l3
        * 0x1_0000_0000_0000_0000_0000_0000_0000_0000_0000_0000_0000_0000) as nat
}

/// The lowest limb and the number that the upper three limbs stand for are determined by
/// the number that the four limbs stand for.
proof fn lemma_lowest_limb(low: u64, upper: int, other_low: u64, other_upper: int)
    requires
        low + upper * 0x1_0000_0000_0000_0000int == other_low + other_upper
            * 0x1_0000_0000_0000_0000int,
    ensures
        low == other_low,
        upper == other_upper,
{
    let base: int = 0x1_0000_0000_0000_0000int;
    let value = low + upper * base;
    lemma_fundamental_div_mod_converse_mod(value, base, upper, low as int);
    lemma_fundamental_div_mod_converse_mod(value, base, other_upper, other_low as int);
    lemma_fundamental_div_mod_converse_div(value, base, upper, low as int);
    lemma_fundamental_div_mod_converse_div(value, base, other_upper, other_low as int);
}

/// Limbs that stand for the same number are the same limbs.
proof fn lemma_limbs_injective(a0: u64, a1: u64, a2: u64, a3: u64, b0: u64, b1: u64, b2: u64, b3: u64)
    requires
        limbs_value(a0, a1, a2, a3) == limbs_value(b0, b1, b2, b3),
    ensures
        a0 == b0,
        a1 == b1,
        a2 == b2,
        a3 == b3,
{
    let base: int = 0x1_0000_0000_0000_0000int;
    assert(base * base == 0x1_0000_0000_0000_0000_0000_0000_0000_0000int);
    assert(base * base * base == 0x1_0000_0000_0000_0000_0000_0000_0000_0000_0000_0000_0000_0000int);
    let a_upper: int = a1 + (a2 + a3 * base) * base;
    let b_upper: int = b1 + (b2 + b3 * base) * base;
    assert(limbs_value(a0, a1, a2, a3) == a0 + a_upper * base) by (nonlinear_arith)
        requires
            limbs_value(a0, a1, a2, a3) == a0 + a1 * base + a2 * (base * base) + a3 * (base * base
                * base),
            a_upper == a1 + (a2 + a3 * base) * base,
    ;
    assert(limbs_value(b0, b1, b2, b3) == b0 + b_upper * base) by (nonlinear_arith)
        requires
            limbs_value(b0, b1, b2, b3) == b0 + b1 * base + b2 * (base * base) + b3 * (base * base
                * base),
            b_upper == b1 + (b2 + b3 * base) * base,
    ;
    lemma_lowest_limb(a0, a_upper, b0, b_upper);
    lemma_lowest_limb(a1, a2 + a3 * base, b1, b2 + b3 * base);
    lemma_lowest_limb(a2, a3 as int, b2, b3 as int);
}

const MODULUS_LIMB_0: u64 = 0xffff_ffff_0000_0001;

const MODULUS_LIMB_1: u64 = 0x53bd_a402_fffe_5bfe;

const MODULUS_LIMB_2: u64 = 0x3339_d808_09a1_d805;

const MODULUS_LIMB_3: u64 = 0x73ed_a753_299d_7d48;

/// An element of the scalar field in canonical form: its value is below the modulus.
#[derive(Clone, Copy, Debug, PartialEq, Eq, Structural)]
pub struct FieldElement {
    pub(crate) l0: u64,
    pub(crate) l1: u64,
    pub(crate) l2: u64,
    pub(crate) l3: u64,
}

/// Calls the addition of `ark_ff` on the two elements. The contract claims that it adds
/// the canonical values modulo the field order.
#[verifier::external_body]
fn backend_add(a: FieldElement, b: FieldElement) -> (r: FieldElement)
    ensures
        r@ == (a@ + b@) % modulus(),
{
    let x = Fr::from(BigInt::new([a.l0, a.l1, a.l2, a.l3]));
    let y = Fr::from(BigInt::new([b.l0, b.l1, b.l2, b.l3]));
    let BigInt([l0, l1, l2, l3]) = (x + y).into_bigint();
    FieldElement { l0, l1, l2, l3 }
}

/// Calls the subtraction of `ark_ff` on the two elements. The contract claims that it
/// subtracts the canonical values modulo the field order.
#[verifier::external_body]
fn backend_sub(a: FieldElement, b: FieldElement) -> (r: FieldElement)
    ensures
        r@ == (a@ - b@) % (modulus() as int),
{
    let x = Fr::from(BigInt::new([a.l0, a.l1, a.l2, a.l3]));
    let y = Fr::from(BigInt::new([b.l0, b.l1, b.l2, b.l3]));
    let BigInt([l0, l1, l2, l3]) = (x - y).into_bigint();
    FieldElement { l0, l1, l2, l3 }
}

/// Calls the multiplication of `ark_ff` on the two elements. The contract claims that it
/// multiplies the canonical values modulo the field order.
#[verifier::external_body]
fn backend_mul(a: FieldElement, b: FieldElement) -> (r: FieldElement)
    ensures
        r@ == (a@ * b@) % modulus(),
{
    let x = Fr::from(BigInt::new([a.l0, a.l1, a.l2, a.l3]));
    let y = Fr::from(BigInt::new([b.l0, b.l1, b.l2, b.l3]));
    let BigInt([l0, l1, l2, l3]) = (x * y).into_bigint();
    FieldElement { l0, l1, l2, l3 }
}

impl View for FieldElement {
    type V = nat;

    closed spec fn view(&self) -> nat {
        limbs_value(self.l0, self.l1, self.l2, self.l3)
    }
}

impl FieldElement {
    #[verifier::type_invariant]
    spec fn canonical(self) -> bool {
        limbs_value(self.l0, self.l1, self.l2, self.l3) < modulus()
    }

    /// Two elements with the same value are the same element.
    pub proof fn lemma_equal_values(self, other: FieldElement)
        ensures
            self@ == other@ <==> self == other,
    {
        if self@ == other@ {
            lemma_limbs_injective(
                self.l0,
                self.l1,
                self.l2,
                self.l3,
                other.l0,
                other.l1,
                other.l2,
                other.l3,
            );
        }
    }

    /// The element that stands for a native unsigned integer.
    pub fn from_u64(value: u64) -> (r: FieldElement)
        ensures
            r@ == value,
    {
        FieldElement { l0: value, l1: 0, l2: 0, l3: 0 }
    }

    /// The additive identity.
    pub fn zero() -> (r: FieldElement)
        ensures
            r@ == 0,
    {
        FieldElement::from_u64(0)
    }

    /// The multiplicative identity.
    pub fn one() -> (r: FieldElement)
        ensures
            r@ == 1,
    {
        FieldElement::from_u64(1)
    }

    /// The sum of the two elements in the field.
    pub fn add(&self, other: &FieldElement) -> (r: FieldElement)
        ensures
            r@ == field_add(self@, other@),
    {
        backend_add(*self, *other)
    }

    /// The difference of the two elements in the field.
    pub fn sub(&self, other: &FieldElement) -> (r: FieldElement)
        ensures
            r@ == field_sub(self@, other@),
    {
        backend_sub(*self, *other)
    }

    /// The product of the two elements in the field.
    pub fn mul(&self, other: &FieldElement) -> (r: FieldElement)
        ensures
            r@ == field_mul(self@, other@),
    {
        backend_mul(*self, *other)
    }

    /// The negation of the element in the field.
    pub fn neg(&self) -> (r: FieldElement)
        ensures
            r@ == field_neg(self@),
    {
        backend_sub(FieldElement::zero(), *self)
    }

    /// The limbs of the canonical value, least significant first.
    pub fn to_limbs(&self) -> (r: [u64; 4])
        ensures
            limbs_value(r[0], r[1], r[2], r[3]) == self@,
            self@ < modulus(),
    {
        proof {
            use_type_invariant(self);
        }
        [self.l0, self.l1, self.l2, self.l3]
    }

    /// The element with the given limbs, where they stand for a value below the modulus.
    pub fn from_limbs(limbs: [u64; 4]) -> (r: Option<FieldElement>)
        ensures
            r.is_some() <==> limbs_value(limbs[0], limbs[1], limbs[2], limbs[3]) < modulus(),
            r matches Some(e) ==> e@ == limbs_value(limbs[0], limbs[1], limbs[2], limbs[3]),
    {
        let l0: u64 = limbs[0];
        let l1: u64 = limbs[1];
        let l2: u64 = limbs[2];
        let l3: u64 = limbs[3];
        let below: bool = l3 < MODULUS_LIMB_3 || (l3 == MODULUS_LIMB_3 && (l2 < MODULUS_LIMB_2 || (
        l2 == MODULUS_LIMB_2 && (l1 < MODULUS_LIMB_1 || (l1 == MODULUS_LIMB_1 && l0
            < MODULUS_LIMB_0)))));
        if below {
            Some(FieldElement { l0, l1, l2, l3 })
        } else {
            None
        }
    }
}

} // verus!
