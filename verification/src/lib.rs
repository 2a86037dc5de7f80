//! Zero-knowledge age verification.
//!
//! A prover who knows a birthdate and the current date convinces a verifier that the age
//! reaches a public legal age, without showing either date. The statement is an arithmetic
//! circuit over the scalar field of BLS12-381, generated into a rank-1 constraint system
//! and proved with Groth16.
//!
//! The crate has four layers:
//!
//! - [`field`] and [`linear_combination`]: field elements, variables and linear
//!   combinations, with the algebra that the constraints rest on.
//! - [`constraint_system`]: the variable table and the ordered constraints of a circuit,
//!   in a mode that records the shape only or in a mode that binds values and can be
//!   checked.
//! - [`circuit`]: the age predicate, and what is proved of it: which systems it
//!   generates and on which dates they are satisfied.
//! - [`groth16`]: loading keys, proving with a pre-flight check of the witness, and
//!   verifying.
//!
//! The circuit ties the distance from the age to the legal age to a witness that must be
//! its own square. In the field this admits a distance of zero or one and nothing else, so
//! the circuit accepts an age that is the legal age or one day more; it does not encode
//! "at least" for larger distances. The statements in [`circuit`] say so exactly.
//!
//! # What is assumed
//!
//! The arithmetic of the field, the evaluation of constraint systems and the proof system
//! are those of the arkworks crates. Every call into them is a private function marked
//! `external_body`, whose contract is believed and not proved:
//!
//! - in [`field`], addition, subtraction and multiplication modulo the field order;
//! - in [`backend`], a constraint system of `ark_relations` that is filled slot by slot
//!   and constraint by constraint, and asked whether it is satisfied;
//! - in [`groth16`], the shape of an encoded key, a random scalar, the proof for given
//!   blinding scalars and the verdict on a proof. Nothing is claimed of the scalar; of the
//!   others, that equal inputs give equal results, and that a proof has 192 bytes.
//!
//! Key generation needs an implementation of a trait of `ark_relations` and stays outside
//! this crate; [`groth16::Groth16AgeVerifier`] loads the keys that it made.

pub mod backend;
pub mod circuit;
pub mod constraint_system;
pub mod error;
pub mod field;
pub mod groth16;
pub mod linear_combination;
