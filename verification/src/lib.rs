//! A small proof kernel over binary naturals.
//!
//! Propositions are types whose values are their proofs. Every witness type
//! keeps its fields private and carries an invariant stating what it
//! certifies, so a witness can only come out of one of the introduction
//! rules, each of which is checked by the verifier.

pub mod arith;
pub mod binnat;
pub mod induction;
pub mod logic;
pub mod peano;
mod sealed;
pub mod shape;
pub mod sqrt2;
pub mod theorems;
