//! Theorems stated as functions: each returns the witness of what it proves,
//! or, for a refutation, takes the witness that cannot exist.

use crate::arith::BinSquare;
use crate::binnat::BinNat;
use crate::logic::False;
use crate::peano::{lemma_add_value, lemma_mul_value, lemma_of_value, lemma_value_injective};
use crate::peano::{Add, Mul, Peano};
use crate::sqrt2::Sqrt2Irr;
use vstd::prelude::*;

verus! {

/// 1 + 2 = 3.
pub fn one_plus_two_is_three() -> (w: crate::logic::Eq<Peano>)
    ensures
        *w.lhs() == Peano::of(1).spec_add(Peano::of(2)),
        *w.rhs() == Peano::of(3),
{
    let sum = Peano::from_u64(1).add(&Peano::from_u64(2));
    proof {
        lemma_of_value(1);
        lemma_of_value(2);
        lemma_of_value(3);
        lemma_add_value(Peano::of(1), Peano::of(2));
        lemma_value_injective(sum, Peano::of(3));
    }
    match crate::logic::Eq::refl(sum, Peano::from_u64(3)) {
        Ok(w) => w,
        Err(_) => vstd::pervasive::unreached(),
    }
}

/// 2 · 2 = 4.
pub fn two_times_two_is_four() -> (w: crate::logic::Eq<Peano>)
    ensures
        *w.lhs() == Peano::of(2).spec_mul(Peano::of(2)),
        *w.rhs() == Peano::of(4),
{
    let product = Peano::from_u64(2).mul(&Peano::from_u64(2));
    proof {
        lemma_of_value(2);
        lemma_of_value(4);
        lemma_mul_value(Peano::of(2), Peano::of(2));
        lemma_value_injective(product, Peano::of(4));
    }
    match crate::logic::Eq::refl(product, Peano::from_u64(4)) {
        Ok(w) => w,
        Err(_) => vstd::pervasive::unreached(),
    }
}

/// 0 + n = n, for every `n`.
pub fn zero_plus_n_is_n(n: Peano) -> (w: crate::logic::Eq<Peano>)
    ensures
        *w.lhs() == Peano::Zero.spec_add(n),
        *w.rhs() == n,
{
    let sum = Peano::Zero.add(&n);
    match crate::logic::Eq::refl(sum, n) {
        Ok(w) => w,
        Err(_) => vstd::pervasive::unreached(),
    }
}

/// p² = 2·q² has no witness, for any `p` and `q`: one handed in is turned
/// into a contradiction, because p² is not 2·q².
pub fn sqrt2_irr(p: &BinNat, q: &BinNat, eq: crate::logic::Eq<BinNat>) -> (absurd: False)
    requires
        *eq.lhs() == p.spec_square(),
        *eq.rhs() == BinNat::Dbl(Box::new(q.spec_square())),
    ensures
        p.spec_square() != BinNat::Dbl(Box::new(q.spec_square())),
{
    p.prove(q, eq)
}

} // verus!
