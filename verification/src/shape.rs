//! What the outermost constructor of a binary natural tells: its parity,
//! and, under `Dbl`, its half. From the first follows that no odd term is a
//! `Dbl` term, from the second that `Dbl` is injective.

use crate::binnat::{lemma_value_injective, BinNat};
use crate::logic::{False, TypeFn};
use vstd::prelude::*;

verus! {

/// The parity predicate: `true` on the odd terms `One` and `DblP1(_)`,
/// `false` on the even terms `Dbl(_)`.
pub struct IsOddFn;

impl TypeFn<BinNat> for IsOddFn {
    type Result = bool;

    open spec fn apply(&self, t: BinNat) -> bool {
        !(t is Dbl)
    }

    fn eval(&self, t: &BinNat) -> (odd: bool) {
        match t {
            BinNat::Dbl(_) => false,
            _ => true,
        }
    }
}

/// The extraction function: the child of a `Dbl` term, and the placeholder
/// `One` for every other term.
pub struct InjectFn;

impl TypeFn<BinNat> for InjectFn {
    type Result = BinNat;

    open spec fn apply(&self, t: BinNat) -> BinNat {
        match t {
            BinNat::Dbl(n) => *n,
            _ => BinNat::One,
        }
    }

    fn eval(&self, t: &BinNat) -> (half: BinNat) {
        match t {
            BinNat::Dbl(n) => (&**n).clone(),
            _ => BinNat::One,
        }
    }
}

/// Discrimination: a witness that an odd term equals a `Dbl` term is a
/// contradiction, because the two sides are different terms.
///
/// The parity predicate is `true` at the left side; transported along the
/// witness it is the same `true` at the right side, where it is `false`.
pub fn discriminate_odd_dbl(eq: crate::logic::Eq<BinNat>) -> (absurd: False)
    requires
        IsOddFn.apply(*eq.lhs()),
        eq.rhs() is Dbl,
    ensures
        *eq.lhs() != *eq.rhs(),
{
    let odd = eq.transport(&IsOddFn, true);
    assert(!odd);
    vstd::pervasive::unreached()
}

/// Injectivity of `Dbl`: from a witness of `Dbl(x) = Dbl(y)` to a witness of
/// `x = y`.
///
/// The extraction function gives `x` at the left side; transported along the
/// witness it is the same `x` at the right side, where it gives `y`.
pub fn dbl_injective(eq: crate::logic::Eq<BinNat>) -> (halves: crate::logic::Eq<BinNat>)
    requires
        eq.lhs() is Dbl,
        eq.rhs() is Dbl,
    ensures
        *halves.lhs() == eq.lhs().child(),
        *halves.rhs() == eq.rhs().child(),
{
    let x = InjectFn.eval(eq.lhs());
    let y = eq.transport(&InjectFn, x.clone());
    match crate::logic::Eq::refl(x, y) {
        Ok(halves) => halves,
        Err(_) => vstd::pervasive::unreached(),
    }
}

/// Parity soundness: the parity predicate is `true` exactly on the terms
/// that denote odd numbers.
pub proof fn lemma_parity_sound(v: BinNat)
    ensures
        IsOddFn.apply(v) <==> v.value() % 2 == 1,
{
}

/// Discrimination: an odd term and a `Dbl` term are different terms and
/// denote different numbers.
pub proof fn lemma_odd_is_not_dbl(a: BinNat, b: BinNat)
    requires
        IsOddFn.apply(a),
        b is Dbl,
    ensures
        a != b,
        a.value() != b.value(),
{
}

/// Injectivity: if `Dbl(x)` and `Dbl(y)` are the same term, or denote the
/// same number, then `x` and `y` are the same term.
pub proof fn lemma_dbl_injective(x: BinNat, y: BinNat)
    requires
        BinNat::Dbl(Box::new(x)).value() == BinNat::Dbl(Box::new(y)).value(),
    ensures
        x == y,
{
    lemma_value_injective(x, y);
}

/// The extraction function undoes `Dbl`.
pub proof fn lemma_extract_dbl(x: BinNat)
    ensures
        InjectFn.apply(BinNat::Dbl(Box::new(x))) == x,
{
}

} // verus!
