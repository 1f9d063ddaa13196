//! The binary naturals: a closed, well-founded family of terms.
//!
//! A term is `One`, or `Dbl(n)`, or `DblP1(n)` for a term `n`, and denotes
//! 1, 2·n and 2·n + 1. Every positive natural has exactly one term, and its
//! parity can be read off the outermost constructor.

use crate::logic::Term;
use crate::sealed::Sealed;
use vstd::prelude::*;

verus! {

/// A positive natural number in binary structure.
#[derive(Debug)]
pub enum BinNat {
    /// The number 1.
    One,
    /// Twice the child.
    Dbl(Box<BinNat>),
    /// Twice the child, plus one.
    DblP1(Box<BinNat>),
}

impl Sealed for BinNat {

}

impl BinNat {
    /// The natural number that the term denotes.
    pub open spec fn value(self) -> nat
        decreases self,
    {
        match self {
            BinNat::One => 1,
            BinNat::Dbl(n) => 2 * n.value(),
            BinNat::DblP1(n) => 2 * n.value() + 1,
        }
    }

    /// How many constructors are wrapped around the innermost `One`.
    pub open spec fn height(self) -> nat
        decreases self,
    {
        match self {
            BinNat::One => 0,
            BinNat::Dbl(n) => 1 + n.height(),
            BinNat::DblP1(n) => 1 + n.height(),
        }
    }

    /// The term wrapped by the outermost constructor; `One` wraps itself.
    pub open spec fn child(self) -> BinNat {
        match self {
            BinNat::One => BinNat::One,
            BinNat::Dbl(n) => *n,
            BinNat::DblP1(n) => *n,
        }
    }

    /// The term that denotes `n`, for `n` at least 1.
    pub open spec fn of(n: nat) -> BinNat
        decreases n,
    {
        if n <= 1 {
            BinNat::One
        } else if n % 2 == 0 {
            BinNat::Dbl(Box::new(BinNat::of(n / 2)))
        } else {
            BinNat::DblP1(Box::new(BinNat::of(n / 2)))
        }
    }

    /// The term that denotes `n`; there is none for 0.
    pub fn from_u64(n: u64) -> (r: Option<BinNat>)
        ensures
            r is None <==> n == 0,
            r matches Some(v) ==> v == BinNat::of(n as nat) && v.value() == n,
        decreases n,
    {
        proof {
            if n >= 1 {
                lemma_of_value(n as nat);
            }
        }
        if n == 0 {
            None
        } else if n == 1 {
            Some(BinNat::One)
        } else {
            match BinNat::from_u64(n / 2) {
                Some(half) => {
                    if n % 2 == 0 {
                        Some(BinNat::Dbl(Box::new(half)))
                    } else {
                        Some(BinNat::DblP1(Box::new(half)))
                    }
                },
                None => None,
            }
        }
    }
}

impl Clone for BinNat {
    /// Builds the same term again.
    fn clone(&self) -> (copy: BinNat)
        ensures
            copy == *self,
        decreases self,
    {
        match self {
            BinNat::One => BinNat::One,
            BinNat::Dbl(n) => BinNat::Dbl(Box::new((&**n).clone())),
            BinNat::DblP1(n) => BinNat::DblP1(Box::new((&**n).clone())),
        }
    }
}

impl Term for BinNat {
    fn identical(&self, other: &BinNat) -> (same: bool)
        decreases self,
    {
        match (self, other) {
            (BinNat::One, BinNat::One) => true,
            (BinNat::Dbl(a), BinNat::Dbl(b)) => a.identical(b),
            (BinNat::DblP1(a), BinNat::DblP1(b)) => a.identical(b),
            _ => false,
        }
    }
}

/// Closure: every term is built by one of the three constructors, so a case
/// split over them leaves nothing out.
pub proof fn lemma_closed(v: BinNat)
    ensures
        v is One || v is Dbl || v is DblP1,
        v is Dbl ==> v == BinNat::Dbl(Box::new(v.child())),
        v is DblP1 ==> v == BinNat::DblP1(Box::new(v.child())),
{
}

/// Well-foundedness: unwrapping a constructor gives a term of smaller
/// height, so unwrapping repeatedly ends at `One` after `height` steps.
pub proof fn lemma_well_founded(v: BinNat)
    ensures
        v is One <==> v.height() == 0,
        !(v is One) ==> v.child().height() + 1 == v.height(),
{
}

/// Every term denotes a positive number.
pub proof fn lemma_value_positive(v: BinNat)
    ensures
        v.value() >= 1,
    decreases v,
{
    match v {
        BinNat::One => {},
        BinNat::Dbl(n) => lemma_value_positive(*n),
        BinNat::DblP1(n) => lemma_value_positive(*n),
    }
}

/// Two terms that denote the same number are the same term.
pub proof fn lemma_value_injective(a: BinNat, b: BinNat)
    requires
        a.value() == b.value(),
    ensures
        a == b,
    decreases a,
{
    lemma_value_positive(a.child());
    lemma_value_positive(b.child());
    match (a, b) {
        (BinNat::Dbl(x), BinNat::Dbl(y)) => lemma_value_injective(*x, *y),
        (BinNat::DblP1(x), BinNat::DblP1(y)) => lemma_value_injective(*x, *y),
        _ => {},
    }
}

/// Every positive number is denoted by the term `of` gives for it.
pub proof fn lemma_of_value(n: nat)
    requires
        n >= 1,
    ensures
        BinNat::of(n).value() == n,
    decreases n,
{
    if n > 1 {
        lemma_of_value(n / 2);
    }
}

/// `of` gives back the term whose value it is handed.
pub proof fn lemma_of_inverse(v: BinNat)
    ensures
        BinNat::of(v.value()) == v,
{
    lemma_value_positive(v);
    lemma_of_value(v.value());
    lemma_value_injective(BinNat::of(v.value()), v);
}

} // verus!
