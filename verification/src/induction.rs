//! Structural induction over the binary naturals: the fold that carries a
//! scheme of three handlers through a term, and the induction principle
//! that carries a property through every term.

use crate::binnat::{lemma_value_positive, BinNat};
use crate::logic::{ForAll, Prop};
use crate::sealed::Sealed;
use vstd::prelude::*;

verus! {

/// The three cases of a definition by structural induction.
///
/// A scheme says what to return for `One`, and how to get the result for
/// `Dbl(n)` and for `DblP1(n)` from the result for `n`. It does not recurse:
/// the recursion is `Accessible::induct`'s.
pub trait InductionScheme {
    /// What the induction produces for a term.
    type Result;

    /// The result for `One`.
    spec fn one(&self) -> Self::Result;

    /// The result for `Dbl(n)`, given the result `ih` for `n`.
    spec fn dbl(&self, n: BinNat, ih: Self::Result) -> Self::Result;

    /// The result for `DblP1(n)`, given the result `ih` for `n`.
    spec fn dblp1(&self, n: BinNat, ih: Self::Result) -> Self::Result;

    /// Base case.
    fn case_one(&self) -> (r: Self::Result)
        ensures
            r == self.one(),
    ;

    /// Even step.
    fn case_dbl(&self, n: &BinNat, ih: Self::Result) -> (r: Self::Result)
        ensures
            r == self.dbl(*n, ih),
    ;

    /// Odd step.
    fn case_dblp1(&self, n: &BinNat, ih: Self::Result) -> (r: Self::Result)
        ensures
            r == self.dblp1(*n, ih),
    ;
}

/// The fold of `scheme` over the term `v`: the base case at the innermost
/// `One`, then one step for each constructor around it.
pub open spec fn fold<F: InductionScheme>(scheme: F, v: BinNat) -> F::Result
    decreases v,
{
    match v {
        BinNat::One => scheme.one(),
        BinNat::Dbl(n) => scheme.dbl(*n, fold(scheme, *n)),
        BinNat::DblP1(n) => scheme.dblp1(*n, fold(scheme, *n)),
    }
}

/// The capability to be taken apart by structural induction.
///
/// It is held by the terms of a well-founded family: every term is reached
/// from `One` in finitely many steps, so the fold ends.
pub trait Accessible: Sealed + Sized {
    /// The binary natural that `self` is.
    spec fn term(self) -> BinNat;

    /// Folds `scheme` over `self`, from the innermost `One` outwards.
    fn induct<F: InductionScheme>(&self, scheme: &F) -> (r: F::Result)
        ensures
            r == fold(*scheme, self.term()),
    ;
}

impl Accessible for BinNat {
    open spec fn term(self) -> BinNat {
        self
    }

    fn induct<F: InductionScheme>(&self, scheme: &F) -> (r: F::Result)
        decreases self,
    {
        match self {
            BinNat::One => scheme.case_one(),
            BinNat::Dbl(n) => {
                let ih = n.induct(scheme);
                scheme.case_dbl(n, ih)
            },
            BinNat::DblP1(n) => {
                let ih = n.induct(scheme);
                scheme.case_dblp1(n, ih)
            },
        }
    }
}

/// The induction principle: a property that holds of `One`, and of `Dbl(n)`
/// and `DblP1(n)` whenever it holds of `n`, holds of every term.
///
/// It rests on the family being closed (the three cases are all there are)
/// and well-founded (the descent to the child ends).
pub proof fn lemma_induction(p: spec_fn(BinNat) -> bool, v: BinNat)
    requires
        p(BinNat::One),
        forall|n: BinNat| p(n) ==> #[trigger] p(BinNat::Dbl(Box::new(n))),
        forall|n: BinNat| p(n) ==> #[trigger] p(BinNat::DblP1(Box::new(n))),
    ensures
        p(v),
    decreases v,
{
    match v {
        BinNat::One => {},
        BinNat::Dbl(n) => lemma_induction(p, *n),
        BinNat::DblP1(n) => lemma_induction(p, *n),
    }
}

impl<P: Prop<Domain = BinNat>> ForAll<P> {
    /// Introduction by structural induction: from the three cases to a
    /// witness that `P` holds of every binary natural.
    pub fn by_induction() -> (all: ForAll<P>)
        requires
            P::holds(BinNat::One),
            forall|n: BinNat| P::holds(n) ==> #[trigger] P::holds(BinNat::Dbl(Box::new(n))),
            forall|n: BinNat| P::holds(n) ==> #[trigger] P::holds(BinNat::DblP1(Box::new(n))),
        ensures
            forall|v: BinNat| #[trigger] P::holds(v),
    {
        proof {
            assert forall|v: BinNat| #[trigger] P::holds(v) by {
                lemma_induction(|n: BinNat| P::holds(n), v);
            }
        }
        ForAll::generalize()
    }
}

/// The scheme that computes the number a term denotes, as far as it fits
/// into 64 bits.
pub struct Denotation;

impl InductionScheme for Denotation {
    type Result = Option<u64>;

    open spec fn one(&self) -> Option<u64> {
        Some(1)
    }

    open spec fn dbl(&self, n: BinNat, ih: Option<u64>) -> Option<u64> {
        match ih {
            Some(half) if half <= u64::MAX / 2 => Some((2 * half) as u64),
            _ => None,
        }
    }

    open spec fn dblp1(&self, n: BinNat, ih: Option<u64>) -> Option<u64> {
        match ih {
            Some(half) if half <= u64::MAX / 2 => Some((2 * half + 1) as u64),
            _ => None,
        }
    }

    fn case_one(&self) -> (r: Option<u64>) {
        Some(1)
    }

    fn case_dbl(&self, n: &BinNat, ih: Option<u64>) -> (r: Option<u64>) {
        match ih {
            Some(half) if half <= u64::MAX / 2 => Some(2 * half),
            _ => None,
        }
    }

    fn case_dblp1(&self, n: &BinNat, ih: Option<u64>) -> (r: Option<u64>) {
        match ih {
            Some(half) if half <= u64::MAX / 2 => Some(2 * half + 1),
            _ => None,
        }
    }
}

/// Folding `Denotation` over a term gives the number it denotes, or `None`
/// where that number does not fit into 64 bits.
pub proof fn lemma_denotation(v: BinNat)
    ensures
        fold(Denotation, v) == (if v.value() <= u64::MAX {
            Some(v.value() as u64)
        } else {
            None
        }),
    decreases v,
{
    match v {
        BinNat::One => {},
        BinNat::Dbl(n) => {
            lemma_denotation(*n);
            lemma_value_positive(*n);
        },
        BinNat::DblP1(n) => {
            lemma_denotation(*n);
            lemma_value_positive(*n);
        },
    }
}

impl BinNat {
    /// The number the term denotes, or `None` where it does not fit into 64
    /// bits.
    pub fn to_u64(&self) -> (r: Option<u64>)
        ensures
            r == (if self.value() <= u64::MAX {
                Some(self.value() as u64)
            } else {
                None
            }),
    {
        proof {
            lemma_denotation(*self);
        }
        self.induct(&Denotation)
    }
}

} // verus!
