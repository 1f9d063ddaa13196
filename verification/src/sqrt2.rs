//! The square root of 2 is irrational: no binary naturals `p` and `q`
//! satisfy p² = 2·q².
//!
//! The argument is an infinite descent on the shape of `p`. If `p` is odd,
//! so is p², and 2·q² is not. If `p` is `Dbl(k)`, then p² = 4·k², so
//! q² = 2·k²: the same equation for the pair `(q, k)`, which is smaller.

use crate::arith::{lemma_square_shape, lemma_square_value, BinSquare};
use crate::binnat::{lemma_of_value, lemma_value_injective, BinNat};
use crate::induction::Accessible;
use crate::logic::{False, ForAll, Prop};
use crate::shape::{dbl_injective, discriminate_odd_dbl};
use vstd::prelude::*;

verus! {

/// The descent step for a term `p` against terms `Q`: a witness of
/// p² = 2·q² is refuted.
pub trait Sqrt2Irr<Q: Accessible + BinSquare>: Accessible + BinSquare {
    /// Turns a witness of `self² = Dbl(q²)` into a contradiction, by showing
    /// that the square of `self` is not the double of the square of `q`.
    fn prove(&self, q: &Q, eq: crate::logic::Eq<BinNat>) -> (absurd: False)
        requires
            *eq.lhs() == self.term().spec_square(),
            *eq.rhs() == BinNat::Dbl(Box::new(q.term().spec_square())),
        ensures
            self.term().spec_square() != BinNat::Dbl(Box::new(q.term().spec_square())),
    ;
}

impl Sqrt2Irr<BinNat> for BinNat {
    /// By cases on `self`. `One` and `DblP1(_)` have odd squares, which no
    /// `Dbl` term equals. For `Dbl(k)` the witness relates `Dbl(Dbl(k²))`
    /// and `Dbl(q²)`; stripping one `Dbl` and flipping the sides gives a
    /// witness of `q² = Dbl(k²)`, which `q` refutes against `k`.
    fn prove(&self, q: &BinNat, eq: crate::logic::Eq<BinNat>) -> (absurd: False)
        decreases self.height() + q.height(),
    {
        match self {
            BinNat::One => discriminate_odd_dbl(eq),
            BinNat::DblP1(_) => discriminate_odd_dbl(eq),
            BinNat::Dbl(k) => {
                let halves = dbl_injective(eq);
                q.prove(k, halves.symm())
            },
        }
    }
}

/// The property of a term `p` that p² = 2·q² holds for no term `q`.
pub struct Sqrt2IrrProp;

impl Prop for Sqrt2IrrProp {
    type Domain = BinNat;

    open spec fn holds(p: BinNat) -> bool {
        forall|q: BinNat| p.spec_square() != BinNat::Dbl(Box::new(#[trigger] q.spec_square()))
    }
}

/// Infinite descent: the square of `p` is not the double of the square of
/// `q`, whatever `p` and `q` are.
pub proof fn lemma_descent(p: BinNat, q: BinNat)
    ensures
        p.spec_square() != BinNat::Dbl(Box::new(q.spec_square())),
    decreases p.height() + q.height(),
{
    match p {
        BinNat::One => {},
        BinNat::DblP1(_) => {},
        BinNat::Dbl(k) => {
            lemma_descent(q, *k);
        },
    }
}

/// Base case: the square of `One` is odd, and twice a square is not.
pub proof fn lemma_case_one()
    ensures
        Sqrt2IrrProp::holds(BinNat::One),
{
}

/// Odd step: the square of `DblP1(n)` is odd, and twice a square is not.
pub proof fn lemma_case_dblp1(n: BinNat)
    ensures
        Sqrt2IrrProp::holds(BinNat::DblP1(Box::new(n))),
{
}

/// Even step: if `Dbl(n)`² were `Dbl(q²)`, then q² would be `Dbl(n²)`, so
/// `q` would be some `Dbl(j)`, and n² would be `Dbl(j²)`: the property
/// fails of `n`.
pub proof fn lemma_case_dbl(n: BinNat)
    requires
        Sqrt2IrrProp::holds(n),
    ensures
        Sqrt2IrrProp::holds(BinNat::Dbl(Box::new(n))),
{
    let p = BinNat::Dbl(Box::new(n));
    assert forall|q: BinNat| p.spec_square() != BinNat::Dbl(
        Box::new(#[trigger] q.spec_square()),
    ) by {
        if p.spec_square() == BinNat::Dbl(Box::new(q.spec_square())) {
            lemma_square_shape(q);
            let j = q.child();
            assert(n.spec_square() == BinNat::Dbl(Box::new(j.spec_square())));
        }
    }
}

/// The theorem as a witness, by structural induction on `p`: for every `p`,
/// and every `q`, p² is not 2·q².
pub fn sqrt2_is_irrational() -> (theorem: ForAll<Sqrt2IrrProp>)
    ensures
        forall|p: BinNat, q: BinNat|
            #[trigger] p.spec_square() != BinNat::Dbl(Box::new(#[trigger] q.spec_square())),
{
    proof {
        lemma_case_one();
        assert forall|n: BinNat| Sqrt2IrrProp::holds(n) implies #[trigger] Sqrt2IrrProp::holds(
            BinNat::Dbl(Box::new(n)),
        ) by {
            lemma_case_dbl(n);
        }
        assert forall|n: BinNat| Sqrt2IrrProp::holds(n) implies #[trigger] Sqrt2IrrProp::holds(
            BinNat::DblP1(Box::new(n)),
        ) by {
            lemma_case_dblp1(n);
        }
    }
    let theorem = ForAll::by_induction();
    proof {
        assert forall|p: BinNat, q: BinNat|
            #[trigger] p.spec_square() != BinNat::Dbl(
                Box::new(#[trigger] q.spec_square()),
            ) by {
            assert(Sqrt2IrrProp::holds(p));
        }
    }
    theorem
}

/// The theorem over the numbers: no positive naturals `a` and `b` satisfy
/// a² = 2·b².
pub proof fn lemma_sqrt2_irrational(a: nat, b: nat)
    requires
        a >= 1,
        b >= 1,
    ensures
        a * a != 2 * (b * b),
{
    let p = BinNat::of(a);
    let q = BinNat::of(b);
    let twice = BinNat::Dbl(Box::new(q.spec_square()));
    lemma_of_value(a);
    lemma_of_value(b);
    lemma_square_value(p);
    lemma_square_value(q);
    lemma_descent(p, q);
    if a * a == 2 * (b * b) {
        lemma_value_injective(p.spec_square(), twice);
    }
}

} // verus!
