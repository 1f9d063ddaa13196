//! Arithmetic on binary naturals: successor, addition and squaring, each
//! defined by case analysis on the constructors and each agreeing with the
//! arithmetic of the numbers denoted.

use crate::binnat::{lemma_value_injective, BinNat};
use crate::sealed::Sealed;
use vstd::prelude::*;

verus! {

/// The successor operation of a term family.
pub trait BinSucc: Sealed + Sized {
    /// The type of the successor.
    type Result;

    /// The successor of `self`.
    spec fn spec_succ(self) -> Self::Result;

    /// Computes the successor of `self`.
    fn succ(&self) -> (next: Self::Result)
        ensures
            next == self.spec_succ(),
    ;
}

/// Addition of a term of family `B` to a term of this family.
pub trait BinAdd<B>: Sealed + Sized {
    /// The type of the sum.
    type Result;

    /// The sum of `self` and `b`.
    spec fn spec_add(self, b: B) -> Self::Result;

    /// Computes the sum of `self` and `b`.
    fn add(&self, b: &B) -> (sum: Self::Result)
        ensures
            sum == self.spec_add(*b),
    ;
}

/// The squaring operation of a term family.
pub trait BinSquare: Sealed + Sized {
    /// The type of the square.
    type Result;

    /// The square of `self`.
    spec fn spec_square(self) -> Self::Result;

    /// Computes the square of `self`.
    fn square(&self) -> (sq: Self::Result)
        ensures
            sq == self.spec_square(),
    ;
}

impl BinSucc for BinNat {
    type Result = BinNat;

    /// 1 + 1 = 2; 2n + 1 is the odd term above 2n; (2n + 1) + 1 = 2(n + 1).
    open spec fn spec_succ(self) -> BinNat
        decreases self,
    {
        match self {
            BinNat::One => BinNat::Dbl(Box::new(BinNat::One)),
            BinNat::Dbl(n) => BinNat::DblP1(n),
            BinNat::DblP1(n) => BinNat::Dbl(Box::new(n.spec_succ())),
        }
    }

    fn succ(&self) -> (next: BinNat)
        decreases self,
    {
        match self {
            BinNat::One => BinNat::Dbl(Box::new(BinNat::One)),
            BinNat::Dbl(n) => BinNat::DblP1(n.clone()),
            BinNat::DblP1(n) => BinNat::Dbl(Box::new(n.succ())),
        }
    }
}

impl BinAdd<BinNat> for BinNat {
    type Result = BinNat;

    /// The nine combinations of the constructors of the two summands.
    open spec fn spec_add(self, b: BinNat) -> BinNat
        decreases self,
    {
        match (self, b) {
            (BinNat::One, BinNat::One) => BinNat::Dbl(Box::new(BinNat::One)),
            (BinNat::One, BinNat::Dbl(n)) => BinNat::DblP1(n),
            (BinNat::One, BinNat::DblP1(n)) => BinNat::Dbl(Box::new(n.spec_succ())),
            (BinNat::Dbl(m), BinNat::One) => BinNat::DblP1(m),
            (BinNat::Dbl(m), BinNat::Dbl(n)) => BinNat::Dbl(Box::new(m.spec_add(*n))),
            (BinNat::Dbl(m), BinNat::DblP1(n)) => BinNat::DblP1(Box::new(m.spec_add(*n))),
            (BinNat::DblP1(m), BinNat::One) => BinNat::Dbl(Box::new(m.spec_succ())),
            (BinNat::DblP1(m), BinNat::Dbl(n)) => BinNat::DblP1(Box::new(m.spec_add(*n))),
            (BinNat::DblP1(m), BinNat::DblP1(n)) => BinNat::Dbl(
                Box::new(m.spec_add(*n).spec_succ()),
            ),
        }
    }

    fn add(&self, b: &BinNat) -> (sum: BinNat)
        decreases self,
    {
        match (self, b) {
            (BinNat::One, BinNat::One) => BinNat::Dbl(Box::new(BinNat::One)),
            (BinNat::One, BinNat::Dbl(n)) => BinNat::DblP1(n.clone()),
            (BinNat::One, BinNat::DblP1(n)) => BinNat::Dbl(Box::new(n.succ())),
            (BinNat::Dbl(m), BinNat::One) => BinNat::DblP1(m.clone()),
            (BinNat::Dbl(m), BinNat::Dbl(n)) => BinNat::Dbl(Box::new(m.add(n))),
            (BinNat::Dbl(m), BinNat::DblP1(n)) => BinNat::DblP1(Box::new(m.add(n))),
            (BinNat::DblP1(m), BinNat::One) => BinNat::Dbl(Box::new(m.succ())),
            (BinNat::DblP1(m), BinNat::Dbl(n)) => BinNat::DblP1(Box::new(m.add(n))),
            (BinNat::DblP1(m), BinNat::DblP1(n)) => BinNat::Dbl(Box::new(m.add(n).succ())),
        }
    }
}

impl BinSquare for BinNat {
    type Result = BinNat;

    /// 1² = 1; (2n)² = 4n²; (2n + 1)² = 4(n² + n) + 1.
    open spec fn spec_square(self) -> BinNat
        decreases self,
    {
        match self {
            BinNat::One => BinNat::One,
            BinNat::Dbl(n) => BinNat::Dbl(Box::new(BinNat::Dbl(Box::new(n.spec_square())))),
            BinNat::DblP1(n) => BinNat::DblP1(
                Box::new(BinNat::Dbl(Box::new(n.spec_square().spec_add(*n)))),
            ),
        }
    }

    fn square(&self) -> (sq: BinNat)
        decreases self,
    {
        match self {
            BinNat::One => BinNat::One,
            BinNat::Dbl(n) => BinNat::Dbl(Box::new(BinNat::Dbl(Box::new(n.square())))),
            BinNat::DblP1(n) => BinNat::DblP1(
                Box::new(BinNat::Dbl(Box::new(n.square().add(n)))),
            ),
        }
    }
}

/// Successor law: the successor denotes the number one greater.
pub proof fn lemma_succ_value(v: BinNat)
    ensures
        v.spec_succ().value() == v.value() + 1,
    decreases v,
{
    match v {
        BinNat::One => {},
        BinNat::Dbl(n) => {},
        BinNat::DblP1(n) => lemma_succ_value(*n),
    }
}

/// Addition agrees with the addition of the numbers denoted.
pub proof fn lemma_add_value(a: BinNat, b: BinNat)
    ensures
        a.spec_add(b).value() == a.value() + b.value(),
    decreases a,
{
    match (a, b) {
        (BinNat::One, BinNat::DblP1(n)) => lemma_succ_value(*n),
        (BinNat::Dbl(m), BinNat::Dbl(n)) => lemma_add_value(*m, *n),
        (BinNat::Dbl(m), BinNat::DblP1(n)) => lemma_add_value(*m, *n),
        (BinNat::DblP1(m), BinNat::One) => lemma_succ_value(*m),
        (BinNat::DblP1(m), BinNat::Dbl(n)) => lemma_add_value(*m, *n),
        (BinNat::DblP1(m), BinNat::DblP1(n)) => {
            lemma_add_value(*m, *n);
            lemma_succ_value(m.spec_add(*n));
        },
        _ => {},
    }
}

/// Addition is commutative: both orders give the same term.
pub proof fn lemma_add_commutative(a: BinNat, b: BinNat)
    ensures
        a.spec_add(b) == b.spec_add(a),
{
    lemma_add_value(a, b);
    lemma_add_value(b, a);
    lemma_value_injective(a.spec_add(b), b.spec_add(a));
}

/// Addition is associative: both groupings give the same term.
pub proof fn lemma_add_associative(a: BinNat, b: BinNat, c: BinNat)
    ensures
        a.spec_add(b).spec_add(c) == a.spec_add(b.spec_add(c)),
{
    lemma_add_value(a, b);
    lemma_add_value(a.spec_add(b), c);
    lemma_add_value(b, c);
    lemma_add_value(a, b.spec_add(c));
    lemma_value_injective(a.spec_add(b).spec_add(c), a.spec_add(b.spec_add(c)));
}

/// Adding `One` is taking the successor.
pub proof fn lemma_add_one(v: BinNat)
    ensures
        v.spec_add(BinNat::One) == v.spec_succ(),
{
    lemma_add_value(v, BinNat::One);
    lemma_succ_value(v);
    lemma_value_injective(v.spec_add(BinNat::One), v.spec_succ());
}

/// Square law: the square denotes the square of the number denoted.
pub proof fn lemma_square_value(v: BinNat)
    ensures
        v.spec_square().value() == v.value() * v.value(),
    decreases v,
{
    let x = v.value();
    match v {
        BinNat::One => {
            assert(x * x == 1) by (nonlinear_arith)
                requires
                    x == 1,
            ;
        },
        BinNat::Dbl(n) => {
            lemma_square_value(*n);
            let k = n.value();
            assert(v.spec_square().child().value() == 2 * (k * k));
            assert(x * x == 2 * (2 * (k * k))) by (nonlinear_arith)
                requires
                    x == 2 * k,
            ;
        },
        BinNat::DblP1(n) => {
            lemma_square_value(*n);
            lemma_add_value(n.spec_square(), *n);
            let k = n.value();
            assert(v.spec_square().child().value() == 2 * (k * k + k));
            assert(x * x == 2 * (2 * (k * k + k)) + 1) by (nonlinear_arith)
                requires
                    x == 2 * k + 1,
            ;
        },
    }
}

/// The square has the parity of its root: it is a `Dbl` exactly when the
/// root is one.
pub proof fn lemma_square_shape(v: BinNat)
    ensures
        v.spec_square() is Dbl <==> v is Dbl,
        v is Dbl ==> v.spec_square().child() is Dbl,
{
}

} // verus!
