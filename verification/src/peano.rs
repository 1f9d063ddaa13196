//! The unary naturals: `Zero` and the successor of a unary natural, with
//! addition and multiplication by recursion on the left operand.

use crate::logic::Term;
use crate::sealed::Sealed;
use vstd::prelude::*;

verus! {

/// A natural number in unary structure.
#[derive(Debug)]
pub enum Peano {
    /// The number 0.
    Zero,
    /// One more than the child.
    Succ(Box<Peano>),
}

impl Sealed for Peano {

}

/// Addition of a term of family `B` to a term of this family.
pub trait Add<B>: Sealed + Sized {
    /// The type of the sum.
    type Result;

    /// The sum of `self` and `b`.
    spec fn spec_add(self, b: B) -> Self::Result;

    /// Computes the sum of `self` and `b`.
    fn add(&self, b: &B) -> (sum: Self::Result)
        ensures
            sum == self.spec_add(*b),
    ;
}

/// Multiplication of a term of this family by a term of family `B`.
pub trait Mul<B>: Sealed + Sized {
    /// The type of the product.
    type Result;

    /// The product of `self` and `b`.
    spec fn spec_mul(self, b: B) -> Self::Result;

    /// Computes the product of `self` and `b`.
    fn mul(&self, b: &B) -> (product: Self::Result)
        ensures
            product == self.spec_mul(*b),
    ;
}

impl Peano {
    /// The natural number that the term denotes.
    pub open spec fn value(self) -> nat
        decreases self,
    {
        match self {
            Peano::Zero => 0,
            Peano::Succ(n) => 1 + n.value(),
        }
    }

    /// The term that denotes `n`.
    pub open spec fn of(n: nat) -> Peano
        decreases n,
    {
        if n == 0 {
            Peano::Zero
        } else {
            Peano::Succ(Box::new(Peano::of((n - 1) as nat)))
        }
    }

    /// The term that denotes `n`.
    pub fn from_u64(n: u64) -> (term: Peano)
        ensures
            term == Peano::of(n as nat),
            term.value() == n,
    {
        proof {
            lemma_of_value(n as nat);
        }
        let mut term = Peano::Zero;
        let mut built: u64 = 0;
        while built < n
            invariant
                built <= n,
                term == Peano::of(built as nat),
            decreases n - built,
        {
            term = Peano::Succ(Box::new(term));
            built = built + 1;
        }
        term
    }

    /// The number the term denotes, or `None` where it does not fit into 64
    /// bits.
    pub fn to_u64(&self) -> (r: Option<u64>)
        ensures
            r == (if self.value() <= u64::MAX {
                Some(self.value() as u64)
            } else {
                None
            }),
        decreases self,
    {
        match self {
            Peano::Zero => Some(0),
            Peano::Succ(n) => match n.to_u64() {
                Some(below) if below < u64::MAX => Some(below + 1),
                _ => None,
            },
        }
    }
}

impl Clone for Peano {
    /// Builds the same term again.
    fn clone(&self) -> (copy: Peano)
        ensures
            copy == *self,
        decreases self,
    {
        match self {
            Peano::Zero => Peano::Zero,
            Peano::Succ(n) => Peano::Succ(Box::new((&**n).clone())),
        }
    }
}

impl Term for Peano {
    fn identical(&self, other: &Peano) -> (same: bool)
        decreases self,
    {
        match (self, other) {
            (Peano::Zero, Peano::Zero) => true,
            (Peano::Succ(a), Peano::Succ(b)) => a.identical(b),
            _ => false,
        }
    }
}

impl Add<Peano> for Peano {
    type Result = Peano;

    /// 0 + b = b; (a + 1) + b = (a + b) + 1.
    open spec fn spec_add(self, b: Peano) -> Peano
        decreases self,
    {
        match self {
            Peano::Zero => b,
            Peano::Succ(a) => Peano::Succ(Box::new(a.spec_add(b))),
        }
    }

    fn add(&self, b: &Peano) -> (sum: Peano)
        decreases self,
    {
        match self {
            Peano::Zero => b.clone(),
            Peano::Succ(a) => Peano::Succ(Box::new(a.add(b))),
        }
    }
}

impl Mul<Peano> for Peano {
    type Result = Peano;

    /// 0 · b = 0; (a + 1) · b = b + a · b.
    open spec fn spec_mul(self, b: Peano) -> Peano
        decreases self,
    {
        match self {
            Peano::Zero => Peano::Zero,
            Peano::Succ(a) => b.spec_add(a.spec_mul(b)),
        }
    }

    fn mul(&self, b: &Peano) -> (product: Peano)
        decreases self,
    {
        match self {
            Peano::Zero => Peano::Zero,
            Peano::Succ(a) => b.add(&a.mul(b)),
        }
    }
}

/// Two terms that denote the same number are the same term.
pub proof fn lemma_value_injective(a: Peano, b: Peano)
    requires
        a.value() == b.value(),
    ensures
        a == b,
    decreases a,
{
    match (a, b) {
        (Peano::Succ(x), Peano::Succ(y)) => lemma_value_injective(*x, *y),
        _ => {},
    }
}

/// Every number is denoted by the term `of` gives for it.
pub proof fn lemma_of_value(n: nat)
    ensures
        Peano::of(n).value() == n,
    decreases n,
{
    if n > 0 {
        lemma_of_value((n - 1) as nat);
    }
}

/// `Zero` is neutral for addition, on the left and on the right.
pub proof fn lemma_add_zero(n: Peano)
    ensures
        Peano::Zero.spec_add(n) == n,
        n.spec_add(Peano::Zero) == n,
    decreases n,
{
    match n {
        Peano::Zero => {},
        Peano::Succ(below) => lemma_add_zero(*below),
    }
}

/// Addition agrees with the addition of the numbers denoted.
pub proof fn lemma_add_value(a: Peano, b: Peano)
    ensures
        a.spec_add(b).value() == a.value() + b.value(),
    decreases a,
{
    match a {
        Peano::Zero => {},
        Peano::Succ(x) => lemma_add_value(*x, b),
    }
}

/// Multiplication agrees with the multiplication of the numbers denoted.
pub proof fn lemma_mul_value(a: Peano, b: Peano)
    ensures
        a.spec_mul(b).value() == a.value() * b.value(),
    decreases a,
{
    let x = a.value();
    let y = b.value();
    match a {
        Peano::Zero => {
            assert(x * y == 0) by (nonlinear_arith)
                requires
                    x == 0,
            ;
        },
        Peano::Succ(below) => {
            lemma_mul_value(*below, b);
            lemma_add_value(b, below.spec_mul(b));
            let w = below.value();
            assert(x * y == y + w * y) by (nonlinear_arith)
                requires
                    x == 1 + w,
            ;
        },
    }
}

} // verus!
