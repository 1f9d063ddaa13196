//! The logic substrate: truth, falsity, conjunction, disjunction, functions
//! on terms, and equality witnesses with Leibniz substitution.

use crate::sealed::Sealed;
use core::marker::PhantomData;
use vstd::prelude::*;

verus! {

/// The proposition that has no proof.
///
/// No value of this type is ever built: the invariant below admits none.
/// A function that returns `False` therefore shows that its preconditions,
/// together with the invariants of the witnesses it is handed, cannot all
/// hold.
pub struct False {
    never: (),
}

impl False {
    #[verifier::type_invariant]
    spec fn uninhabited(self) -> bool {
        false
    }

    /// Ex falso quodlibet: a proof of `False` yields a value of any type.
    pub fn elim<A>(self) -> A {
        proof {
            use_type_invariant(&self);
        }
        vstd::pervasive::unreached()
    }
}

/// The proposition that holds trivially; its only value is its proof.
pub struct True;

/// Conjunction: a proof of `A` together with a proof of `B`.
pub struct And<A, B>(A, B);

impl<A, B> And<A, B> {
    /// The first component.
    pub closed spec fn spec_left(self) -> A {
        self.0
    }

    /// The second component.
    pub closed spec fn spec_right(self) -> B {
        self.1
    }

    /// Introduction: pairs the two proofs.
    pub fn intro(a: A, b: B) -> (both: Self)
        ensures
            both.spec_left() == a,
            both.spec_right() == b,
    {
        And(a, b)
    }

    /// Left elimination.
    #[verifier::when_used_as_spec(spec_left)]
    pub fn left(self) -> (a: A)
        ensures
            a == self.spec_left(),
    {
        self.0
    }

    /// Right elimination.
    #[verifier::when_used_as_spec(spec_right)]
    pub fn right(self) -> (b: B)
        ensures
            b == self.spec_right(),
    {
        self.1
    }
}

/// Disjunction: a proof of `A` or a proof of `B`.
pub enum Or<A, B> {
    Left(A),
    Right(B),
}

impl<A, B> Or<A, B> {
    /// Case analysis: applies `f` to a left proof and `g` to a right proof.
    pub fn elim<C>(self, f: impl FnOnce(A) -> C, g: impl FnOnce(B) -> C) -> (c: C)
        requires
            self matches Or::Left(a) ==> f.requires((a,)),
            self matches Or::Right(b) ==> g.requires((b,)),
        ensures
            self matches Or::Left(a) ==> f.ensures((a,), c),
            self matches Or::Right(b) ==> g.ensures((b,), c),
    {
        match self {
            Or::Left(a) => f(a),
            Or::Right(b) => g(b),
        }
    }
}

/// A function on the terms of type `T`.
///
/// `apply` is the function itself, as the contracts see it; `eval` computes
/// it.
pub trait TypeFn<T> {
    /// What the function returns.
    type Result;

    /// The value of the function at `t`.
    spec fn apply(&self, t: T) -> Self::Result;

    /// Computes the value of the function at `t`.
    fn eval(&self, t: &T) -> (r: Self::Result)
        ensures
            r == self.apply(*t),
    ;
}

/// A closed family of terms, for which being the same term is decidable.
pub trait Term: Sealed + Sized {
    /// Decides whether `self` and `other` are the same term.
    fn identical(&self, other: &Self) -> (same: bool)
        ensures
            same == (*self == *other),
    ;
}

/// Why no witness was handed out: the two sides are different terms, so the
/// equation has no proof.
#[derive(Debug)]
pub struct Unconstructible;

/// A witness that two terms are the same term.
///
/// The invariant states the identity. `refl` is the only way to obtain a
/// witness from terms; `symm` and `transport` derive from a witness already
/// held. The witness records which terms it relates and nothing more.
pub struct Eq<T> {
    lhs: T,
    rhs: T,
}

impl<T> Eq<T> {
    #[verifier::type_invariant]
    spec fn sides_identical(self) -> bool {
        self.lhs == self.rhs
    }

    /// The left side of the equation.
    pub closed spec fn spec_lhs(&self) -> &T {
        &self.lhs
    }

    /// The right side of the equation.
    pub closed spec fn spec_rhs(&self) -> &T {
        &self.rhs
    }

    /// The left side of the equation.
    #[verifier::when_used_as_spec(spec_lhs)]
    pub fn lhs(&self) -> (a: &T)
        ensures
            a == self.spec_lhs(),
    {
        &self.lhs
    }

    /// The right side of the equation.
    #[verifier::when_used_as_spec(spec_rhs)]
    pub fn rhs(&self) -> (b: &T)
        ensures
            b == self.spec_rhs(),
    {
        &self.rhs
    }

    /// Symmetry: from `a = b` to `b = a`.
    pub fn symm(self) -> (flipped: Eq<T>)
        ensures
            flipped.lhs() == self.rhs(),
            flipped.rhs() == self.lhs(),
    {
        proof {
            use_type_invariant(&self);
        }
        Eq { lhs: self.rhs, rhs: self.lhs }
    }

    /// Leibniz substitution: given `a = b` and the value of `f` at `a`,
    /// yields the value of `f` at `b`.
    ///
    /// The value handed in is handed back: since the witness exists the two
    /// sides are one term, and `f` has one value there.
    pub fn transport<F: TypeFn<T>>(self, f: &F, fa: F::Result) -> (fb: F::Result)
        requires
            fa == f.apply(*self.lhs()),
        ensures
            fb == f.apply(*self.rhs()),
            fb == fa,
    {
        proof {
            use_type_invariant(&self);
        }
        fa
    }
}

impl<T: Term> Eq<T> {
    /// Reflexivity, the one introduction rule: a witness of `a = b` is handed
    /// out exactly when `a` and `b` are the same term.
    pub fn refl(a: T, b: T) -> (r: Result<Eq<T>, Unconstructible>)
        ensures
            r is Ok <==> a == b,
            r matches Ok(w) ==> *w.lhs() == a && *w.rhs() == b,
    {
        if a.identical(&b) {
            Ok(Eq { lhs: a, rhs: b })
        } else {
            Err(Unconstructible)
        }
    }
}

/// A property of the terms of a family, given as a type so that a witness
/// can name the property it certifies.
pub trait Prop {
    /// The family whose terms the property speaks of.
    type Domain;

    /// Whether the property holds of `x`.
    spec fn holds(x: Self::Domain) -> bool;
}

/// A witness that the property `P` holds of every term of its domain.
///
/// The invariant states the quantified fact. A witness is handed out only
/// where the verifier has checked that fact, and `instantiate` gives it back
/// for any one term.
pub struct ForAll<P: Prop> {
    property: PhantomData<P>,
}

impl<P: Prop> ForAll<P> {
    #[verifier::type_invariant]
    spec fn holds_everywhere(self) -> bool {
        forall|x: P::Domain| #[trigger] P::holds(x)
    }

    /// Generalisation: a witness for a property already shown of every term.
    pub(crate) fn generalize() -> (all: ForAll<P>)
        requires
            forall|x: P::Domain| #[trigger] P::holds(x),
    {
        ForAll { property: PhantomData }
    }

    /// Elimination: the property holds of the term `x`.
    pub fn instantiate(&self, x: &P::Domain)
        ensures
            P::holds(*x),
    {
        proof {
            use_type_invariant(self);
        }
    }
}

} // verus!
