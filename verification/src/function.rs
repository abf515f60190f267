//! What adaptors apply to values. An adaptor's script is a function of its
//! source's script, so what it applies must be a function in the mathematical
//! sense: defined on every argument, with one result for each.

use std::marker::PhantomData;
use vstd::prelude::*;

verus! {

/// A transformation of values of type `A`. It is applied through a shared
/// reference: it holds no state that a call could change, so each result is
/// a function of the argument alone.
pub trait Transform<A> {
    /// The type of the results.
    type Out;

    /// The result on `x`.
    spec fn value(&self, x: A) -> Self::Out;

    /// Applies the transformation.
    fn apply(&self, x: A) -> (y: Self::Out)
        ensures
            y == self.value(x),
    ;
}

/// A property of values of type `T`. It is decided through a shared
/// reference: it holds no state that a call could change, so each answer is
/// a function of the argument alone.
pub trait Predicate<T> {
    /// The property holds of `x`.
    spec fn holds(&self, x: T) -> bool;

    /// Decides the property.
    fn decide(&self, x: &T) -> (r: bool)
        ensures
            r == self.holds(*x),
    ;
}

/// `f` may be called on every argument, and its contract leaves one result
/// for each.
pub open spec fn functional<A, B, F: Fn(A) -> B>(f: F) -> bool {
    &&& forall|x: A| call_requires(f, (x,))
    &&& forall|x: A, y: B, z: B| call_ensures(f, (x,), y) && call_ensures(f, (x,), z) ==> y == z
}

/// The result of `f` on `x`.
pub open spec fn image<A, B, F: Fn(A) -> B>(f: F, x: A) -> B {
    choose|y: B| call_ensures(f, (x,), y)
}

/// `p` may be called on every argument, and its contract leaves one answer
/// for each.
pub open spec fn decisive<T, P: Fn(&T) -> bool>(p: P) -> bool {
    &&& forall|x: T| call_requires(p, (&x,))
    &&& forall|x: T, y: bool, z: bool|
        call_ensures(p, (&x,), y) && call_ensures(p, (&x,), z) ==> y == z
}

/// The answer of `p` on `x`.
pub open spec fn answer<T, P: Fn(&T) -> bool>(p: P, x: T) -> bool {
    choose|y: bool| call_ensures(p, (&x,), y)
}

/// `f` may be called on every argument, and what it returns on `x` is
/// `meaning(x)`.
pub open spec fn computes<A, B, F: Fn(A) -> B>(f: F, meaning: spec_fn(A) -> B) -> bool {
    &&& forall|x: A| call_requires(f, (x,))
    &&& forall|x: A, y: B| call_ensures(f, (x,), y) ==> y == meaning(x)
}

/// `p` may be called on every argument, and what it answers on `x` is
/// `meaning(x)`.
pub open spec fn decides<T, P: Fn(&T) -> bool>(p: P, meaning: spec_fn(T) -> bool) -> bool {
    &&& forall|x: T| call_requires(p, (&x,))
    &&& forall|x: T, y: bool| call_ensures(p, (&x,), y) ==> y == meaning(x)
}

/// A function value as a transformation, together with what it means: the
/// function of the arguments that its results are. A function value is called
/// through a shared reference, so it cannot change from call to call.
#[verifier::reject_recursive_types(A)]
#[verifier::reject_recursive_types(B)]
#[verifier::reject_recursive_types(F)]
pub struct ByFn<A, B, F: Fn(A) -> B> {
    f: F,
    meaning: Ghost<spec_fn(A) -> B>,
    marker: PhantomData<(A, B)>,
}

impl<A, B, F: Fn(A) -> B> ByFn<A, B, F> {
    #[verifier::type_invariant]
    spec fn computes_its_meaning(&self) -> bool {
        computes::<A, B, F>(self.f, self.meaning@)
    }

    /// The function that is held.
    pub closed spec fn inner(&self) -> F {
        self.f
    }

    /// What the function means.
    pub closed spec fn meaning(&self) -> spec_fn(A) -> B {
        self.meaning@
    }

    /// `f` as a transformation that means whatever `f`'s contract leaves as
    /// its result.
    pub closed spec fn of(f: F) -> Self {
        ByFn { f, meaning: Ghost(|x: A| image::<A, B, F>(f, x)), marker: PhantomData }
    }

    /// `f` as a transformation that means `meaning`.
    pub closed spec fn meant(f: F, meaning: spec_fn(A) -> B) -> Self {
        ByFn { f, meaning: Ghost(meaning), marker: PhantomData }
    }

    /// `f` as a transformation. What it means is left to `f`'s contract: the
    /// one result that the contract allows of each call.
    pub fn new(f: F) -> (r: Self)
        requires
            functional::<A, B, F>(f),
        ensures
            r == Self::of(f),
            r.inner() == f,
            forall|x: A| #[trigger] r.value(x) == image::<A, B, F>(f, x),
    {
        let ghost meaning = Self::of(f).meaning@;
        proof {
            assert forall|x: A, y: B| call_ensures(f, (x,), y) implies y == meaning(x) by {
                assert(call_ensures(f, (x,), image::<A, B, F>(f, x)));
            }
        }
        ByFn { f, meaning: Ghost(meaning), marker: PhantomData }
    }

    /// `f` as a transformation that means `meaning`: the results of the
    /// transformation are then known without a call.
    pub fn stating(f: F, meaning: Ghost<spec_fn(A) -> B>) -> (r: Self)
        requires
            computes::<A, B, F>(f, meaning@),
        ensures
            r == Self::meant(f, meaning@),
            r.inner() == f,
            r.meaning() == meaning@,
            forall|x: A| #[trigger] r.value(x) == (meaning@)(x),
    {
        ByFn { f, meaning, marker: PhantomData }
    }
}

impl<A, B, F: Fn(A) -> B> Transform<A> for ByFn<A, B, F> {
    type Out = B;

    open spec fn value(&self, x: A) -> B {
        (self.meaning())(x)
    }

    fn apply(&self, x: A) -> (y: B) {
        proof {
            use_type_invariant(self);
        }
        let y: B = (self.f)(x);
        y
    }
}

/// A function value as a predicate, together with what it means: the
/// property of the arguments that its answers are.
#[verifier::reject_recursive_types(T)]
#[verifier::reject_recursive_types(P)]
pub struct ByTest<T, P: Fn(&T) -> bool> {
    p: P,
    meaning: Ghost<spec_fn(T) -> bool>,
    marker: PhantomData<T>,
}

impl<T, P: Fn(&T) -> bool> ByTest<T, P> {
    #[verifier::type_invariant]
    spec fn decides_its_meaning(&self) -> bool {
        decides::<T, P>(self.p, self.meaning@)
    }

    /// The function that is held.
    pub closed spec fn inner(&self) -> P {
        self.p
    }

    /// What the function means.
    pub closed spec fn meaning(&self) -> spec_fn(T) -> bool {
        self.meaning@
    }

    /// `p` as a predicate that means whatever `p`'s contract leaves as its
    /// answer.
    pub closed spec fn of(p: P) -> Self {
        ByTest { p, meaning: Ghost(|x: T| answer::<T, P>(p, x)), marker: PhantomData }
    }

    /// `p` as a predicate that means `meaning`.
    pub closed spec fn meant(p: P, meaning: spec_fn(T) -> bool) -> Self {
        ByTest { p, meaning: Ghost(meaning), marker: PhantomData }
    }

    /// `p` as a predicate. What it means is left to `p`'s contract: the one
    /// answer that the contract allows of each call.
    pub fn new(p: P) -> (r: Self)
        requires
            decisive::<T, P>(p),
        ensures
            r == Self::of(p),
            r.inner() == p,
            forall|x: T| #[trigger] r.holds(x) == answer::<T, P>(p, x),
    {
        let ghost meaning = Self::of(p).meaning@;
        proof {
            assert forall|x: T, y: bool| call_ensures(p, (&x,), y) implies y == meaning(x) by {
                assert(call_ensures(p, (&x,), answer::<T, P>(p, x)));
            }
        }
        ByTest { p, meaning: Ghost(meaning), marker: PhantomData }
    }

    /// `p` as a predicate that means `meaning`: the answers of the predicate
    /// are then known without a call.
    pub fn stating(p: P, meaning: Ghost<spec_fn(T) -> bool>) -> (r: Self)
        requires
            decides::<T, P>(p, meaning@),
        ensures
            r == Self::meant(p, meaning@),
            r.inner() == p,
            r.meaning() == meaning@,
            forall|x: T| #[trigger] r.holds(x) == (meaning@)(x),
    {
        ByTest { p, meaning, marker: PhantomData }
    }
}

impl<T, P: Fn(&T) -> bool> Predicate<T> for ByTest<T, P> {
    open spec fn holds(&self, x: T) -> bool {
        (self.meaning())(x)
    }

    fn decide(&self, x: &T) -> (r: bool) {
        proof {
            use_type_invariant(self);
        }
        let r: bool = (self.p)(x);
        r
    }
}

} // verus!
