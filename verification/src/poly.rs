//! Univariate polynomial rings.
//!
//! `generic` holds the dense polynomial engine over an arbitrary
//! coefficient ring; this module holds the polynomial-ring contract
//! (`PolynomialRing` / `PolynomialRingElement`) and the user-facing facade
//! types (`PolyRing`, `Poly`) that forward their arithmetic to an inner
//! representation chosen per coefficient ring through `IntoPolyRing`.

use vstd::prelude::*;

use crate::structures::Additive;
use crate::structures::Associative;
use crate::structures::Commutative;
use crate::structures::Distributive;
use crate::structures::Divisible;
use crate::structures::Elem;
use crate::structures::Element;
use crate::structures::Identity;
use crate::structures::IsIdentity;
use crate::structures::Multiplicative;
use crate::structures::New;
use crate::structures::Operation;
use crate::structures::Parent;
use crate::structures::Ring;
use crate::structures::RingElement;
use crate::structures::TwoSidedInverse;
use crate::structures::ring_zero;

pub mod generic;

pub use generic::GenericPoly;
pub use generic::GenericPolyRing;

use generic::zero_ext;

verus! {

/// A structure offering the full polynomial-ring capability surface over
/// the coefficient ring `T`.
pub trait PolynomialRing<T: Ring>: Identity<Additive> + Divisible<Additive> + Associative<
    Additive,
> + Commutative<Additive> + Identity<Multiplicative> + Associative<Multiplicative> + Commutative<
    Multiplicative,
> + Distributive where
    Elem<T>: RingElement<Parent = T>,
    Self::Element: PolynomialRingElement<T, Parent = Self>,
 {
    /// The base ring of this polynomial ring.
    spec fn base_ring_spec(&self) -> T;

    /// The printable variable name of this polynomial ring.
    spec fn var_spec(&self) -> Seq<char>;

    /// Initialize the polynomial ring from a base ring and a variable
    /// name used for printing.
    fn init(ring: &T, var: &str) -> (r: Self)
        ensures
            r.base_ring_spec() == *ring,
            r.var_spec() == var@,
    ;

    /// A reference to the base ring.
    fn base_ring(&self) -> (r: &T)
        ensures
            *r == self.base_ring_spec(),
    ;

    /// The printable variable name.
    fn var(&self) -> (r: String)
        ensures
            r@ == self.var_spec(),
    ;

    /// Change the printable variable name of this ring handle. The name
    /// is presentation metadata only: it does not affect the ring's
    /// mathematical identity, membership, or existing elements.
    fn set_var(&mut self, var: &str)
        ensures
            final (self).var_spec() == var@,
            final (self).base_ring_spec() == old(self).base_ring_spec(),
            forall|x: Self::Element| #[trigger]
                final (self).contains(&x) == old(self).contains(&x),
    ;

    /// The number of variables: one, this being a univariate engine.
    fn nvars(&self) -> (r: i64)
        ensures
            r == 1,
    ;

    /// Decide equality of two polynomial rings: equality of their base
    /// rings (the variable name is presentation metadata).
    fn eq_ring(&self, other: &Self) -> (r: bool)
        ensures
            r == (self.base_ring_spec() == other.base_ring_spec()),
    ;

    /// The zero polynomial of this ring.
    fn zero(&self) -> (r: Self::Element)
        ensures
            r@ == Identity::<Additive>::identity_spec(self),
            self.contains(&r),
            r.has_parent(self),
    ;

    /// The one polynomial of this ring.
    fn one(&self) -> (r: Self::Element)
        ensures
            r@ == Identity::<Multiplicative>::identity_spec(self),
            self.contains(&r),
            r.has_parent(self),
    ;

    /// Whether this ring is the generic (ring-agnostic) engine.
    fn is_generic(&self) -> bool;
}

/// An element of a polynomial ring over the coefficient ring `T`: its
/// view is its coefficient sequence, index 0 the constant term.
pub trait PolynomialRingElement<T: Ring>: Element + View<V = Seq<Elem<T>>> + Operation<
    Additive,
> + IsIdentity<Additive> + TwoSidedInverse<Additive> + Operation<Multiplicative> + IsIdentity<
    Multiplicative,
> where Elem<T>: RingElement<Parent = T> {
    /// The base ring this polynomial's coefficients live in.
    spec fn base_ring_spec(&self) -> T;

    /// The printable variable name this polynomial carries.
    spec fn var_spec(&self) -> Seq<char>;

    /// A reference to the base ring.
    fn base_ring(&self) -> (r: &T)
        ensures
            *r == self.base_ring_spec(),
    ;

    /// The printable variable name.
    fn var(&self) -> (r: String)
        ensures
            r@ == self.var_spec(),
    ;

    /// The length of the polynomial: the number of stored coefficients,
    /// always the degree plus one.
    fn len(&self) -> (r: usize)
        ensures
            r == self@.len(),
    ;

    /// The degree of the polynomial: always the length minus one.
    fn degree(&self) -> (r: i64)
        requires
            1 <= self@.len() <= i64::MAX,
        ensures
            r == self@.len() - 1,
    ;

    /// The coefficient at index `i`: the stored coefficient within the
    /// current length, the base ring's zero beyond it. Reads never fail
    /// and never resize.
    fn get_coefficient(&self, i: usize) -> (r: Elem<T>)
        ensures
            i < self@.len() ==> r == self@[i as int],
            i >= self@.len() ==> r == ring_zero::<T>(self.base_ring_spec()),
    ;

    /// Short name for `get_coefficient`.
    fn get_coeff(&self, i: usize) -> (r: Elem<T>)
        ensures
            i < self@.len() ==> r == self@[i as int],
            i >= self@.len() ==> r == ring_zero::<T>(self.base_ring_spec()),
    ;

    /// Store `coeff` at index `i`, first growing the polynomial with the
    /// base ring's zero when `i` is beyond the current length: the length
    /// becomes `i + 1` and every newly introduced coefficient below `i`
    /// reads as zero.
    fn set_coefficient(&mut self, i: usize, coeff: Elem<T>)
        requires
            i < usize::MAX,
        ensures
            final (self)@.len() == if i < old(self)@.len() {
                old(self)@.len() as int
            } else {
                i + 1
            },
            final (self)@[i as int] == coeff,
            forall|j: int|
                0 <= j < final (self)@.len() && j != i ==> final (self)@[j] == zero_ext::<T>(
                    old(self)@,
                    ring_zero::<T>(old(self).base_ring_spec()),
                    j,
                ),
            final (self).base_ring_spec() == old(self).base_ring_spec(),
            final (self).var_spec() == old(self).var_spec(),
    ;

    /// Short name for `set_coefficient`.
    fn set_coeff(&mut self, i: usize, coeff: Elem<T>)
        requires
            i < usize::MAX,
        ensures
            final (self)@.len() == if i < old(self)@.len() {
                old(self)@.len() as int
            } else {
                i + 1
            },
            final (self)@[i as int] == coeff,
            forall|j: int|
                0 <= j < final (self)@.len() && j != i ==> final (self)@[j] == zero_ext::<T>(
                    old(self)@,
                    ring_zero::<T>(old(self).base_ring_spec()),
                    j,
                ),
            final (self).base_ring_spec() == old(self).base_ring_spec(),
            final (self).var_spec() == old(self).var_spec(),
    ;

    /// A copy of all stored coefficients.
    fn get_coefficients(&self) -> (r: Vec<Elem<T>>)
        ensures
            r@ == self@,
    ;

    /// Short name for `get_coefficients`.
    fn get_coeffs(&self) -> (r: Vec<Elem<T>>)
        ensures
            r@ == self@,
    ;

    /// Whether this polynomial is (mathematically) zero.
    fn is_zero(&self) -> (r: bool)
        ensures
            r == <Self as IsIdentity<Additive>>::is_identity_spec(self),
    ;

    /// Whether this polynomial is (mathematically) one.
    fn is_one(&self) -> (r: bool)
        ensures
            r == <Self as IsIdentity<Multiplicative>>::is_identity_spec(self),
    ;

    /// Decide equality of two polynomials: lengths match and every
    /// coefficient pair compares equal. No trimming of trailing zeros is
    /// performed before comparison.
    fn eq_poly(&self, other: &Self) -> (r: bool)
        ensures
            r == (self@ == other@),
    ;

    /// Render this polynomial: coefficients from highest degree to
    /// lowest, zero terms omitted, coefficient one and exponent one left
    /// implicit, terms joined with " + ".
    fn poly_string(&self) -> (r: String)
        ensures
            r@ == generic::poly_str_spec::<T>(self@, self.var_spec()),
    ;

    /// Whether this element belongs to the generic (ring-agnostic)
    /// engine.
    fn is_generic(&self) -> bool;
}

} // verus!

verus! {

/// A coefficient ring's choice of inner polynomial-ring representation:
/// the backend that the facade types forward to.
pub trait IntoPolyRing: Ring where
    Elem<Self>: RingElement<Parent = Self>,
    <Self::Inner as Parent>::Element: PolynomialRingElement<Self, Parent = Self::Inner>,
 {
    type Inner: PolynomialRing<Self>;
}

/// The inner polynomial-ring representation chosen by `T`.
pub type InnerPolyRing<T> = <T as IntoPolyRing>::Inner;

/// The element type of the inner representation chosen by `T`.
pub type InnerPoly<T> = <<T as IntoPolyRing>::Inner as Parent>::Element;

/// The user-facing polynomial ring over `T`: a facade owning exactly one
/// inner representation, to which it forwards everything.
#[verifier::reject_recursive_types(T)]
pub struct PolyRing<T: IntoPolyRing> where Elem<T>: RingElement<Parent = T> {
    pub inner: InnerPolyRing<T>,
}

/// The user-facing polynomial over `T`: a facade owning exactly one inner
/// representation, to which it forwards everything.
#[verifier::reject_recursive_types(T)]
pub struct Poly<T: IntoPolyRing> where Elem<T>: RingElement<Parent = T> {
    pub inner: InnerPoly<T>,
}

impl<T: IntoPolyRing> PolyRing<T> where
    Elem<T>: RingElement<Parent = T>,
    InnerPoly<T>: PolynomialRingElement<T, Parent = InnerPolyRing<T>>,
 {
    /// A reference to the inner representation.
    pub fn inner(&self) -> (r: &InnerPolyRing<T>)
        ensures
            *r == self.inner,
    {
        &self.inner
    }

    /// A mutable reference to the inner representation.
    pub fn inner_mut(&mut self) -> (r: &mut InnerPolyRing<T>)
        ensures
            *r == old(self).inner,
            final (self).inner == *final (r),
    {
        &mut self.inner
    }

    /// Consume the facade, yielding the inner representation.
    pub fn into_inner(self) -> (r: InnerPolyRing<T>)
        ensures
            r == self.inner,
    {
        self.inner
    }
}

impl<T: IntoPolyRing> Poly<T> where
    Elem<T>: RingElement<Parent = T>,
    InnerPoly<T>: PolynomialRingElement<T, Parent = InnerPolyRing<T>>,
 {
    /// A reference to the inner representation.
    pub fn inner(&self) -> (r: &InnerPoly<T>)
        ensures
            *r == self.inner,
    {
        &self.inner
    }

    /// A mutable reference to the inner representation.
    pub fn inner_mut(&mut self) -> (r: &mut InnerPoly<T>)
        ensures
            *r == old(self).inner,
            final (self).inner == *final (r),
    {
        &mut self.inner
    }

    /// Consume the facade, yielding the inner representation.
    pub fn into_inner(self) -> (r: InnerPoly<T>)
        ensures
            r == self.inner,
    {
        self.inner
    }
}

impl<T: IntoPolyRing> View for Poly<T> where
    Elem<T>: RingElement<Parent = T>,
    InnerPoly<T>: PolynomialRingElement<T, Parent = InnerPolyRing<T>>,
 {
    type V = Seq<Elem<T>>;

    open spec fn view(&self) -> Seq<Elem<T>> {
        self.inner@
    }
}

impl<T: IntoPolyRing> Parent for PolyRing<T> where
    Elem<T>: RingElement<Parent = T>,
    InnerPoly<T>: PolynomialRingElement<T, Parent = InnerPolyRing<T>>,
 {
    type Element = Poly<T>;

    open spec fn contains(&self, x: &Poly<T>) -> bool {
        self.inner.contains(&x.inner)
    }
}

impl<T: IntoPolyRing> Element for Poly<T> where
    Elem<T>: RingElement<Parent = T>,
    InnerPoly<T>: PolynomialRingElement<T, Parent = InnerPolyRing<T>>,
 {
    type Parent = PolyRing<T>;

    open spec fn has_parent(&self, p: &PolyRing<T>) -> bool {
        self.inner.has_parent(&p.inner)
    }

    fn parent(&self) -> (p: PolyRing<T>) {
        PolyRing { inner: self.inner.parent() }
    }
}

impl<T: IntoPolyRing> Operation<Additive> for Poly<T> where
    Elem<T>: RingElement<Parent = T>,
    InnerPoly<T>: PolynomialRingElement<T, Parent = InnerPolyRing<T>>,
 {
    open spec fn op_req(&self, right: &Self) -> bool {
        <InnerPoly<T> as Operation<Additive>>::op_req(&self.inner, &right.inner)
    }

    open spec fn op_spec(&self, right: &Self) -> Seq<Elem<T>> {
        <InnerPoly<T> as Operation<Additive>>::op_spec(&self.inner, &right.inner)
    }

    fn operate(&self, o: Additive, right: &Self) -> (r: Self) {
        let r = Poly { inner: self.inner.operate(Additive, &right.inner) };
        proof {
            assert forall|p: PolyRing<T>|
                p.contains(self) && p.contains(right) implies #[trigger] p.contains(&r) by {
                assert(p.inner.contains(&r.inner));
            }
        }
        r
    }
}

impl<T: IntoPolyRing> Operation<Multiplicative> for Poly<T> where
    Elem<T>: RingElement<Parent = T>,
    InnerPoly<T>: PolynomialRingElement<T, Parent = InnerPolyRing<T>>,
 {
    open spec fn op_req(&self, right: &Self) -> bool {
        <InnerPoly<T> as Operation<Multiplicative>>::op_req(&self.inner, &right.inner)
    }

    open spec fn op_spec(&self, right: &Self) -> Seq<Elem<T>> {
        <InnerPoly<T> as Operation<Multiplicative>>::op_spec(&self.inner, &right.inner)
    }

    fn operate(&self, o: Multiplicative, right: &Self) -> (r: Self) {
        let r = Poly { inner: self.inner.operate(Multiplicative, &right.inner) };
        proof {
            assert forall|p: PolyRing<T>|
                p.contains(self) && p.contains(right) implies #[trigger] p.contains(&r) by {
                assert(p.inner.contains(&r.inner));
            }
        }
        r
    }
}

impl<T: IntoPolyRing> IsIdentity<Additive> for Poly<T> where
    Elem<T>: RingElement<Parent = T>,
    InnerPoly<T>: PolynomialRingElement<T, Parent = InnerPolyRing<T>>,
 {
    open spec fn is_identity_spec(&self) -> bool {
        <InnerPoly<T> as IsIdentity<Additive>>::is_identity_spec(&self.inner)
    }

    fn is_identity(&self, o: Additive) -> (r: bool) {
        self.inner.is_identity(Additive)
    }
}

impl<T: IntoPolyRing> IsIdentity<Multiplicative> for Poly<T> where
    Elem<T>: RingElement<Parent = T>,
    InnerPoly<T>: PolynomialRingElement<T, Parent = InnerPolyRing<T>>,
 {
    open spec fn is_identity_spec(&self) -> bool {
        <InnerPoly<T> as IsIdentity<Multiplicative>>::is_identity_spec(&self.inner)
    }

    fn is_identity(&self, o: Multiplicative) -> (r: bool) {
        self.inner.is_identity(Multiplicative)
    }
}

impl<T: IntoPolyRing> TwoSidedInverse<Additive> for Poly<T> where
    Elem<T>: RingElement<Parent = T>,
    InnerPoly<T>: PolynomialRingElement<T, Parent = InnerPolyRing<T>>,
 {
    open spec fn inverse_spec(&self) -> Seq<Elem<T>> {
        <InnerPoly<T> as TwoSidedInverse<Additive>>::inverse_spec(&self.inner)
    }

    fn two_sided_inverse(&self, o: Additive) -> (r: Self) {
        let r = Poly { inner: self.inner.two_sided_inverse(Additive) };
        proof {
            assert forall|p: PolyRing<T>| p.contains(self) implies #[trigger] p.contains(&r) by {
                assert(p.inner.contains(&r.inner));
            }
        }
        r
    }
}

impl<T: IntoPolyRing> Identity<Additive> for PolyRing<T> where
    Elem<T>: RingElement<Parent = T>,
    InnerPoly<T>: PolynomialRingElement<T, Parent = InnerPolyRing<T>>,
 {
    open spec fn identity_spec(&self) -> Seq<Elem<T>> {
        Identity::<Additive>::identity_spec(&self.inner)
    }

    fn identity(&self, o: Additive) -> (r: Poly<T>) {
        Poly { inner: self.inner.identity(Additive) }
    }

    proof fn lemma_identity(&self, x: &Poly<T>, id: &Poly<T>) {
        <InnerPolyRing<T> as Identity<Additive>>::lemma_identity(
            &self.inner,
            &x.inner,
            &id.inner,
        );
    }
}

impl<T: IntoPolyRing> Identity<Multiplicative> for PolyRing<T> where
    Elem<T>: RingElement<Parent = T>,
    InnerPoly<T>: PolynomialRingElement<T, Parent = InnerPolyRing<T>>,
 {
    open spec fn identity_spec(&self) -> Seq<Elem<T>> {
        Identity::<Multiplicative>::identity_spec(&self.inner)
    }

    fn identity(&self, o: Multiplicative) -> (r: Poly<T>) {
        Poly { inner: self.inner.identity(Multiplicative) }
    }

    proof fn lemma_identity(&self, x: &Poly<T>, id: &Poly<T>) {
        <InnerPolyRing<T> as Identity<Multiplicative>>::lemma_identity(
            &self.inner,
            &x.inner,
            &id.inner,
        );
    }
}

impl<T: IntoPolyRing> Divisible<Additive> for PolyRing<T> where
    Elem<T>: RingElement<Parent = T>,
    InnerPoly<T>: PolynomialRingElement<T, Parent = InnerPolyRing<T>>,
 {
    proof fn lemma_inverse(&self, x: &Poly<T>, inv: &Poly<T>, rl: &Poly<T>, rr: &Poly<T>) {
        <InnerPolyRing<T> as Divisible<Additive>>::lemma_inverse(
            &self.inner,
            &x.inner,
            &inv.inner,
            &rl.inner,
            &rr.inner,
        );
    }
}

impl<T: IntoPolyRing> Associative<Additive> for PolyRing<T> where
    Elem<T>: RingElement<Parent = T>,
    InnerPoly<T>: PolynomialRingElement<T, Parent = InnerPolyRing<T>>,
 {

}

impl<T: IntoPolyRing> Commutative<Additive> for PolyRing<T> where
    Elem<T>: RingElement<Parent = T>,
    InnerPoly<T>: PolynomialRingElement<T, Parent = InnerPolyRing<T>>,
 {

}

impl<T: IntoPolyRing> Associative<Multiplicative> for PolyRing<T> where
    Elem<T>: RingElement<Parent = T>,
    InnerPoly<T>: PolynomialRingElement<T, Parent = InnerPolyRing<T>>,
 {

}

impl<T: IntoPolyRing> Commutative<Multiplicative> for PolyRing<T> where
    Elem<T>: RingElement<Parent = T>,
    InnerPoly<T>: PolynomialRingElement<T, Parent = InnerPolyRing<T>>,
 {

}

impl<T: IntoPolyRing> Distributive for PolyRing<T> where
    Elem<T>: RingElement<Parent = T>,
    InnerPoly<T>: PolynomialRingElement<T, Parent = InnerPolyRing<T>>,
 {

}

impl<T: IntoPolyRing> PolynomialRing<T> for PolyRing<T> where
    Elem<T>: RingElement<Parent = T>,
    InnerPoly<T>: PolynomialRingElement<T, Parent = InnerPolyRing<T>>,
 {
    open spec fn base_ring_spec(&self) -> T {
        self.inner.base_ring_spec()
    }

    open spec fn var_spec(&self) -> Seq<char> {
        self.inner.var_spec()
    }

    fn init(ring: &T, var: &str) -> (r: Self) {
        PolyRing { inner: <InnerPolyRing<T> as PolynomialRing<T>>::init(ring, var) }
    }

    fn base_ring(&self) -> (r: &T) {
        self.inner.base_ring()
    }

    fn var(&self) -> (r: String) {
        self.inner.var()
    }

    fn set_var(&mut self, var: &str) {
        self.inner.set_var(var);
    }

    fn nvars(&self) -> (r: i64) {
        1
    }

    fn eq_ring(&self, other: &Self) -> (r: bool) {
        self.inner.eq_ring(&other.inner)
    }

    fn zero(&self) -> (r: Poly<T>) {
        Identity::<Additive>::identity(self, Additive)
    }

    fn one(&self) -> (r: Poly<T>) {
        Identity::<Multiplicative>::identity(self, Multiplicative)
    }

    fn is_generic(&self) -> bool {
        self.inner.is_generic()
    }
}

impl<T: IntoPolyRing> PolynomialRingElement<T> for Poly<T> where
    Elem<T>: RingElement<Parent = T>,
    InnerPoly<T>: PolynomialRingElement<T, Parent = InnerPolyRing<T>>,
 {
    open spec fn base_ring_spec(&self) -> T {
        self.inner.base_ring_spec()
    }

    open spec fn var_spec(&self) -> Seq<char> {
        self.inner.var_spec()
    }

    fn base_ring(&self) -> (r: &T) {
        self.inner.base_ring()
    }

    fn var(&self) -> (r: String) {
        self.inner.var()
    }

    fn len(&self) -> (r: usize) {
        self.inner.len()
    }

    fn degree(&self) -> (r: i64) {
        self.inner.degree()
    }

    fn get_coefficient(&self, i: usize) -> (r: Elem<T>) {
        self.inner.get_coefficient(i)
    }

    fn get_coeff(&self, i: usize) -> (r: Elem<T>) {
        self.inner.get_coefficient(i)
    }

    fn set_coefficient(&mut self, i: usize, coeff: Elem<T>) {
        self.inner.set_coefficient(i, coeff);
    }

    fn set_coeff(&mut self, i: usize, coeff: Elem<T>) {
        self.inner.set_coefficient(i, coeff);
    }

    fn get_coefficients(&self) -> (r: Vec<Elem<T>>) {
        self.inner.get_coefficients()
    }

    fn get_coeffs(&self) -> (r: Vec<Elem<T>>) {
        self.inner.get_coefficients()
    }

    fn is_zero(&self) -> (r: bool) {
        self.inner.is_identity(Additive)
    }

    fn is_one(&self) -> (r: bool) {
        self.inner.is_identity(Multiplicative)
    }

    fn eq_poly(&self, other: &Self) -> (r: bool) {
        self.inner.eq_poly(&other.inner)
    }

    fn poly_string(&self) -> (r: String) {
        self.inner.poly_string()
    }

    fn is_generic(&self) -> bool {
        self.inner.is_generic()
    }
}

impl<T: IntoPolyRing, S> New<S> for PolyRing<T> where
    Elem<T>: RingElement<Parent = T>,
    InnerPoly<T>: PolynomialRingElement<T, Parent = InnerPolyRing<T>>,
    InnerPolyRing<T>: New<S>,
 {
    open spec fn new_req(&self, src: &S) -> bool {
        self.inner.new_req(src)
    }

    open spec fn new_spec(&self, src: &S) -> Seq<Elem<T>> {
        self.inner.new_spec(src)
    }

    fn new(&self, src: S) -> (r: Poly<T>) {
        Poly { inner: self.inner.new(src) }
    }
}

impl<T: IntoPolyRing> PartialEq for PolyRing<T> where
    Elem<T>: RingElement<Parent = T>,
    InnerPoly<T>: PolynomialRingElement<T, Parent = InnerPolyRing<T>>,
 {
    fn eq(&self, other: &Self) -> (r: bool) {
        self.inner.eq_ring(&other.inner)
    }
}

impl<T: IntoPolyRing> vstd::std_specs::cmp::PartialEqSpecImpl for PolyRing<T> where
    Elem<T>: RingElement<Parent = T>,
    InnerPoly<T>: PolynomialRingElement<T, Parent = InnerPolyRing<T>>,
 {
    open spec fn obeys_eq_spec() -> bool {
        true
    }

    open spec fn eq_spec(&self, other: &Self) -> bool {
        self.inner.base_ring_spec() == other.inner.base_ring_spec()
    }
}

impl<T: IntoPolyRing> PartialEq for Poly<T> where
    Elem<T>: RingElement<Parent = T>,
    InnerPoly<T>: PolynomialRingElement<T, Parent = InnerPolyRing<T>>,
 {
    fn eq(&self, other: &Self) -> (r: bool) {
        self.inner.eq_poly(&other.inner)
    }
}

impl<T: IntoPolyRing> vstd::std_specs::cmp::PartialEqSpecImpl for Poly<T> where
    Elem<T>: RingElement<Parent = T>,
    InnerPoly<T>: PolynomialRingElement<T, Parent = InnerPolyRing<T>>,
 {
    open spec fn obeys_eq_spec() -> bool {
        true
    }

    open spec fn eq_spec(&self, other: &Self) -> bool {
        self@ == other@
    }
}

} // verus!

verus! {

impl<T: IntoPolyRing, Op> crate::ops::BinAssign<Op> for Poly<T> where
    Elem<T>: RingElement<Parent = T>,
    InnerPoly<T>: PolynomialRingElement<T, Parent = InnerPolyRing<T>>,
    InnerPoly<T>: crate::ops::BinAssign<Op>,
 {
    open spec fn bin_req(&self, rhs: &Self) -> bool {
        self.inner.bin_req(&rhs.inner)
    }

    open spec fn bin_spec(&self, rhs: &Self) -> Seq<Elem<T>> {
        self.inner.bin_spec(&rhs.inner)
    }

    open spec fn bin_from_spec(&self, lhs: &Self) -> Seq<Elem<T>> {
        self.inner.bin_from_spec(&lhs.inner)
    }

    fn op_assign(&mut self, rhs: &Self) {
        self.inner.op_assign(&rhs.inner);
    }

    fn op_from(&mut self, lhs: &Self) {
        self.inner.op_from(&lhs.inner);
    }

    fn clone_val(&self) -> (r: Self) {
        let r = Poly { inner: self.inner.clone_val() };
        proof {
            assert forall|x: Self| #[trigger] r.bin_spec(&x) == self.bin_spec(&x) by {
                assert(r.inner.bin_spec(&x.inner) == self.inner.bin_spec(&x.inner));
            }
            assert forall|x: Self| #[trigger] r.bin_req(&x) == self.bin_req(&x) by {
                assert(r.inner.bin_req(&x.inner) == self.inner.bin_req(&x.inner));
            }
            assert forall|x: Self| #[trigger] r.bin_from_spec(&x) == self.bin_from_spec(&x) by {
                assert(r.inner.bin_from_spec(&x.inner) == self.inner.bin_from_spec(&x.inner));
            }
        }
        r
    }
}

impl<T: IntoPolyRing, Op> crate::ops::UnAssign<Op> for Poly<T> where
    Elem<T>: RingElement<Parent = T>,
    InnerPoly<T>: PolynomialRingElement<T, Parent = InnerPolyRing<T>>,
    InnerPoly<T>: crate::ops::UnAssign<Op>,
 {
    open spec fn un_spec(&self) -> Seq<Elem<T>> {
        self.inner.un_spec()
    }

    fn un_assign(&mut self) {
        self.inner.un_assign();
    }

    fn clone_un(&self) -> (r: Self) {
        Poly { inner: self.inner.clone_un() }
    }
}

impl<T: IntoPolyRing> Poly<T> where
    Elem<T>: RingElement<Parent = T>,
    InnerPoly<T>: PolynomialRingElement<T, Parent = InnerPolyRing<T>>,
    InnerPoly<T>: crate::ops::BinAssign<crate::ops::AddOp>,
 {
    /// The sum of two borrowed polynomials.
    pub fn add(&self, rhs: &Self) -> (r: Self)
        requires
            crate::ops::BinAssign::<crate::ops::AddOp>::bin_req(self, rhs),
        ensures
            r@ == crate::ops::BinAssign::<crate::ops::AddOp>::bin_spec(self, rhs),
            forall|p: PolyRing<T>| #[trigger] r.has_parent(&p) <==> self.has_parent(&p),
    {
        crate::ops::binop_ref_ref::<crate::ops::AddOp, Self>(self, rhs)
    }
}

impl<T: IntoPolyRing> Poly<T> where
    Elem<T>: RingElement<Parent = T>,
    InnerPoly<T>: PolynomialRingElement<T, Parent = InnerPolyRing<T>>,
    InnerPoly<T>: crate::ops::BinAssign<crate::ops::SubOp>,
 {
    /// The difference of two borrowed polynomials.
    pub fn sub(&self, rhs: &Self) -> (r: Self)
        requires
            crate::ops::BinAssign::<crate::ops::SubOp>::bin_req(self, rhs),
        ensures
            r@ == crate::ops::BinAssign::<crate::ops::SubOp>::bin_spec(self, rhs),
            forall|p: PolyRing<T>| #[trigger] r.has_parent(&p) <==> self.has_parent(&p),
    {
        crate::ops::binop_ref_ref::<crate::ops::SubOp, Self>(self, rhs)
    }
}

impl<T: IntoPolyRing> Poly<T> where
    Elem<T>: RingElement<Parent = T>,
    InnerPoly<T>: PolynomialRingElement<T, Parent = InnerPolyRing<T>>,
    InnerPoly<T>: crate::ops::BinAssign<crate::ops::MulOp>,
 {
    /// The product of two borrowed polynomials.
    pub fn mul(&self, rhs: &Self) -> (r: Self)
        requires
            crate::ops::BinAssign::<crate::ops::MulOp>::bin_req(self, rhs),
        ensures
            r@ == crate::ops::BinAssign::<crate::ops::MulOp>::bin_spec(self, rhs),
            forall|p: PolyRing<T>| #[trigger] r.has_parent(&p) <==> self.has_parent(&p),
    {
        crate::ops::binop_ref_ref::<crate::ops::MulOp, Self>(self, rhs)
    }
}

impl<T: IntoPolyRing> Poly<T> where
    Elem<T>: RingElement<Parent = T>,
    InnerPoly<T>: PolynomialRingElement<T, Parent = InnerPolyRing<T>>,
    InnerPoly<T>: crate::ops::UnAssign<crate::ops::NegOp>,
 {
    /// The negation of a borrowed polynomial.
    pub fn neg(&self) -> (r: Self)
        ensures
            r@ == crate::ops::UnAssign::<crate::ops::NegOp>::un_spec(self),
            forall|p: PolyRing<T>| #[trigger] r.has_parent(&p) <==> self.has_parent(&p),
    {
        crate::ops::unop_ref::<crate::ops::NegOp, Self>(self)
    }
}

impl<T: IntoPolyRing> Clone for Poly<T> where
    Elem<T>: RingElement<Parent = T>,
    InnerPoly<T>: PolynomialRingElement<T, Parent = InnerPolyRing<T>>,
    InnerPoly<T>: crate::ops::BinAssign<crate::ops::AddOp>,
 {
    /// Clone this polynomial: same coefficients, same context.
    fn clone(&self) -> (r: Self)
        ensures
            r@ == self@,
    {
        crate::ops::BinAssign::<crate::ops::AddOp>::clone_val(self)
    }
}

} // verus!
