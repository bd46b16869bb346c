//! Capability tags and the Parent/Element contract.
//!
//! A *structure* (parent) is an algebraic domain instance; an *element*
//! belongs to exactly one structure. Capability traits declare, per
//! operation kind (`Additive` / `Multiplicative`), what a structure offers:
//! an identity element, two-sided inverses, associativity, commutativity,
//! and distributivity. The identity and inverse capabilities carry proof
//! obligations, so every implementation must establish the corresponding
//! laws. Associativity, commutativity and distributivity are pure
//! declarations: they carry no runtime state and no proof obligation.
//!
//! Contracts are stated over each element type's view (`@`). A base ring's
//! elements are their own view; composite elements (polynomials, matrices)
//! view to the sequence of their coefficients or entries, which is exactly
//! the content their equality compares.

use vstd::prelude::*;

verus! {

/// Capability tag for the additive operation kind.
#[derive(Clone, Copy)]
pub struct Additive;

/// Capability tag for the multiplicative operation kind.
#[derive(Clone, Copy)]
pub struct Multiplicative;

/// A structure (parent): an algebraic domain that elements belong to.
///
/// `contains` is the structure's specification-level membership predicate:
/// the domain over which the capability laws are stated.
pub trait Parent: Sized {
    type Element;

    /// Membership: `x` is a well-formed element of this structure.
    spec fn contains(&self, x: &Self::Element) -> bool;
}

/// Convenient name for the element type of a structure.
pub type Elem<T> = <T as Parent>::Element;

/// An element: a value belonging to exactly one structure, which it can
/// report. `has_parent` says, per element type, what it means for a
/// structure value to be this element's parent.
pub trait Element: View + Sized {
    type Parent: Parent<Element = Self>;

    /// The relation between an element and its parent structure.
    spec fn has_parent(&self, p: &Self::Parent) -> bool;

    /// Report the parent structure of this element.
    fn parent(&self) -> (p: Self::Parent)
        ensures
            self.has_parent(&p),
    ;
}

/// The binary operation of kind `O` on an element type.
///
/// `op_spec` gives the mathematical content (the view) of the result of
/// combining two elements; `operate` computes it. The operation is closed:
/// on elements of a common structure it yields an element of
/// that structure.
pub trait Operation<O>: Element {
    /// What the machine requires of the operands (a result length that
    /// fits in `usize`, for composite representations); `true` for scalar
    /// operations.
    spec fn op_req(&self, right: &Self) -> bool;

    /// The view of the result of combining `self` with `right`.
    spec fn op_spec(&self, right: &Self) -> Self::V;

    /// Combine two elements under the operation of kind `O`.
    fn operate(&self, o: O, right: &Self) -> (r: Self)
        requires
            self.op_req(right),
        ensures
            r@ == self.op_spec(right),
            forall|p: Self::Parent|
                p.contains(self) && p.contains(right) ==> #[trigger] p.contains(&r),
    ;
}

/// The test "is this element the identity of kind `O`?".
///
/// Identity is tested up to mathematical content: an element whose view
/// carries the identity's content passes the test even when a composite
/// representation is not in minimal form.
pub trait IsIdentity<O>: Operation<O> {
    /// Whether this element is (mathematically) the identity of kind `O`.
    spec fn is_identity_spec(&self) -> bool;

    /// Decide whether this element is the identity of kind `O`.
    fn is_identity(&self, o: O) -> (r: bool)
        ensures
            r == self.is_identity_spec(),
    ;
}

/// The two-sided inverse of kind `O` on an element type.
pub trait TwoSidedInverse<O>: Operation<O> {
    /// The view of the inverse of this element.
    spec fn inverse_spec(&self) -> Self::V;

    /// Compute the two-sided inverse of this element.
    fn two_sided_inverse(&self, o: O) -> (r: Self)
        ensures
            r@ == self.inverse_spec(),
            forall|p: Self::Parent| p.contains(self) ==> #[trigger] p.contains(&r),
    ;
}

/// Capability: the structure has an identity element for kind `O`.
///
/// Carries the identity law as a proof obligation: combining any element
/// of the structure with the identity, on either side, leaves its
/// mathematical content unchanged.
pub trait Identity<O>: Parent where Self::Element: Operation<O> + Element<Parent = Self> {
    /// The view of the identity element of kind `O`.
    spec fn identity_spec(&self) -> <Self::Element as View>::V;

    /// Produce the identity element of kind `O`.
    fn identity(&self, o: O) -> (r: Self::Element)
        ensures
            r@ == self.identity_spec(),
            self.contains(&r),
            r.has_parent(self),
    ;

    /// Law: combining any element with the identity leaves it unchanged.
    proof fn lemma_identity(&self, x: &Self::Element, id: &Self::Element)
        requires
            self.contains(x),
            self.contains(id),
            id@ == self.identity_spec(),
        ensures
            x.op_spec(id) == x@,
            id.op_spec(x) == x@,
    ;
}

/// Capability: every element of the structure has a two-sided inverse
/// under the operation of kind `O`.
///
/// Carries the inverse law as a proof obligation: combining an element
/// with its inverse, on either side, yields the identity (up to
/// mathematical content, as tested by `IsIdentity`).
pub trait Divisible<O>: Identity<O> where Self::Element: TwoSidedInverse<O> + IsIdentity<O> + Element<Parent = Self> {
    /// Law: an element combined with its inverse is the identity.
    proof fn lemma_inverse(
        &self,
        x: &Self::Element,
        inv: &Self::Element,
        rl: &Self::Element,
        rr: &Self::Element,
    )
        requires
            self.contains(x),
            self.contains(inv),
            inv@ == x.inverse_spec(),
            rl@ == x.op_spec(inv),
            rr@ == inv.op_spec(x),
        ensures
            rl.is_identity_spec(),
            rr.is_identity_spec(),
    ;
}

/// Declaration: the operation of kind `O` is associative on this
/// structure. A pure capability marker.
pub trait Associative<O>: Parent where Self::Element: Operation<O> {

}

/// Declaration: the operation of kind `O` is commutative on this
/// structure. A pure capability marker.
pub trait Commutative<O>: Parent where Self::Element: Operation<O> {

}

/// Declaration: the multiplicative operation distributes over the
/// additive one on this structure. A pure capability marker.
pub trait Distributive: Parent where
    Self::Element: Operation<Additive> + Operation<Multiplicative>
 {

}

/// The operations a base-ring element offers beyond the capability
/// traits: contracted cloning, equality, a printable form, and a
/// subtraction primitive tied to addition by the cancellation and
/// inverse laws. A base-ring element is its own view.
pub trait RingElement: Element + View<V = Self> + Operation<Additive> + IsIdentity<
    Additive,
> + TwoSidedInverse<Additive> + Operation<Multiplicative> + IsIdentity<Multiplicative> {
    /// The printable form of this element.
    spec fn str_spec(&self) -> Seq<char>;

    /// Law: a base-ring element is its own view.
    proof fn lemma_self_view(&self)
        ensures
            *self == self@,
    ;

    /// Law: base-ring operations are total (their machine requirement is
    /// trivial).
    proof fn lemma_ops_total(&self, right: &Self)
        ensures
            <Self as Operation<Additive>>::op_req(self, right),
            <Self as Operation<Multiplicative>>::op_req(self, right),
    ;

    /// Law: the base-ring operations are closed on every structure that
    /// contains their operands.
    proof fn lemma_ops_closed(&self, right: &Self, p: &Self::Parent)
        requires
            p.contains(self),
            p.contains(right),
        ensures
            p.contains(&<Self as Operation<Additive>>::op_spec(self, right)),
            p.contains(&<Self as Operation<Multiplicative>>::op_spec(self, right)),
            p.contains(&<Self as TwoSidedInverse<Additive>>::inverse_spec(self)),
            p.contains(&self.sub_spec(right)),
    ;

    /// Clone this element.
    fn clone_elem(&self) -> (r: Self)
        ensures
            r == *self,
    ;

    /// Decide equality of two elements.
    fn eq_elem(&self, other: &Self) -> (r: bool)
        ensures
            r == (*self == *other),
    ;

    /// Render this element as a string.
    fn elem_string(&self) -> (r: String)
        ensures
            r@ == self.str_spec(),
    ;

    /// The value of `self` minus `rhs`.
    spec fn sub_spec(&self, rhs: &Self) -> Self;

    /// Subtract `rhs` from `self`.
    fn sub_elem(&self, rhs: &Self) -> (r: Self)
        ensures
            r == self.sub_spec(rhs),
            forall|p: Self::Parent|
                p.contains(self) && p.contains(rhs) ==> #[trigger] p.contains(&r),
    ;

    /// Law: subtraction cancels addition, `(a + b) - b == a`.
    proof fn lemma_add_sub_cancel(&self, b: &Self)
        ensures
            <Self as Operation<Additive>>::op_spec(self, b).sub_spec(b) == *self,
    ;

    /// Law: subtraction is addition of the additive inverse.
    proof fn lemma_sub_is_add_inverse(&self, b: &Self)
        ensures
            self.sub_spec(b) == <Self as Operation<Additive>>::op_spec(
                self,
                &<Self as TwoSidedInverse<Additive>>::inverse_spec(b),
            ),
    ;
}

/// Ring capability composition: a structure is a ring when it has an
/// additive identity, additive inverses, associative and commutative
/// addition, a multiplicative identity, associative and commutative
/// multiplication, and distributivity of multiplication over addition.
/// Used as a bound (for coefficient rings), not as a new data type.
pub trait Ring: Identity<Additive> + Divisible<Additive> + Associative<Additive> + Commutative<
    Additive,
> + Identity<Multiplicative> + Associative<Multiplicative> + Commutative<
    Multiplicative,
> + Distributive + Sized where Self::Element: RingElement<Parent = Self> {
    /// Clone this ring handle.
    fn clone_ring(&self) -> (r: Self)
        ensures
            r == *self,
    ;

    /// Decide equality of two ring handles.
    fn eq_ring(&self, other: &Self) -> (r: bool)
        ensures
            r == (*self == *other),
    ;

    /// The additive identity element. (In a base ring an element is its
    /// own view, so the returned value is the identity view itself.)
    fn zero(&self) -> (r: Self::Element)
        ensures
            r == Identity::<Additive>::identity_spec(self),
            r@ == Identity::<Additive>::identity_spec(self),
            self.contains(&r),
    ;

    /// The multiplicative identity element.
    fn one(&self) -> (r: Self::Element)
        ensures
            r == Identity::<Multiplicative>::identity_spec(self),
            r@ == Identity::<Multiplicative>::identity_spec(self),
            self.contains(&r),
    ;

    /// Law: the identity values of a base ring are elements of it. (In a
    /// base ring an element is its own view, so the identity views are
    /// themselves elements.)
    proof fn lemma_identities_contained(&self)
        ensures
            self.contains(&Identity::<Additive>::identity_spec(self)),
            self.contains(&Identity::<Multiplicative>::identity_spec(self)),
    ;

    /// Law: in a base ring the identity test is exact, passing the
    /// identity value and nothing else.
    proof fn lemma_identity_unique(&self, x: &Self::Element)
        requires
            self.contains(x),
        ensures
            <Self::Element as IsIdentity<Additive>>::is_identity_spec(x) <==> *x == Identity::<
                Additive,
            >::identity_spec(self),
            <Self::Element as IsIdentity<Multiplicative>>::is_identity_spec(x) <==> *x
                == Identity::<Multiplicative>::identity_spec(self),
    ;
}

/// The sum of two base-ring elements.
pub open spec fn elem_add<T: Ring>(a: Elem<T>, b: Elem<T>) -> Elem<T> where Elem<T>: RingElement<Parent = T> {
    <Elem<T> as Operation<Additive>>::op_spec(&a, &b)
}

/// The product of two base-ring elements.
pub open spec fn elem_mul<T: Ring>(a: Elem<T>, b: Elem<T>) -> Elem<T> where Elem<T>: RingElement<Parent = T> {
    <Elem<T> as Operation<Multiplicative>>::op_spec(&a, &b)
}

/// The difference of two base-ring elements.
pub open spec fn elem_sub<T: Ring>(a: Elem<T>, b: Elem<T>) -> Elem<T> where Elem<T>: RingElement<Parent = T> {
    a.sub_spec(&b)
}

/// The additive inverse of a base-ring element.
pub open spec fn elem_neg<T: Ring>(a: Elem<T>) -> Elem<T> where Elem<T>: RingElement<Parent = T> {
    <Elem<T> as TwoSidedInverse<Additive>>::inverse_spec(&a)
}

/// The additive identity value of a base ring.
pub open spec fn ring_zero<T: Ring>(ring: T) -> Elem<T> where Elem<T>: RingElement<Parent = T> {
    <T as Identity<Additive>>::identity_spec(&ring)
}

/// The multiplicative identity value of a base ring.
pub open spec fn ring_one<T: Ring>(ring: T) -> Elem<T> where Elem<T>: RingElement<Parent = T> {
    <T as Identity<Multiplicative>>::identity_spec(&ring)
}

/// Whether a base-ring element is (mathematically) zero.
pub open spec fn elem_is_zero<T: Ring>(a: Elem<T>) -> bool where Elem<T>: RingElement<Parent = T> {
    <Elem<T> as IsIdentity<Additive>>::is_identity_spec(&a)
}

/// Whether a base-ring element is (mathematically) one.
pub open spec fn elem_is_one<T: Ring>(a: Elem<T>) -> bool where Elem<T>: RingElement<Parent = T> {
    <Elem<T> as IsIdentity<Multiplicative>>::is_identity_spec(&a)
}

/// Every element of `s` is an element of `ring`.
pub open spec fn coeffs_contained<T: Ring>(ring: T, s: Seq<Elem<T>>) -> bool where Elem<T>: RingElement<Parent = T> {
    forall|i: int| 0 <= i < s.len() ==> #[trigger] ring.contains(&s[i])
}

/// Element construction: a structure builds an element of itself from a
/// source value (a raw scalar, an array or slice of scalars, or an
/// existing compatible value).
pub trait New<S>: Parent where Self::Element: Element<Parent = Self> {
    /// Which source values are legal for this structure.
    spec fn new_req(&self, src: &S) -> bool;

    /// The content of the element built from `src`.
    spec fn new_spec(&self, src: &S) -> <Self::Element as View>::V;

    /// Build an element of this structure from `src`.
    fn new(&self, src: S) -> (r: Self::Element)
        requires
            self.new_req(&src),
        ensures
            r@ == self.new_spec(&src),
            self.contains(&r),
            r.has_parent(self),
    ;
}

} // verus!
