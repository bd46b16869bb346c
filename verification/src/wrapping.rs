//! Base rings of fixed-width integers with wrapping arithmetic.
//!
//! `WrappingRing<T>` is the ring of the primitive integer type `T` where
//! addition, subtraction and multiplication wrap around at the type's
//! boundary; `Wrap<T>` is its element type. The capability laws (identity,
//! inverse, cancellation) are proved for each supported width, so these
//! rings can serve as coefficient rings for the polynomial and matrix
//! engines.

use vstd::prelude::*;
use core::marker::PhantomData;

use crate::text::dec_str;
use crate::text::i8_dec_string;
use crate::text::u8_dec_string;

use crate::structures::Additive;
use crate::structures::Associative;
use crate::structures::Commutative;
use crate::structures::Distributive;
use crate::structures::Divisible;
use crate::structures::Element;
use crate::structures::Identity;
use crate::structures::IsIdentity;
use crate::structures::Multiplicative;
use crate::structures::New;
use crate::structures::Operation;
use crate::structures::Parent;
use crate::structures::Ring;
use crate::structures::RingElement;
use crate::structures::TwoSidedInverse;
use crate::poly::IntoPolyRing;
use crate::poly::generic::GenericPolyRing;

verus! {

/// Ring of primitive integers wrapping around at the type's boundary.
pub struct WrappingRing<T> {
    marker: PhantomData<T>,
}

impl<T> WrappingRing<T> {
    /// Create a handle to the wrapping ring over `T`.
    pub fn init() -> (r: Self) {
        WrappingRing { marker: PhantomData }
    }
}

/// An element of a wrapping integer ring.
#[derive(Clone, Copy, Debug, PartialEq, Eq, Structural)]
pub struct Wrap<T>(pub T);

impl<T> View for Wrap<T> {
    type V = Wrap<T>;

    open spec fn view(&self) -> Wrap<T> {
        *self
    }
}

// ---------------------------------------------------------------
// The wrapping ring over u8
// ---------------------------------------------------------------

impl Parent for WrappingRing<u8> {
    type Element = Wrap<u8>;

    open spec fn contains(&self, x: &Wrap<u8>) -> bool {
        true
    }
}

impl Element for Wrap<u8> {
    type Parent = WrappingRing<u8>;

    open spec fn has_parent(&self, p: &WrappingRing<u8>) -> bool {
        true
    }

    fn parent(&self) -> (p: WrappingRing<u8>) {
        WrappingRing::init()
    }
}

impl Operation<Additive> for Wrap<u8> {
    open spec fn op_req(&self, right: &Self) -> bool {
        true
    }

    open spec fn op_spec(&self, right: &Self) -> Wrap<u8> {
        Wrap(vstd::wrapping::u8_specs::wrapping_add(self.0, right.0))
    }

    fn operate(&self, o: Additive, right: &Self) -> (r: Self) {
        Wrap(self.0.wrapping_add(right.0))
    }
}

impl IsIdentity<Additive> for Wrap<u8> {
    open spec fn is_identity_spec(&self) -> bool {
        self.0 == 0
    }

    fn is_identity(&self, o: Additive) -> (r: bool) {
        self.0 == 0
    }
}

impl TwoSidedInverse<Additive> for Wrap<u8> {
    open spec fn inverse_spec(&self) -> Wrap<u8> {
        Wrap(vstd::wrapping::u8_specs::wrapping_sub(0u8, self.0))
    }

    fn two_sided_inverse(&self, o: Additive) -> (r: Self) {
        let z: u8 = 0;
        Wrap(z.wrapping_sub(self.0))
    }
}

impl Operation<Multiplicative> for Wrap<u8> {
    open spec fn op_req(&self, right: &Self) -> bool {
        true
    }

    open spec fn op_spec(&self, right: &Self) -> Wrap<u8> {
        Wrap(vstd::wrapping::u8_specs::wrapping_mul(self.0, right.0))
    }

    fn operate(&self, o: Multiplicative, right: &Self) -> (r: Self) {
        Wrap(self.0.wrapping_mul(right.0))
    }
}

impl IsIdentity<Multiplicative> for Wrap<u8> {
    open spec fn is_identity_spec(&self) -> bool {
        self.0 == 1
    }

    fn is_identity(&self, o: Multiplicative) -> (r: bool) {
        self.0 == 1
    }
}

impl Identity<Additive> for WrappingRing<u8> {
    open spec fn identity_spec(&self) -> Wrap<u8> {
        Wrap(0u8)
    }

    fn identity(&self, o: Additive) -> (r: Wrap<u8>) {
        Wrap(0)
    }

    proof fn lemma_identity(&self, x: &Wrap<u8>, id: &Wrap<u8>) {
    }
}

impl Divisible<Additive> for WrappingRing<u8> {
    proof fn lemma_inverse(&self, x: &Wrap<u8>, inv: &Wrap<u8>, rl: &Wrap<u8>, rr: &Wrap<u8>) {
    }
}

impl Associative<Additive> for WrappingRing<u8> {

}

impl Commutative<Additive> for WrappingRing<u8> {

}

impl Identity<Multiplicative> for WrappingRing<u8> {
    open spec fn identity_spec(&self) -> Wrap<u8> {
        Wrap(1u8)
    }

    fn identity(&self, o: Multiplicative) -> (r: Wrap<u8>) {
        Wrap(1)
    }

    proof fn lemma_identity(&self, x: &Wrap<u8>, id: &Wrap<u8>) {
    }
}

impl Associative<Multiplicative> for WrappingRing<u8> {

}

impl Commutative<Multiplicative> for WrappingRing<u8> {

}

impl Distributive for WrappingRing<u8> {

}

impl RingElement for Wrap<u8> {
    proof fn lemma_self_view(&self) {
    }

    proof fn lemma_ops_total(&self, right: &Self) {
    }

    proof fn lemma_ops_closed(&self, right: &Self, p: &Self::Parent) {
    }

    open spec fn str_spec(&self) -> Seq<char> {
        dec_str(self.0 as nat)
    }

    fn clone_elem(&self) -> (r: Self) {
        Wrap(self.0)
    }

    fn eq_elem(&self, other: &Self) -> (r: bool) {
        self.0 == other.0
    }

    fn elem_string(&self) -> (r: String) {
        u8_dec_string(self.0)
    }

    open spec fn sub_spec(&self, rhs: &Self) -> Wrap<u8> {
        Wrap(vstd::wrapping::u8_specs::wrapping_sub(self.0, rhs.0))
    }

    fn sub_elem(&self, rhs: &Self) -> (r: Self) {
        Wrap(self.0.wrapping_sub(rhs.0))
    }

    proof fn lemma_add_sub_cancel(&self, b: &Self) {
    }

    proof fn lemma_sub_is_add_inverse(&self, b: &Self) {
    }
}

impl Ring for WrappingRing<u8> {
    fn clone_ring(&self) -> (r: Self) {
        WrappingRing { marker: PhantomData }
    }

    fn eq_ring(&self, other: &Self) -> (r: bool) {
        true
    }

    proof fn lemma_identity_unique(&self, x: &Self::Element) {
    }

    fn zero(&self) -> (r: Wrap<u8>) {
        Identity::<Additive>::identity(self, Additive)
    }

    fn one(&self) -> (r: Wrap<u8>) {
        Identity::<Multiplicative>::identity(self, Multiplicative)
    }

    proof fn lemma_identities_contained(&self) {
    }
}

impl New<u8> for WrappingRing<u8> {
    open spec fn new_req(&self, src: &u8) -> bool {
        true
    }

    open spec fn new_spec(&self, src: &u8) -> Wrap<u8> {
        Wrap(*src)
    }

    fn new(&self, src: u8) -> (r: Wrap<u8>) {
        Wrap(src)
    }
}

// ---------------------------------------------------------------
// The wrapping ring over i8
// ---------------------------------------------------------------

impl Parent for WrappingRing<i8> {
    type Element = Wrap<i8>;

    open spec fn contains(&self, x: &Wrap<i8>) -> bool {
        true
    }
}

impl Element for Wrap<i8> {
    type Parent = WrappingRing<i8>;

    open spec fn has_parent(&self, p: &WrappingRing<i8>) -> bool {
        true
    }

    fn parent(&self) -> (p: WrappingRing<i8>) {
        WrappingRing::init()
    }
}

impl Operation<Additive> for Wrap<i8> {
    open spec fn op_req(&self, right: &Self) -> bool {
        true
    }

    open spec fn op_spec(&self, right: &Self) -> Wrap<i8> {
        Wrap(vstd::wrapping::i8_specs::wrapping_add(self.0, right.0))
    }

    fn operate(&self, o: Additive, right: &Self) -> (r: Self) {
        Wrap(self.0.wrapping_add(right.0))
    }
}

impl IsIdentity<Additive> for Wrap<i8> {
    open spec fn is_identity_spec(&self) -> bool {
        self.0 == 0
    }

    fn is_identity(&self, o: Additive) -> (r: bool) {
        self.0 == 0
    }
}

impl TwoSidedInverse<Additive> for Wrap<i8> {
    open spec fn inverse_spec(&self) -> Wrap<i8> {
        Wrap(vstd::wrapping::i8_specs::wrapping_sub(0i8, self.0))
    }

    fn two_sided_inverse(&self, o: Additive) -> (r: Self) {
        let z: i8 = 0;
        Wrap(z.wrapping_sub(self.0))
    }
}

impl Operation<Multiplicative> for Wrap<i8> {
    open spec fn op_req(&self, right: &Self) -> bool {
        true
    }

    open spec fn op_spec(&self, right: &Self) -> Wrap<i8> {
        Wrap(vstd::wrapping::i8_specs::wrapping_mul(self.0, right.0))
    }

    fn operate(&self, o: Multiplicative, right: &Self) -> (r: Self) {
        Wrap(self.0.wrapping_mul(right.0))
    }
}

impl IsIdentity<Multiplicative> for Wrap<i8> {
    open spec fn is_identity_spec(&self) -> bool {
        self.0 == 1
    }

    fn is_identity(&self, o: Multiplicative) -> (r: bool) {
        self.0 == 1
    }
}

impl Identity<Additive> for WrappingRing<i8> {
    open spec fn identity_spec(&self) -> Wrap<i8> {
        Wrap(0i8)
    }

    fn identity(&self, o: Additive) -> (r: Wrap<i8>) {
        Wrap(0)
    }

    proof fn lemma_identity(&self, x: &Wrap<i8>, id: &Wrap<i8>) {
    }
}

impl Divisible<Additive> for WrappingRing<i8> {
    proof fn lemma_inverse(&self, x: &Wrap<i8>, inv: &Wrap<i8>, rl: &Wrap<i8>, rr: &Wrap<i8>) {
    }
}

impl Associative<Additive> for WrappingRing<i8> {

}

impl Commutative<Additive> for WrappingRing<i8> {

}

impl Identity<Multiplicative> for WrappingRing<i8> {
    open spec fn identity_spec(&self) -> Wrap<i8> {
        Wrap(1i8)
    }

    fn identity(&self, o: Multiplicative) -> (r: Wrap<i8>) {
        Wrap(1)
    }

    proof fn lemma_identity(&self, x: &Wrap<i8>, id: &Wrap<i8>) {
    }
}

impl Associative<Multiplicative> for WrappingRing<i8> {

}

impl Commutative<Multiplicative> for WrappingRing<i8> {

}

impl Distributive for WrappingRing<i8> {

}

impl RingElement for Wrap<i8> {
    proof fn lemma_self_view(&self) {
    }

    proof fn lemma_ops_total(&self, right: &Self) {
    }

    proof fn lemma_ops_closed(&self, right: &Self, p: &Self::Parent) {
    }

    open spec fn str_spec(&self) -> Seq<char> {
        if self.0 >= 0 {
            dec_str(self.0 as nat)
        } else {
            seq!['-'] + dec_str((-(self.0 as int)) as nat)
        }
    }

    fn clone_elem(&self) -> (r: Self) {
        Wrap(self.0)
    }

    fn eq_elem(&self, other: &Self) -> (r: bool) {
        self.0 == other.0
    }

    fn elem_string(&self) -> (r: String) {
        i8_dec_string(self.0)
    }

    open spec fn sub_spec(&self, rhs: &Self) -> Wrap<i8> {
        Wrap(vstd::wrapping::i8_specs::wrapping_sub(self.0, rhs.0))
    }

    fn sub_elem(&self, rhs: &Self) -> (r: Self) {
        Wrap(self.0.wrapping_sub(rhs.0))
    }

    proof fn lemma_add_sub_cancel(&self, b: &Self) {
    }

    proof fn lemma_sub_is_add_inverse(&self, b: &Self) {
    }
}

impl Ring for WrappingRing<i8> {
    fn clone_ring(&self) -> (r: Self) {
        WrappingRing { marker: PhantomData }
    }

    fn eq_ring(&self, other: &Self) -> (r: bool) {
        true
    }

    proof fn lemma_identity_unique(&self, x: &Self::Element) {
    }

    fn zero(&self) -> (r: Wrap<i8>) {
        Identity::<Additive>::identity(self, Additive)
    }

    fn one(&self) -> (r: Wrap<i8>) {
        Identity::<Multiplicative>::identity(self, Multiplicative)
    }

    proof fn lemma_identities_contained(&self) {
    }
}

impl New<i8> for WrappingRing<i8> {
    open spec fn new_req(&self, src: &i8) -> bool {
        true
    }

    open spec fn new_spec(&self, src: &i8) -> Wrap<i8> {
        Wrap(*src)
    }

    fn new(&self, src: i8) -> (r: Wrap<i8>) {
        Wrap(src)
    }
}

impl crate::mat::IntoMatSpace for WrappingRing<u8> {
    type Inner = crate::mat::GenericMatSpace<WrappingRing<u8>>;
}

impl crate::mat::IntoMatSpace for WrappingRing<i8> {
    type Inner = crate::mat::GenericMatSpace<WrappingRing<i8>>;
}

impl IntoPolyRing for WrappingRing<u8> {
    type Inner = GenericPolyRing<WrappingRing<u8>>;
}

impl IntoPolyRing for WrappingRing<i8> {
    type Inner = GenericPolyRing<WrappingRing<i8>>;
}

impl<T> Clone for WrappingRing<T> {
    /// Clone this ring handle (the handle is stateless).
    fn clone(&self) -> (r: Self)
        ensures
            r == *self,
    {
        WrappingRing { marker: PhantomData }
    }
}

} // verus!


