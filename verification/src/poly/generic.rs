//! The dense univariate polynomial engine.
//!
//! `GenericPolyRing<T>` is the ring of polynomials over an arbitrary
//! coefficient ring `T`; `GenericPoly<T>` is its element type: an ordered
//! coefficient sequence with index 0 the constant term, of length at least
//! one. The degree of a polynomial is its length minus one. Arithmetic
//! pads the shorter operand with the base ring's zero up to the longer
//! length and works positionally; no trimming of trailing zero
//! coefficients is performed by construction, mutation or equality, so
//! the identity test (`IsIdentity`) checks mathematical content rather
//! than representation.
//!
//! A polynomial's view is its coefficient sequence, which is exactly what
//! its equality compares.
//!
//! The polynomial ring offers every ring capability. The `Ring`
//! composition bound itself is reserved for coefficient rings, whose
//! elements are their own view, so a polynomial ring does not serve as
//! the coefficient ring of a further polynomial ring.
//!
//! The context is shared by value and immutable after construction:
//! renaming a ring handle's variable affects that handle and the elements
//! it builds afterwards, not elements built earlier.

use vstd::prelude::*;
use vstd::math::max;

use crate::structures::Additive;
use crate::structures::Associative;
use crate::structures::Commutative;
use crate::structures::Distributive;
use crate::structures::Divisible;
use crate::structures::Elem;
use crate::structures::Element;
use crate::structures::Identity;
use crate::structures::IsIdentity;
use crate::structures::Multiplicative;
use crate::structures::Operation;
use crate::structures::Parent;
use crate::structures::Ring;
use crate::structures::RingElement;
use crate::structures::TwoSidedInverse;
use crate::structures::coeffs_contained;
use crate::structures::elem_add;
use crate::structures::elem_mul;
use crate::structures::elem_neg;
use crate::structures::elem_sub;
use crate::structures::ring_zero;

verus! {

/// The configuration shared by a polynomial ring and its elements: the
/// base ring and the printable variable name. Held by value and immutable
/// after construction; changing a ring handle's variable name affects
/// that handle only.
pub struct GenericPolyCtx<T> {
    pub base_ring: T,
    pub var: String,
}

impl<T> GenericPolyCtx<T> {
    /// Build a context from a base ring and a variable name.
    pub fn new(base_ring: T, var: &str) -> (r: Self)
        ensures
            r.base_ring == base_ring,
            r.var@ == var@,
    {
        GenericPolyCtx { base_ring, var: var.to_owned() }
    }
}

/// The ring of dense univariate polynomials over the coefficient ring `T`.
pub struct GenericPolyRing<T: Parent> {
    pub ctx: GenericPolyCtx<T>,
}

/// A dense univariate polynomial: an ordered coefficient sequence (index
/// 0 is the constant term) of length at least one, over the base ring
/// held in its context.
pub struct GenericPoly<T: Parent> {
    pub ctx: GenericPolyCtx<T>,
    pub coeffs: Vec<Elem<T>>,
}

impl<T: Parent> View for GenericPoly<T> {
    type V = Seq<Elem<T>>;

    open spec fn view(&self) -> Seq<Elem<T>> {
        self.coeffs@
    }
}

impl<T: Ring> GenericPolyRing<T> where Elem<T>: RingElement<Parent = T> {
    /// The base ring of this polynomial ring.
    pub open spec fn base_ring_spec(&self) -> T {
        self.ctx.base_ring
    }

    /// The printable variable name of this polynomial ring.
    pub open spec fn var_spec(&self) -> Seq<char> {
        self.ctx.var@
    }
}

impl<T: Ring> GenericPoly<T> where Elem<T>: RingElement<Parent = T> {
    /// The base ring this polynomial's coefficients live in.
    pub open spec fn base_ring_spec(&self) -> T {
        self.ctx.base_ring
    }

    /// The printable variable name this polynomial carries.
    pub open spec fn var_spec(&self) -> Seq<char> {
        self.ctx.var@
    }

    /// The base ring's zero, used to pad this polynomial.
    pub open spec fn pad_zero(&self) -> Elem<T> {
        ring_zero(self.base_ring_spec())
    }

    /// Well-formedness: at least one coefficient, all of them elements of
    /// the base ring.
    pub open spec fn wf(&self) -> bool {
        &&& self@.len() >= 1
        &&& coeffs_contained(self.base_ring_spec(), self@)
    }
}

/// `s` padded with `z` or truncated to length `n`.
pub open spec fn poly_resize_spec<T: Ring>(s: Seq<Elem<T>>, z: Elem<T>, n: nat) -> Seq<Elem<T>> where Elem<T>: RingElement<Parent = T> {
    if n <= s.len() {
        s.subrange(0, n as int)
    } else {
        s + Seq::new((n - s.len()) as nat, |i: int| z)
    }
}

/// `s` extended with `z` beyond its length.
pub open spec fn zero_ext<T: Ring>(s: Seq<Elem<T>>, z: Elem<T>, i: int) -> Elem<T> where Elem<T>: RingElement<Parent = T> {
    if 0 <= i < s.len() {
        s[i]
    } else {
        z
    }
}

/// The coefficient sequence of `a + b`: the receiver `a` is padded with
/// `z` up to the longer length, then `b`'s coefficients are added
/// positionally.
pub open spec fn poly_add_spec<T: Ring>(a: Seq<Elem<T>>, b: Seq<Elem<T>>, z: Elem<T>) -> Seq<
    Elem<T>,
> where Elem<T>: RingElement<Parent = T> {
    Seq::new(
        max(a.len() as int, b.len() as int) as nat,
        |i: int|
            if i < b.len() {
                elem_add::<T>(zero_ext::<T>(a, z, i), b[i])
            } else {
                a[i]
            },
    )
}

/// The coefficient sequence of `a - b` (`a` is the receiver, padded as
/// in addition; `b`'s coefficients are subtracted positionally).
pub open spec fn poly_sub_spec<T: Ring>(a: Seq<Elem<T>>, b: Seq<Elem<T>>, z: Elem<T>) -> Seq<
    Elem<T>,
> where Elem<T>: RingElement<Parent = T> {
    Seq::new(
        max(a.len() as int, b.len() as int) as nat,
        |i: int|
            if i < b.len() {
                elem_sub::<T>(zero_ext::<T>(a, z, i), b[i])
            } else {
                a[i]
            },
    )
}

/// The coefficient sequence of `l + a` where `a` is the receiver (the
/// mirrored "from" direction of addition).
pub open spec fn poly_add_from_spec<T: Ring>(a: Seq<Elem<T>>, l: Seq<Elem<T>>, z: Elem<T>) -> Seq<
    Elem<T>,
> where Elem<T>: RingElement<Parent = T> {
    Seq::new(
        max(a.len() as int, l.len() as int) as nat,
        |i: int|
            if i < l.len() {
                elem_add::<T>(l[i], zero_ext::<T>(a, z, i))
            } else {
                a[i]
            },
    )
}

/// The coefficient sequence of `l - a` where `a` is the receiver (the
/// mirrored "from" direction of subtraction).
pub open spec fn poly_sub_from_spec<T: Ring>(a: Seq<Elem<T>>, l: Seq<Elem<T>>, z: Elem<T>) -> Seq<
    Elem<T>,
> where Elem<T>: RingElement<Parent = T> {
    Seq::new(
        max(a.len() as int, l.len() as int) as nat,
        |i: int|
            if i < l.len() {
                elem_sub::<T>(l[i], zero_ext::<T>(a, z, i))
            } else {
                a[i]
            },
    )
}

/// The coefficient sequence of `-a`: every coefficient replaced by its
/// additive inverse.
pub open spec fn poly_neg_spec<T: Ring>(a: Seq<Elem<T>>) -> Seq<Elem<T>> where Elem<T>: RingElement<Parent = T> {
    Seq::new(a.len(), |i: int| elem_neg::<T>(a[i]))
}

impl<T: Ring> GenericPoly<T> where Elem<T>: RingElement<Parent = T> {
    /// Clone this polynomial (contracted, coefficient by coefficient).
    pub fn clone_poly(&self) -> (r: Self)
        ensures
            r@ == self@,
            r.base_ring_spec() == self.base_ring_spec(),
            r.var_spec() == self.var_spec(),
    {
        let mut coeffs: Vec<Elem<T>> = Vec::new();
        let n = self.coeffs.len();
        let mut i: usize = 0;
        while i < n
            invariant
                n == self.coeffs.len(),
                i <= n,
                coeffs@ =~= self.coeffs@.subrange(0, i as int),
            decreases n - i,
        {
            coeffs.push(self.coeffs[i].clone_elem());
            i += 1;
        }
        proof {
            assert(coeffs@ =~= self.coeffs@);
        }
        GenericPoly {
            ctx: GenericPolyCtx {
                base_ring: self.ctx.base_ring.clone_ring(),
                var: self.ctx.var.clone(),
            },
            coeffs,
        }
    }

    /// Pad this polynomial with the base ring's zero, or truncate it, to
    /// the given length.
    pub fn resize(&mut self, new_len: usize)
        ensures
            final (self)@ == poly_resize_spec::<T>(
                old(self)@,
                old(self).pad_zero(),
                new_len as nat,
            ),
            final (self).ctx == old(self).ctx,
    {
        if new_len <= self.coeffs.len() {
            self.coeffs.truncate(new_len);
            proof {
                assert(self@ =~= poly_resize_spec::<T>(
                    old(self)@,
                    old(self).pad_zero(),
                    new_len as nat,
                ));
            }
        } else {
            while self.coeffs.len() < new_len
                invariant
                    old(self)@.len() < self@.len() <= new_len || self@ == old(self)@,
                    self@.len() >= old(self)@.len(),
                    self@.subrange(0, old(self)@.len() as int) == old(self)@,
                    forall|i: int|
                        old(self)@.len() <= i < self@.len() ==> self@[i] == old(self).pad_zero(),
                    self.ctx == old(self).ctx,
                decreases new_len - self.coeffs.len(),
            {
                let z = self.ctx.base_ring.zero();
                self.coeffs.push(z);
            }
            proof {
                assert(self@ =~= poly_resize_spec::<T>(
                    old(self)@,
                    old(self).pad_zero(),
                    new_len as nat,
                ));
            }
        }
    }

    /// Add `rhs` to this polynomial in place, padding the receiver with
    /// zero up to the longer length first.
    pub fn add_assign(&mut self, rhs: &Self)
        ensures
            final (self)@ == poly_add_spec::<T>(old(self)@, rhs@, old(self).pad_zero()),
            final (self).ctx == old(self).ctx,
            coeffs_contained(old(self).base_ring_spec(), old(self)@) && coeffs_contained(
                old(self).base_ring_spec(),
                rhs@,
            ) ==> coeffs_contained(final (self).base_ring_spec(), final (self)@),
    {
        let n = rhs.coeffs.len();
        let len = self.coeffs.len();
        let max_len = if len >= n {
            len
        } else {
            n
        };
        self.resize(max_len);
        let ghost grown = self@;
        let ghost ok = coeffs_contained(old(self).base_ring_spec(), old(self)@)
            && coeffs_contained(old(self).base_ring_spec(), rhs@);
        proof {
            if ok {
                old(self).base_ring_spec().lemma_identities_contained();
                assert forall|j: int| 0 <= j < grown.len() implies #[trigger] self.base_ring_spec()
                    .contains(&grown[j]) by {
                    if j < old(self)@.len() {
                        assert(grown[j] == old(self)@[j]);
                    } else {
                        assert(grown[j] == old(self).pad_zero());
                    }
                }
            }
        }
        let mut i: usize = 0;
        while i < n
            invariant
                n == rhs.coeffs@.len(),
                n <= self@.len(),
                i <= n,
                self@.len() == grown.len(),
                forall|j: int| 0 <= j < i ==> self@[j] == elem_add::<T>(grown[j], rhs@[j]),
                forall|j: int| i <= j < self@.len() ==> self@[j] == grown[j],
                self.ctx == old(self).ctx,
                ok ==> coeffs_contained(self.base_ring_spec(), grown),
                ok ==> coeffs_contained(self.base_ring_spec(), rhs@),
                ok ==> forall|j: int|
                    0 <= j < i ==> #[trigger] self.base_ring_spec().contains(&self@[j]),
            decreases n - i,
        {
            proof {
                self.coeffs@[i as int].lemma_ops_total(&rhs.coeffs@[i as int]);
            }
            let s = self.coeffs[i].operate(Additive, &rhs.coeffs[i]);
            proof {
                s.lemma_self_view();
                if ok {
                    assert(self.base_ring_spec().contains(&grown[i as int]));
                    assert(self.base_ring_spec().contains(&rhs@[i as int]));
                    assert(self.base_ring_spec().contains(&s));
                }
            }
            self.coeffs[i] = s;
            i += 1;
        }
        proof {
            let target = poly_add_spec::<T>(old(self)@, rhs@, old(self).pad_zero());
            assert(self@.len() == target.len());
            assert forall|j: int| 0 <= j < self@.len() implies self@[j] == target[j] by {
                assert(grown == poly_resize_spec::<T>(
                    old(self)@,
                    old(self).pad_zero(),
                    max_len as nat,
                ));
                if j < n {
                    assert(grown[j] == zero_ext::<T>(old(self)@, old(self).pad_zero(), j));
                    assert(self@[j] == elem_add::<T>(grown[j], rhs@[j]));
                } else {
                    assert(self@[j] == grown[j]);
                    assert(j < old(self)@.len());
                    assert(grown[j] == old(self)@[j]);
                }
            }
            assert(self@ =~= target);
            if ok {
                assert(coeffs_contained(self.base_ring_spec(), self@));
            }
        }
    }

    /// Subtract `rhs` from this polynomial in place, padding the receiver
    /// with zero up to the longer length first.
    pub fn sub_assign(&mut self, rhs: &Self)
        ensures
            final (self)@ == poly_sub_spec::<T>(old(self)@, rhs@, old(self).pad_zero()),
            final (self).ctx == old(self).ctx,
            coeffs_contained(old(self).base_ring_spec(), old(self)@) && coeffs_contained(
                old(self).base_ring_spec(),
                rhs@,
            ) ==> coeffs_contained(final (self).base_ring_spec(), final (self)@),
    {
        let n = rhs.coeffs.len();
        let len = self.coeffs.len();
        let max_len = if len >= n {
            len
        } else {
            n
        };
        self.resize(max_len);
        let ghost grown = self@;
        let ghost ok = coeffs_contained(old(self).base_ring_spec(), old(self)@)
            && coeffs_contained(old(self).base_ring_spec(), rhs@);
        proof {
            if ok {
                old(self).base_ring_spec().lemma_identities_contained();
                assert forall|j: int| 0 <= j < grown.len() implies #[trigger] self.base_ring_spec()
                    .contains(&grown[j]) by {
                    if j < old(self)@.len() {
                        assert(grown[j] == old(self)@[j]);
                    } else {
                        assert(grown[j] == old(self).pad_zero());
                    }
                }
            }
        }
        let mut i: usize = 0;
        while i < n
            invariant
                n == rhs.coeffs@.len(),
                n <= self@.len(),
                i <= n,
                self@.len() == grown.len(),
                forall|j: int| 0 <= j < i ==> self@[j] == elem_sub::<T>(grown[j], rhs@[j]),
                forall|j: int| i <= j < self@.len() ==> self@[j] == grown[j],
                self.ctx == old(self).ctx,
                ok ==> coeffs_contained(self.base_ring_spec(), grown),
                ok ==> coeffs_contained(self.base_ring_spec(), rhs@),
                ok ==> forall|j: int|
                    0 <= j < i ==> #[trigger] self.base_ring_spec().contains(&self@[j]),
            decreases n - i,
        {
            let s = self.coeffs[i].sub_elem(&rhs.coeffs[i]);
            proof {
                if ok {
                    assert(self.base_ring_spec().contains(&grown[i as int]));
                    assert(self.base_ring_spec().contains(&rhs@[i as int]));
                    assert(self.base_ring_spec().contains(&s));
                }
            }
            self.coeffs[i] = s;
            i += 1;
        }
        proof {
            let target = poly_sub_spec::<T>(old(self)@, rhs@, old(self).pad_zero());
            assert(self@.len() == target.len());
            assert forall|j: int| 0 <= j < self@.len() implies self@[j] == target[j] by {
                assert(grown == poly_resize_spec::<T>(
                    old(self)@,
                    old(self).pad_zero(),
                    max_len as nat,
                ));
                if j < n {
                    assert(grown[j] == zero_ext::<T>(old(self)@, old(self).pad_zero(), j));
                    assert(self@[j] == elem_sub::<T>(grown[j], rhs@[j]));
                } else {
                    assert(self@[j] == grown[j]);
                    assert(j < old(self)@.len());
                    assert(grown[j] == old(self)@[j]);
                }
            }
            assert(self@ =~= target);
            if ok {
                assert(coeffs_contained(self.base_ring_spec(), self@));
            }
        }
    }

    /// Add this polynomial to `lhs`, in place of this polynomial: the
    /// mirrored "from" direction, so reference-holding callers need not
    /// clone eagerly.
    pub fn add_from(&mut self, lhs: &Self)
        ensures
            final (self)@ == poly_add_from_spec::<T>(old(self)@, lhs@, old(self).pad_zero()),
            final (self).ctx == old(self).ctx,
            coeffs_contained(old(self).base_ring_spec(), old(self)@) && coeffs_contained(
                old(self).base_ring_spec(),
                lhs@,
            ) ==> coeffs_contained(final (self).base_ring_spec(), final (self)@),
    {
        let n = lhs.coeffs.len();
        let len = self.coeffs.len();
        let max_len = if len >= n {
            len
        } else {
            n
        };
        self.resize(max_len);
        let ghost grown = self@;
        let ghost ok = coeffs_contained(old(self).base_ring_spec(), old(self)@)
            && coeffs_contained(old(self).base_ring_spec(), lhs@);
        proof {
            if ok {
                old(self).base_ring_spec().lemma_identities_contained();
                assert forall|j: int| 0 <= j < grown.len() implies #[trigger] self.base_ring_spec()
                    .contains(&grown[j]) by {
                    if j < old(self)@.len() {
                        assert(grown[j] == old(self)@[j]);
                    } else {
                        assert(grown[j] == old(self).pad_zero());
                    }
                }
            }
        }
        let mut i: usize = 0;
        while i < n
            invariant
                n == lhs.coeffs@.len(),
                n <= self@.len(),
                i <= n,
                self@.len() == grown.len(),
                forall|j: int| 0 <= j < i ==> self@[j] == elem_add::<T>(lhs@[j], grown[j]),
                forall|j: int| i <= j < self@.len() ==> self@[j] == grown[j],
                self.ctx == old(self).ctx,
                ok ==> coeffs_contained(self.base_ring_spec(), grown),
                ok ==> coeffs_contained(self.base_ring_spec(), lhs@),
                ok ==> forall|j: int|
                    0 <= j < i ==> #[trigger] self.base_ring_spec().contains(&self@[j]),
            decreases n - i,
        {
            proof {
                lhs.coeffs@[i as int].lemma_ops_total(&self.coeffs@[i as int]);
            }
            let s = lhs.coeffs[i].operate(Additive, &self.coeffs[i]);
            proof {
                s.lemma_self_view();
                if ok {
                    assert(self.base_ring_spec().contains(&grown[i as int]));
                    assert(self.base_ring_spec().contains(&lhs@[i as int]));
                    assert(self.base_ring_spec().contains(&s));
                }
            }
            self.coeffs[i] = s;
            i += 1;
        }
        proof {
            let target = poly_add_from_spec::<T>(old(self)@, lhs@, old(self).pad_zero());
            assert(self@.len() == target.len());
            assert forall|j: int| 0 <= j < self@.len() implies self@[j] == target[j] by {
                assert(grown == poly_resize_spec::<T>(
                    old(self)@,
                    old(self).pad_zero(),
                    max_len as nat,
                ));
                if j < n {
                    assert(grown[j] == zero_ext::<T>(old(self)@, old(self).pad_zero(), j));
                    assert(self@[j] == elem_add::<T>(lhs@[j], grown[j]));
                } else {
                    assert(self@[j] == grown[j]);
                    assert(j < old(self)@.len());
                    assert(grown[j] == old(self)@[j]);
                }
            }
            assert(self@ =~= target);
            if ok {
                assert(coeffs_contained(self.base_ring_spec(), self@));
            }
        }
    }

    /// Subtract this polynomial from `lhs`, in place of this polynomial:
    /// the mirrored "from" direction of subtraction, so this polynomial
    /// becomes `lhs` minus its old value.
    pub fn sub_from(&mut self, lhs: &Self)
        ensures
            final (self)@ == poly_sub_from_spec::<T>(old(self)@, lhs@, old(self).pad_zero()),
            final (self).ctx == old(self).ctx,
            coeffs_contained(old(self).base_ring_spec(), old(self)@) && coeffs_contained(
                old(self).base_ring_spec(),
                lhs@,
            ) ==> coeffs_contained(final (self).base_ring_spec(), final (self)@),
    {
        let n = lhs.coeffs.len();
        let len = self.coeffs.len();
        let max_len = if len >= n {
            len
        } else {
            n
        };
        self.resize(max_len);
        let ghost grown = self@;
        let ghost ok = coeffs_contained(old(self).base_ring_spec(), old(self)@)
            && coeffs_contained(old(self).base_ring_spec(), lhs@);
        proof {
            if ok {
                old(self).base_ring_spec().lemma_identities_contained();
                assert forall|j: int| 0 <= j < grown.len() implies #[trigger] self.base_ring_spec()
                    .contains(&grown[j]) by {
                    if j < old(self)@.len() {
                        assert(grown[j] == old(self)@[j]);
                    } else {
                        assert(grown[j] == old(self).pad_zero());
                    }
                }
            }
        }
        let mut i: usize = 0;
        while i < n
            invariant
                n == lhs.coeffs@.len(),
                n <= self@.len(),
                i <= n,
                self@.len() == grown.len(),
                forall|j: int| 0 <= j < i ==> self@[j] == elem_sub::<T>(lhs@[j], grown[j]),
                forall|j: int| i <= j < self@.len() ==> self@[j] == grown[j],
                self.ctx == old(self).ctx,
                ok ==> coeffs_contained(self.base_ring_spec(), grown),
                ok ==> coeffs_contained(self.base_ring_spec(), lhs@),
                ok ==> forall|j: int|
                    0 <= j < i ==> #[trigger] self.base_ring_spec().contains(&self@[j]),
            decreases n - i,
        {
            let s = lhs.coeffs[i].sub_elem(&self.coeffs[i]);
            proof {
                if ok {
                    assert(self.base_ring_spec().contains(&grown[i as int]));
                    assert(self.base_ring_spec().contains(&lhs@[i as int]));
                    assert(self.base_ring_spec().contains(&s));
                }
            }
            self.coeffs[i] = s;
            i += 1;
        }
        proof {
            let target = poly_sub_from_spec::<T>(old(self)@, lhs@, old(self).pad_zero());
            assert(self@.len() == target.len());
            assert forall|j: int| 0 <= j < self@.len() implies self@[j] == target[j] by {
                assert(grown == poly_resize_spec::<T>(
                    old(self)@,
                    old(self).pad_zero(),
                    max_len as nat,
                ));
                if j < n {
                    assert(grown[j] == zero_ext::<T>(old(self)@, old(self).pad_zero(), j));
                    assert(self@[j] == elem_sub::<T>(lhs@[j], grown[j]));
                } else {
                    assert(self@[j] == grown[j]);
                    assert(j < old(self)@.len());
                    assert(grown[j] == old(self)@[j]);
                }
            }
            assert(self@ =~= target);
            if ok {
                assert(coeffs_contained(self.base_ring_spec(), self@));
            }
        }
    }

    /// Negate this polynomial in place: every coefficient is replaced by
    /// its additive inverse.
    pub fn neg_assign(&mut self)
        ensures
            final (self)@ == poly_neg_spec::<T>(old(self)@),
            final (self).ctx == old(self).ctx,
            coeffs_contained(old(self).base_ring_spec(), old(self)@) ==> coeffs_contained(
                final (self).base_ring_spec(),
                final (self)@,
            ),
    {
        let n = self.coeffs.len();
        let ghost orig = self@;
        let ghost ok = coeffs_contained(old(self).base_ring_spec(), old(self)@);
        let mut i: usize = 0;
        while i < n
            invariant
                n == self@.len(),
                i <= n,
                self@.len() == orig.len(),
                forall|j: int| 0 <= j < i ==> self@[j] == elem_neg::<T>(orig[j]),
                forall|j: int| i <= j < self@.len() ==> self@[j] == orig[j],
                self.ctx == old(self).ctx,
                ok ==> coeffs_contained(self.base_ring_spec(), orig),
                ok ==> forall|j: int|
                    0 <= j < i ==> #[trigger] self.base_ring_spec().contains(&self@[j]),
            decreases n - i,
        {
            let s = self.coeffs[i].two_sided_inverse(Additive);
            proof {
                s.lemma_self_view();
                if ok {
                    assert(self.base_ring_spec().contains(&orig[i as int]));
                    assert(self.base_ring_spec().contains(&s));
                }
            }
            self.coeffs[i] = s;
            i += 1;
        }
        proof {
            assert(self@ =~= poly_neg_spec::<T>(old(self)@));
            if ok {
                assert(coeffs_contained(self.base_ring_spec(), self@));
            }
        }
    }
}

} // verus!

verus! {

impl<T: Ring> GenericPolyRing<T> where Elem<T>: RingElement<Parent = T> {
    /// Clone this polynomial-ring handle.
    pub fn clone_ring(&self) -> (r: Self)
        ensures
            r.base_ring_spec() == self.base_ring_spec(),
            r.var_spec() == self.var_spec(),
    {
        GenericPolyRing {
            ctx: GenericPolyCtx {
                base_ring: self.ctx.base_ring.clone_ring(),
                var: self.ctx.var.clone(),
            },
        }
    }
}

impl<T: Ring> Parent for GenericPolyRing<T> where Elem<T>: RingElement<Parent = T> {
    type Element = GenericPoly<T>;

    open spec fn contains(&self, x: &GenericPoly<T>) -> bool {
        &&& x.base_ring_spec() == self.base_ring_spec()
        &&& x@.len() >= 1
        &&& coeffs_contained(self.base_ring_spec(), x@)
    }
}

impl<T: Ring> Element for GenericPoly<T> where Elem<T>: RingElement<Parent = T> {
    type Parent = GenericPolyRing<T>;

    open spec fn has_parent(&self, p: &GenericPolyRing<T>) -> bool {
        &&& p.base_ring_spec() == self.base_ring_spec()
        &&& p.var_spec() == self.var_spec()
    }

    fn parent(&self) -> (p: GenericPolyRing<T>) {
        GenericPolyRing {
            ctx: GenericPolyCtx {
                base_ring: self.ctx.base_ring.clone_ring(),
                var: self.ctx.var.clone(),
            },
        }
    }
}

impl<T: Ring> Operation<Additive> for GenericPoly<T> where Elem<T>: RingElement<Parent = T> {
    open spec fn op_req(&self, right: &Self) -> bool {
        true
    }

    open spec fn op_spec(&self, right: &Self) -> Seq<Elem<T>> {
        poly_add_spec::<T>(self@, right@, self.pad_zero())
    }

    fn operate(&self, o: Additive, right: &Self) -> (r: Self) {
        let mut r = self.clone_poly();
        r.add_assign(right);
        proof {
            assert forall|p: GenericPolyRing<T>|
                p.contains(self) && p.contains(right) implies #[trigger] p.contains(&r) by {
                assert(coeffs_contained(self.base_ring_spec(), self@));
                assert(coeffs_contained(self.base_ring_spec(), right@));
            }
        }
        r
    }
}

impl<T: Ring> IsIdentity<Additive> for GenericPoly<T> where Elem<T>: RingElement<Parent = T> {
    open spec fn is_identity_spec(&self) -> bool {
        &&& self@.len() >= 1
        &&& forall|i: int| 0 <= i < self@.len() ==> crate::structures::elem_is_zero::<T>(self@[i])
    }

    fn is_identity(&self, o: Additive) -> (r: bool) {
        let n = self.coeffs.len();
        if n == 0 {
            return false;
        }
        let mut i: usize = 0;
        while i < n
            invariant
                n == self@.len(),
                i <= n,
                forall|j: int| 0 <= j < i ==> crate::structures::elem_is_zero::<T>(self@[j]),
            decreases n - i,
        {
            if !self.coeffs[i].is_identity(Additive) {
                return false;
            }
            i += 1;
        }
        true
    }
}

impl<T: Ring> TwoSidedInverse<Additive> for GenericPoly<T> where Elem<T>: RingElement<
    Parent = T,
> {
    open spec fn inverse_spec(&self) -> Seq<Elem<T>> {
        poly_neg_spec::<T>(self@)
    }

    fn two_sided_inverse(&self, o: Additive) -> (r: Self) {
        let mut r = self.clone_poly();
        r.neg_assign();
        proof {
            assert forall|p: GenericPolyRing<T>| p.contains(self) implies #[trigger] p.contains(
                &r,
            ) by {
                assert(coeffs_contained(self.base_ring_spec(), self@));
            }
        }
        r
    }
}

impl<T: Ring> Identity<Additive> for GenericPolyRing<T> where Elem<T>: RingElement<Parent = T> {
    open spec fn identity_spec(&self) -> Seq<Elem<T>> {
        seq![ring_zero::<T>(self.base_ring_spec())]
    }

    fn identity(&self, o: Additive) -> (r: GenericPoly<T>) {
        let z = self.ctx.base_ring.zero();
        let mut coeffs: Vec<Elem<T>> = Vec::new();
        coeffs.push(z);
        let r = GenericPoly {
            ctx: GenericPolyCtx {
                base_ring: self.ctx.base_ring.clone_ring(),
                var: self.ctx.var.clone(),
            },
            coeffs,
        };
        proof {
            assert(r@ =~= Identity::<Additive>::identity_spec(self));
        }
        r
    }

    proof fn lemma_identity(&self, x: &GenericPoly<T>, id: &GenericPoly<T>) {
        let base = self.base_ring_spec();
        let z = ring_zero::<T>(base);
        base.lemma_identities_contained();
        z.lemma_self_view();
        // combining with the identity on the right
        let rl = <GenericPoly<T> as Operation<Additive>>::op_spec(x, id);
        assert(x.pad_zero() == z);
        assert forall|j: int| 0 <= j < rl.len() implies rl[j] == x@[j] by {
            if j < id@.len() {
                assert(id@[j] == z);
                assert(zero_ext::<T>(x@, z, j) == x@[j]);
                let c = x@[j];
                c.lemma_self_view();
                <T as Identity<Additive>>::lemma_identity(&base, &c, &z);
            }
        }
        assert(rl =~= x@);
        // combining with the identity on the left
        let rr = <GenericPoly<T> as Operation<Additive>>::op_spec(id, x);
        assert(id.pad_zero() == z);
        assert forall|j: int| 0 <= j < rr.len() implies rr[j] == x@[j] by {
            assert(j < x@.len());
            assert(zero_ext::<T>(id@, z, j) == z);
            let c = x@[j];
            c.lemma_self_view();
            <T as Identity<Additive>>::lemma_identity(&base, &c, &z);
        }
        assert(rr =~= x@);
    }
}

impl<T: Ring> Divisible<Additive> for GenericPolyRing<T> where Elem<T>: RingElement<Parent = T> {
    proof fn lemma_inverse(
        &self,
        x: &GenericPoly<T>,
        inv: &GenericPoly<T>,
        rl: &GenericPoly<T>,
        rr: &GenericPoly<T>,
    ) {
        let base = self.base_ring_spec();
        let z = ring_zero::<T>(base);
        assert forall|j: int| 0 <= j < rl@.len() implies crate::structures::elem_is_zero::<T>(
            rl@[j],
        ) by {
            let c = x@[j];
            let n = inv@[j];
            let s = elem_add::<T>(c, n);
            let s_r = elem_add::<T>(n, c);
            c.lemma_self_view();
            n.lemma_self_view();
            s.lemma_self_view();
            s_r.lemma_self_view();
            assert(n == elem_neg::<T>(c));
            <T as Divisible<Additive>>::lemma_inverse(&base, &c, &n, &s, &s_r);
        }
        assert forall|j: int| 0 <= j < rr@.len() implies crate::structures::elem_is_zero::<T>(
            rr@[j],
        ) by {
            let c = x@[j];
            let n = inv@[j];
            c.lemma_self_view();
            n.lemma_self_view();
            assert(n == elem_neg::<T>(c));
            assert(zero_ext::<T>(inv@, z, j) == inv@[j]);
            let s = elem_add::<T>(n, c);
            s.lemma_self_view();
            let s2 = elem_add::<T>(c, n);
            s2.lemma_self_view();
            <T as Divisible<Additive>>::lemma_inverse(&base, &c, &n, &s2, &s);
        }
    }
}

impl<T: Ring> Associative<Additive> for GenericPolyRing<T> where Elem<T>: RingElement<
    Parent = T,
> {

}

impl<T: Ring> Commutative<Additive> for GenericPolyRing<T> where Elem<T>: RingElement<
    Parent = T,
> {

}

} // verus!

verus! {

/// The `k`-th convolution coefficient of `a` and `b`, summed over the
/// first `n` indices of `a`: the partial sum of `a[i] * b[k - i]` for
/// `i < n` where both indices are in range, starting from `z`.
pub open spec fn conv_coeff<T: Ring>(
    a: Seq<Elem<T>>,
    b: Seq<Elem<T>>,
    z: Elem<T>,
    k: int,
    n: int,
) -> Elem<T> where Elem<T>: RingElement<Parent = T>
    decreases n,
{
    if n <= 0 {
        z
    } else {
        let prev = conv_coeff::<T>(a, b, z, k, n - 1);
        let i = n - 1;
        if 0 <= i < a.len() && 0 <= k - i < b.len() {
            elem_add::<T>(prev, elem_mul::<T>(a[i], b[k - i]))
        } else {
            prev
        }
    }
}

/// The coefficient sequence of the product of `a` and `b` by classical
/// convolution: length `len(a) + len(b) - 1`, coefficient `k` the sum of
/// all products `a[i] * b[k - i]`.
pub open spec fn poly_mul_spec<T: Ring>(a: Seq<Elem<T>>, b: Seq<Elem<T>>, z: Elem<T>) -> Seq<
    Elem<T>,
> where Elem<T>: RingElement<Parent = T> {
    Seq::new(
        if a.len() + b.len() >= 1 {
            (a.len() + b.len() - 1) as nat
        } else {
            0
        },
        |k: int| conv_coeff::<T>(a, b, z, k, a.len() as int),
    )
}

/// A partial convolution sum of elements of the base ring stays in it.
proof fn lemma_conv_coeff_contained<T: Ring>(
    ring: T,
    a: Seq<Elem<T>>,
    b: Seq<Elem<T>>,
    z: Elem<T>,
    k: int,
    n: int,
) where Elem<T>: RingElement<Parent = T>
    requires
        coeffs_contained(ring, a),
        coeffs_contained(ring, b),
        ring.contains(&z),
    ensures
        ring.contains(&conv_coeff::<T>(a, b, z, k, n)),
    decreases n,
{
    if n > 0 {
        lemma_conv_coeff_contained(ring, a, b, z, k, n - 1);
        let i = n - 1;
        if 0 <= i < a.len() && 0 <= k - i < b.len() {
            let prev = conv_coeff::<T>(a, b, z, k, n - 1);
            a[i].lemma_ops_closed(&b[k - i], &ring);
            let p = elem_mul::<T>(a[i], b[k - i]);
            prev.lemma_ops_closed(&p, &ring);
        }
    }
}

impl<T: Ring> GenericPoly<T> where Elem<T>: RingElement<Parent = T> {
    /// The classical convolution of two coefficient vectors over this
    /// polynomial's base ring.
    fn conv_new(&self, x: &Vec<Elem<T>>, y: &Vec<Elem<T>>) -> (out: Vec<Elem<T>>)
        requires
            x@.len() + y@.len() >= 1,
            x@.len() + y@.len() - 1 <= usize::MAX,
        ensures
            out@ == poly_mul_spec::<T>(x@, y@, self.pad_zero()),
            coeffs_contained(self.base_ring_spec(), x@) && coeffs_contained(
                self.base_ring_spec(),
                y@,
            ) ==> coeffs_contained(self.base_ring_spec(), out@),
    {
        let ghost z = self.pad_zero();
        let ghost ok = coeffs_contained(self.base_ring_spec(), x@) && coeffs_contained(
            self.base_ring_spec(),
            y@,
        );
        let la = x.len();
        let lb = y.len();
        let rlen = if la >= 1 {
            la - 1 + lb
        } else {
            lb - 1
        };
        let mut out: Vec<Elem<T>> = Vec::new();
        while out.len() < rlen
            invariant
                z == self.pad_zero(),
                out@.len() <= rlen,
                forall|k: int| 0 <= k < out@.len() ==> out@[k] == z,
                ok ==> forall|k: int|
                    0 <= k < out@.len() ==> #[trigger] self.base_ring_spec().contains(&out@[k]),
            decreases rlen - out@.len(),
        {
            let zv = self.ctx.base_ring.zero();
            out.push(zv);
        }
        proof {
            assert(forall|k: int| 0 <= k < rlen ==> out@[k] == conv_coeff::<T>(x@, y@, z, k, 0));
        }
        let mut i: usize = 0;
        while i < la
            invariant
                z == self.pad_zero(),
                ok ==> coeffs_contained(self.base_ring_spec(), x@),
                ok ==> coeffs_contained(self.base_ring_spec(), y@),
                la == x@.len(),
                lb == y@.len(),
                la + lb - 1 == rlen <= usize::MAX,
                i <= la,
                out@.len() == rlen,
                forall|k: int| 0 <= k < rlen ==> out@[k] == conv_coeff::<T>(x@, y@, z, k, i as int),
                ok ==> forall|k: int|
                    0 <= k < rlen ==> #[trigger] self.base_ring_spec().contains(&out@[k]),
            decreases la - i,
        {
            let mut j: usize = 0;
            while j < lb
                invariant
                    z == self.pad_zero(),
                    ok ==> coeffs_contained(self.base_ring_spec(), x@),
                    ok ==> coeffs_contained(self.base_ring_spec(), y@),
                    la == x@.len(),
                    lb == y@.len(),
                    la + lb - 1 == rlen <= usize::MAX,
                    i < la,
                    j <= lb,
                    out@.len() == rlen,
                    forall|k: int|
                        i <= k < i + j ==> out@[k] == conv_coeff::<T>(x@, y@, z, k, i + 1),
                    forall|k: int|
                        0 <= k < rlen && !(i <= k < i + j) ==> out@[k] == conv_coeff::<T>(
                            x@,
                            y@,
                            z,
                            k,
                            i as int,
                        ),
                    ok ==> forall|k: int|
                        0 <= k < rlen ==> #[trigger] self.base_ring_spec().contains(&out@[k]),
                decreases lb - j,
            {
                proof {
                    x@[i as int].lemma_ops_total(&y@[j as int]);
                }
                let p = x[i].operate(Multiplicative, &y[j]);
                proof {
                    out@[i + j].lemma_ops_total(&p);
                }
                let s = out[i + j].operate(Additive, &p);
                proof {
                    p.lemma_self_view();
                    s.lemma_self_view();
                    assert(s == conv_coeff::<T>(x@, y@, z, i + j, i + 1));
                    if ok {
                        assert(self.base_ring_spec().contains(&x@[i as int]));
                        assert(self.base_ring_spec().contains(&y@[j as int]));
                        assert(self.base_ring_spec().contains(&p));
                        assert(self.base_ring_spec().contains(&s));
                    }
                }
                out[i + j] = s;
                j += 1;
            }
            proof {
                assert forall|k: int| 0 <= k < rlen implies out@[k] == conv_coeff::<T>(
                    x@,
                    y@,
                    z,
                    k,
                    i + 1,
                ) by {
                    if !(i <= k < i + lb) {
                        assert(out@[k] == conv_coeff::<T>(x@, y@, z, k, i as int));
                        assert(!(0 <= k - i < lb));
                    }
                }
            }
            i += 1;
        }
        proof {
            assert(out@ =~= poly_mul_spec::<T>(x@, y@, z));
        }
        out
    }

    /// Multiply this polynomial by `rhs` in place, by the classical
    /// convolution algorithm (the one algorithm this engine provides).
    pub fn mul_assign_best(&mut self, rhs: &Self)
        requires
            old(self)@.len() + rhs@.len() >= 1,
            old(self)@.len() + rhs@.len() - 1 <= usize::MAX,
        ensures
            final (self)@ == poly_mul_spec::<T>(old(self)@, rhs@, old(self).pad_zero()),
            final (self).ctx == old(self).ctx,
            coeffs_contained(old(self).base_ring_spec(), old(self)@) && coeffs_contained(
                old(self).base_ring_spec(),
                rhs@,
            ) ==> coeffs_contained(final (self).base_ring_spec(), final (self)@),
    {
        let out = self.conv_new(&self.coeffs, &rhs.coeffs);
        self.coeffs = out;
    }

    /// Multiply `lhs` by this polynomial, in place of this polynomial:
    /// the mirrored "from" direction, `self` becomes `lhs * self`.
    pub fn mul_from_best(&mut self, lhs: &Self)
        requires
            old(self)@.len() + lhs@.len() >= 1,
            old(self)@.len() + lhs@.len() - 1 <= usize::MAX,
        ensures
            final (self)@ == poly_mul_spec::<T>(lhs@, old(self)@, old(self).pad_zero()),
            final (self).ctx == old(self).ctx,
            coeffs_contained(old(self).base_ring_spec(), old(self)@) && coeffs_contained(
                old(self).base_ring_spec(),
                lhs@,
            ) ==> coeffs_contained(final (self).base_ring_spec(), final (self)@),
    {
        let out = self.conv_new(&lhs.coeffs, &self.coeffs);
        self.coeffs = out;
    }
}

impl<T: Ring> Operation<Multiplicative> for GenericPoly<T> where Elem<T>: RingElement<
    Parent = T,
> {
    open spec fn op_req(&self, right: &Self) -> bool {
        &&& self@.len() + right@.len() >= 1
        &&& self@.len() + right@.len() - 1 <= usize::MAX
    }

    open spec fn op_spec(&self, right: &Self) -> Seq<Elem<T>> {
        poly_mul_spec::<T>(self@, right@, self.pad_zero())
    }

    fn operate(&self, o: Multiplicative, right: &Self) -> (r: Self) {
        let mut r = self.clone_poly();
        r.mul_assign_best(right);
        proof {
            assert forall|p: GenericPolyRing<T>|
                p.contains(self) && p.contains(right) implies #[trigger] p.contains(&r) by {
                assert(coeffs_contained(self.base_ring_spec(), self@));
                assert(coeffs_contained(self.base_ring_spec(), right@));
            }
        }
        r
    }
}

impl<T: Ring> IsIdentity<Multiplicative> for GenericPoly<T> where Elem<T>: RingElement<
    Parent = T,
> {
    open spec fn is_identity_spec(&self) -> bool {
        &&& self@.len() >= 1
        &&& crate::structures::elem_is_one::<T>(self@[0])
        &&& forall|i: int| 1 <= i < self@.len() ==> crate::structures::elem_is_zero::<T>(self@[i])
    }

    fn is_identity(&self, o: Multiplicative) -> (r: bool) {
        let n = self.coeffs.len();
        if n == 0 {
            return false;
        }
        if !self.coeffs[0].is_identity(Multiplicative) {
            return false;
        }
        let mut i: usize = 1;
        while i < n
            invariant
                n == self@.len(),
                1 <= i <= n,
                forall|j: int| 1 <= j < i ==> crate::structures::elem_is_zero::<T>(self@[j]),
            decreases n - i,
        {
            if !self.coeffs[i].is_identity(Additive) {
                return false;
            }
            i += 1;
        }
        true
    }
}

/// Convolution with a one-coefficient multiplier on the right: the
/// partial sum at `k` collapses to the single product `a[k] * e`.
proof fn lemma_conv_singleton_right<T: Ring>(
    a: Seq<Elem<T>>,
    e: Elem<T>,
    z: Elem<T>,
    k: int,
    n: int,
) where Elem<T>: RingElement<Parent = T>
    requires
        0 <= n <= a.len(),
    ensures
        conv_coeff::<T>(a, seq![e], z, k, n) == if 0 <= k < n {
            elem_add::<T>(z, elem_mul::<T>(a[k], e))
        } else {
            z
        },
    decreases n,
{
    if n > 0 {
        lemma_conv_singleton_right::<T>(a, e, z, k, n - 1);
    }
}

impl<T: Ring> Identity<Multiplicative> for GenericPolyRing<T> where Elem<T>: RingElement<
    Parent = T,
> {
    open spec fn identity_spec(&self) -> Seq<Elem<T>> {
        seq![crate::structures::ring_one::<T>(self.base_ring_spec())]
    }

    fn identity(&self, o: Multiplicative) -> (r: GenericPoly<T>) {
        let e = self.ctx.base_ring.one();
        let mut coeffs: Vec<Elem<T>> = Vec::new();
        coeffs.push(e);
        let r = GenericPoly {
            ctx: GenericPolyCtx {
                base_ring: self.ctx.base_ring.clone_ring(),
                var: self.ctx.var.clone(),
            },
            coeffs,
        };
        proof {
            assert(r@ =~= Identity::<Multiplicative>::identity_spec(self));
        }
        r
    }

    proof fn lemma_identity(&self, x: &GenericPoly<T>, id: &GenericPoly<T>) {
        let base = self.base_ring_spec();
        let z = ring_zero::<T>(base);
        let e = crate::structures::ring_one::<T>(base);
        base.lemma_identities_contained();
        z.lemma_self_view();
        e.lemma_self_view();
        // multiplying by one on the right
        let rl = <GenericPoly<T> as Operation<Multiplicative>>::op_spec(x, id);
        assert(id@ =~= seq![e]);
        assert(rl.len() == x@.len());
        assert forall|k: int| 0 <= k < rl.len() implies rl[k] == x@[k] by {
            lemma_conv_singleton_right::<T>(x@, e, z, k, x@.len() as int);
            let c = x@[k];
            c.lemma_self_view();
            <T as Identity<Multiplicative>>::lemma_identity(&base, &c, &e);
            let m = elem_mul::<T>(c, e);
            assert(m == c);
            <T as Identity<Additive>>::lemma_identity(&base, &c, &z);
            assert(elem_add::<T>(z, c) == c);
        }
        assert(rl =~= x@);
        // multiplying by one on the left
        let rr = <GenericPoly<T> as Operation<Multiplicative>>::op_spec(id, x);
        assert(rr.len() == x@.len());
        assert forall|k: int| 0 <= k < rr.len() implies rr[k] == x@[k] by {
            let c = x@[k];
            c.lemma_self_view();
            assert(conv_coeff::<T>(id@, x@, z, k, 0) == z);
            assert(rr[k] == conv_coeff::<T>(id@, x@, z, k, 1));
            assert(id@[0] == e);
            assert(rr[k] == elem_add::<T>(z, elem_mul::<T>(e, c)));
            <T as Identity<Multiplicative>>::lemma_identity(&base, &c, &e);
            assert(elem_mul::<T>(e, c) == c);
            <T as Identity<Additive>>::lemma_identity(&base, &c, &z);
            assert(elem_add::<T>(z, c) == c);
        }
        assert(rr =~= x@);
    }
}

impl<T: Ring> Associative<Multiplicative> for GenericPolyRing<T> where Elem<T>: RingElement<
    Parent = T,
> {

}

impl<T: Ring> Commutative<Multiplicative> for GenericPolyRing<T> where Elem<T>: RingElement<
    Parent = T,
> {

}

impl<T: Ring> Distributive for GenericPolyRing<T> where Elem<T>: RingElement<Parent = T> {

}

} // verus!

verus! {

impl<T: Ring> GenericPoly<T> where Elem<T>: RingElement<Parent = T> {
    /// The coefficient at index `i`, if `i` is within the current length.
    pub fn coefficient(&self, i: usize) -> (r: Option<&Elem<T>>)
        ensures
            i < self@.len() ==> r == Some(&self@[i as int]),
            i >= self@.len() ==> r is None,
    {
        if i < self.coeffs.len() {
            Some(&self.coeffs[i])
        } else {
            None
        }
    }

    /// Short name for `coefficient`.
    pub fn coeff(&self, i: usize) -> (r: Option<&Elem<T>>)
        ensures
            i < self@.len() ==> r == Some(&self@[i as int]),
            i >= self@.len() ==> r is None,
    {
        self.coefficient(i)
    }

    /// A mutable borrow of the coefficient at index `i`, growing the
    /// polynomial with zeros up to length `i + 1` first when needed.
    pub fn coefficient_mut(&mut self, i: usize) -> (r: &mut Elem<T>)
        requires
            i < usize::MAX,
        ensures
            ({
                let grown = poly_resize_spec::<T>(
                    old(self)@,
                    old(self).pad_zero(),
                    if i < old(self)@.len() {
                        old(self)@.len()
                    } else {
                        (i + 1) as nat
                    },
                );
                &&& *r == grown[i as int]
                &&& final (self)@ == grown.update(i as int, *final (r))
                &&& final (self).ctx == old(self).ctx
            }),
    {
        if i >= self.coeffs.len() {
            self.resize(i + 1);
        }
        proof {
            assert(self@ =~= poly_resize_spec::<T>(
                old(self)@,
                old(self).pad_zero(),
                if i < old(self)@.len() {
                    old(self)@.len()
                } else {
                    (i + 1) as nat
                },
            ));
        }
        &mut self.coeffs[i]
    }

    /// Short name for `coefficient_mut`.
    pub fn coeff_mut(&mut self, i: usize) -> (r: &mut Elem<T>)
        requires
            i < usize::MAX,
        ensures
            ({
                let grown = poly_resize_spec::<T>(
                    old(self)@,
                    old(self).pad_zero(),
                    if i < old(self)@.len() {
                        old(self)@.len()
                    } else {
                        (i + 1) as nat
                    },
                );
                &&& *r == grown[i as int]
                &&& final (self)@ == grown.update(i as int, *final (r))
                &&& final (self).ctx == old(self).ctx
            }),
    {
        self.coefficient_mut(i)
    }

    /// A shared borrow of the whole coefficient vector.
    pub fn coefficients(&self) -> (r: &Vec<Elem<T>>)
        ensures
            r@ == self@,
    {
        &self.coeffs
    }

    /// Short name for `coefficients`.
    pub fn coeffs(&self) -> (r: &Vec<Elem<T>>)
        ensures
            r@ == self@,
    {
        &self.coeffs
    }

    /// A mutable borrow of the whole coefficient vector.
    pub fn coefficients_mut(&mut self) -> (r: &mut Vec<Elem<T>>)
        ensures
            *r == old(self).coeffs,
            final (self).coeffs == *final (r),
            final (self).ctx == old(self).ctx,
    {
        &mut self.coeffs
    }

    /// Short name for `coefficients_mut`.
    pub fn coeffs_mut(&mut self) -> (r: &mut Vec<Elem<T>>)
        ensures
            *r == old(self).coeffs,
            final (self).coeffs == *final (r),
            final (self).ctx == old(self).ctx,
    {
        &mut self.coeffs
    }

    /// Consume the polynomial, yielding its coefficient vector.
    pub fn into_coefficients(self) -> (r: Vec<Elem<T>>)
        ensures
            r@ == self@,
    {
        self.coeffs
    }

    /// Short name for `into_coefficients`.
    pub fn into_coeffs(self) -> (r: Vec<Elem<T>>)
        ensures
            r@ == self@,
    {
        self.coeffs
    }

    /// Rotate the coefficients so that the last `k` move to the front.
    pub fn rotate_right(&mut self, k: usize)
        requires
            k <= old(self)@.len(),
        ensures
            final (self)@ == old(self)@.subrange(
                old(self)@.len() - k,
                old(self)@.len() as int,
            ) + old(self)@.subrange(0, old(self)@.len() - k),
            final (self).ctx == old(self).ctx,
    {
        let n = self.coeffs.len();
        let mut out: Vec<Elem<T>> = Vec::new();
        let mut i: usize = n - k;
        while i < n
            invariant
                n == self.coeffs@.len(),
                k <= n,
                n - k <= i <= n,
                out@ =~= self.coeffs@.subrange(n - k, i as int),
            decreases n - i,
        {
            out.push(self.coeffs[i].clone_elem());
            i += 1;
        }
        let mut j: usize = 0;
        while j < n - k
            invariant
                n == self.coeffs@.len(),
                k <= n,
                j <= n - k,
                out@ =~= self.coeffs@.subrange(n - k, n as int) + self.coeffs@.subrange(
                    0,
                    j as int,
                ),
            decreases n - k - j,
        {
            out.push(self.coeffs[j].clone_elem());
            j += 1;
        }
        self.coeffs = out;
    }

    /// Rotate the coefficients so that the first `k` move to the back.
    pub fn rotate_left(&mut self, k: usize)
        requires
            k <= old(self)@.len(),
        ensures
            final (self)@ == old(self)@.subrange(k as int, old(self)@.len() as int) + old(
                self,
            )@.subrange(0, k as int),
            final (self).ctx == old(self).ctx,
    {
        let n = self.coeffs.len();
        let mut out: Vec<Elem<T>> = Vec::new();
        let mut i: usize = k;
        while i < n
            invariant
                n == self.coeffs@.len(),
                k <= n,
                k <= i <= n,
                out@ =~= self.coeffs@.subrange(k as int, i as int),
            decreases n - i,
        {
            out.push(self.coeffs[i].clone_elem());
            i += 1;
        }
        let mut j: usize = 0;
        while j < k
            invariant
                n == self.coeffs@.len(),
                k <= n,
                j <= k,
                out@ =~= self.coeffs@.subrange(k as int, n as int) + self.coeffs@.subrange(
                    0,
                    j as int,
                ),
            decreases k - j,
        {
            out.push(self.coeffs[j].clone_elem());
            j += 1;
        }
        self.coeffs = out;
    }
}

} // verus!

verus! {

/// The separator between rendered polynomial terms.
pub open spec fn sep_str() -> Seq<char> {
    seq![' ', '+', ' ']
}

/// The rendered form of the term with coefficient `c` at degree `i`, with
/// variable name `x`: the bare coefficient at degree zero, an implicit
/// coefficient for one, and an implicit exponent at degree one.
pub open spec fn term_str<T: Ring>(c: Elem<T>, x: Seq<char>, i: int) -> Seq<char> where Elem<
    T,
>: RingElement<Parent = T> {
    if i == 0 {
        c.str_spec()
    } else if i == 1 {
        if crate::structures::elem_is_one::<T>(c) {
            x
        } else {
            c.str_spec() + seq!['*'] + x
        }
    } else {
        if crate::structures::elem_is_one::<T>(c) {
            x + seq!['^'] + crate::text::dec_str(i as nat)
        } else {
            c.str_spec() + seq!['*'] + x + seq!['^'] + crate::text::dec_str(i as nat)
        }
    }
}

/// Whether the term at index `i` of `s` is rendered: zero terms are
/// omitted, except the constant term of a polynomial of length one.
pub open spec fn term_included<T: Ring>(s: Seq<Elem<T>>, i: int) -> bool where Elem<
    T,
>: RingElement<Parent = T> {
    if i == 0 {
        s.len() == 1 || !crate::structures::elem_is_zero::<T>(s[0])
    } else {
        !crate::structures::elem_is_zero::<T>(s[i])
    }
}

/// The rendered terms of `s` for indices `lo` and above, from highest
/// degree to lowest.
pub open spec fn terms_desc<T: Ring>(s: Seq<Elem<T>>, x: Seq<char>, lo: int) -> Seq<
    Seq<char>,
> where Elem<T>: RingElement<Parent = T>
    decreases s.len() - lo,
{
    if lo < 0 || lo >= s.len() {
        Seq::empty()
    } else {
        let rest = terms_desc::<T>(s, x, lo + 1);
        if term_included::<T>(s, lo) {
            rest.push(term_str::<T>(s[lo], x, lo))
        } else {
            rest
        }
    }
}

/// The parts joined with the term separator.
pub open spec fn join_terms(parts: Seq<Seq<char>>) -> Seq<char>
    decreases parts.len(),
{
    if parts.len() == 0 {
        Seq::empty()
    } else if parts.len() == 1 {
        parts[0]
    } else {
        parts[0] + sep_str() + join_terms(parts.drop_first())
    }
}

/// The rendered form of a whole coefficient sequence: its included terms,
/// highest degree first, joined with the separator.
pub open spec fn poly_str_spec<T: Ring>(s: Seq<Elem<T>>, x: Seq<char>) -> Seq<char> where Elem<
    T,
>: RingElement<Parent = T> {
    join_terms(terms_desc::<T>(s, x, 0))
}

/// Joining after appending one more part appends the separator and the
/// part (except to an empty list of parts).
proof fn lemma_join_push(parts: Seq<Seq<char>>, t: Seq<char>)
    ensures
        join_terms(parts.push(t)) == if parts.len() == 0 {
            t
        } else {
            join_terms(parts) + sep_str() + t
        },
    decreases parts.len(),
{
    if parts.len() == 0 {
        assert(parts.push(t).len() == 1);
        assert(parts.push(t)[0] == t);
    } else if parts.len() == 1 {
        let q = parts.push(t);
        assert(q.len() == 2);
        assert(q[0] == parts[0]);
        assert(q.drop_first() =~= seq![t]);
        assert(join_terms(q.drop_first()) == t);
        assert(join_terms(q) == q[0] + sep_str() + join_terms(q.drop_first()));
    } else {
        lemma_join_push(parts.drop_first(), t);
        assert(parts.push(t).drop_first() =~= parts.drop_first().push(t));
        assert(join_terms(parts.push(t)) == parts[0] + sep_str() + (join_terms(
            parts.drop_first(),
        ) + sep_str() + t));
        assert(parts[0] + sep_str() + (join_terms(parts.drop_first()) + sep_str() + t) =~= (
        parts[0] + sep_str() + join_terms(parts.drop_first())) + sep_str() + t);
    }
}

impl<T: Ring> GenericPoly<T> where Elem<T>: RingElement<Parent = T> {
    /// Render this polynomial: coefficients from highest degree to
    /// lowest, zero terms omitted, coefficient one and exponent one left
    /// implicit, terms joined with " + ". A polynomial of length one
    /// renders its constant term even when zero; a longer polynomial all
    /// of whose coefficients are zero renders as the empty string.
    fn render(&self) -> (r: String)
        ensures
            r@ == poly_str_spec::<T>(self@, self.var_spec()),
    {
        let n = self.coeffs.len();
        let mut out = String::new();
        let mut first: bool = true;
        let mut idx: usize = n;
        while idx > 0
            invariant
                n == self@.len(),
                idx <= n,
                out@ == join_terms(terms_desc::<T>(self@, self.var_spec(), idx as int)),
                first <==> terms_desc::<T>(self@, self.var_spec(), idx as int).len() == 0,
            decreases idx,
        {
            proof {
                reveal_strlit(" + ");
                reveal_strlit("*");
                reveal_strlit("^");
            }
            idx = idx - 1;
            let ghost parts = terms_desc::<T>(self@, self.var_spec(), idx + 1);
            let rendered: bool = if idx == 0 {
                n == 1 || !self.coeffs[0].is_identity(Additive)
            } else {
                !self.coeffs[idx].is_identity(Additive)
            };
            if rendered {
                if !first {
                    out.append(" + ");
                    proof {
                        assert(" + "@ =~= sep_str());
                    }
                }
                let ghost pre = out@;
                if idx == 0 {
                    let cs = self.coeffs[0].elem_string();
                    out.append(cs.as_str());
                } else {
                    if !self.coeffs[idx].is_identity(Multiplicative) {
                        let cs = self.coeffs[idx].elem_string();
                        out.append(cs.as_str());
                        out.append("*");
                    }
                    out.append(self.ctx.var.as_str());
                    if idx >= 2 {
                        out.append("^");
                        let es = crate::text::usize_dec_string(idx);
                        out.append(es.as_str());
                    }
                }
                proof {
                    let c = self@[idx as int];
                    let x = self.var_spec();
                    let t = term_str::<T>(c, x, idx as int);
                    assert("*"@ =~= seq!['*']);
                    assert("^"@ =~= seq!['^']);
                    if idx == 0 {
                        assert(out@ =~= pre + t);
                    } else if idx == 1 {
                        if crate::structures::elem_is_one::<T>(c) {
                            assert(t == x);
                            assert(out@ =~= pre + t);
                        } else {
                            assert(t == c.str_spec() + seq!['*'] + x);
                            assert(out@ =~= pre + t);
                        }
                    } else {
                        if crate::structures::elem_is_one::<T>(c) {
                            assert(t == x + seq!['^'] + crate::text::dec_str(idx as nat));
                            assert(out@ =~= pre + t);
                        } else {
                            assert(t == c.str_spec() + seq!['*'] + x + seq!['^']
                                + crate::text::dec_str(idx as nat));
                            assert(out@ =~= pre + t);
                        }
                    }
                    lemma_join_push(parts, t);
                    assert(out@ == join_terms(terms_desc::<T>(self@, x, idx as int)));
                }
                first = false;
            }
        }
        out
    }
}

} // verus!

verus! {

impl<T: Ring> crate::poly::PolynomialRing<T> for GenericPolyRing<T> where Elem<T>: RingElement<
    Parent = T,
> {
    open spec fn base_ring_spec(&self) -> T {
        self.ctx.base_ring
    }

    open spec fn var_spec(&self) -> Seq<char> {
        self.ctx.var@
    }

    fn init(ring: &T, var: &str) -> (r: Self) {
        GenericPolyRing { ctx: GenericPolyCtx::new(ring.clone_ring(), var) }
    }

    fn base_ring(&self) -> (r: &T) {
        &self.ctx.base_ring
    }

    fn var(&self) -> (r: String) {
        self.ctx.var.clone()
    }

    fn set_var(&mut self, var: &str) {
        self.ctx.var = var.to_owned();
    }

    fn nvars(&self) -> (r: i64) {
        1
    }

    fn eq_ring(&self, other: &Self) -> (r: bool) {
        self.ctx.base_ring.eq_ring(&other.ctx.base_ring)
    }

    fn zero(&self) -> (r: GenericPoly<T>) {
        Identity::<Additive>::identity(self, Additive)
    }

    fn one(&self) -> (r: GenericPoly<T>) {
        Identity::<Multiplicative>::identity(self, Multiplicative)
    }

    fn is_generic(&self) -> bool {
        true
    }
}

impl<T: Ring> crate::poly::PolynomialRingElement<T> for GenericPoly<T> where Elem<T>: RingElement<
    Parent = T,
> {
    open spec fn base_ring_spec(&self) -> T {
        self.ctx.base_ring
    }

    open spec fn var_spec(&self) -> Seq<char> {
        self.ctx.var@
    }

    fn base_ring(&self) -> (r: &T) {
        &self.ctx.base_ring
    }

    fn var(&self) -> (r: String) {
        self.ctx.var.clone()
    }

    fn len(&self) -> (r: usize) {
        self.coeffs.len()
    }

    fn degree(&self) -> (r: i64) {
        (self.coeffs.len() - 1) as i64
    }

    fn get_coefficient(&self, i: usize) -> (r: Elem<T>) {
        if i < self.coeffs.len() {
            self.coeffs[i].clone_elem()
        } else {
            self.ctx.base_ring.zero()
        }
    }

    fn get_coeff(&self, i: usize) -> (r: Elem<T>) {
        self.get_coefficient(i)
    }

    fn set_coefficient(&mut self, i: usize, coeff: Elem<T>) {
        if i >= self.coeffs.len() {
            self.resize(i + 1);
        }
        self.coeffs[i] = coeff;
        proof {
            assert forall|j: int| 0 <= j < self@.len() && j != i implies self@[j] == zero_ext::<T>(
                old(self)@,
                ring_zero::<T>(old(self).base_ring_spec()),
                j,
            ) by {
                if i < old(self)@.len() {
                    assert(self@[j] == old(self)@[j]);
                }
            }
        }
    }

    fn set_coeff(&mut self, i: usize, coeff: Elem<T>) {
        self.set_coefficient(i, coeff);
    }

    fn get_coefficients(&self) -> (r: Vec<Elem<T>>) {
        let c = self.clone_poly();
        c.coeffs
    }

    fn get_coeffs(&self) -> (r: Vec<Elem<T>>) {
        let c = self.clone_poly();
        c.coeffs
    }

    fn is_zero(&self) -> (r: bool) {
        self.is_identity(Additive)
    }

    fn is_one(&self) -> (r: bool) {
        self.is_identity(Multiplicative)
    }

    fn eq_poly(&self, other: &Self) -> (r: bool) {
        let n = self.coeffs.len();
        if other.coeffs.len() != n {
            proof {
                assert(self@ != other@);
            }
            return false;
        }
        let mut i: usize = 0;
        while i < n
            invariant
                n == self@.len(),
                n == other@.len(),
                i <= n,
                forall|j: int| 0 <= j < i ==> self@[j] == other@[j],
            decreases n - i,
        {
            if !self.coeffs[i].eq_elem(&other.coeffs[i]) {
                proof {
                    assert(self@[i as int] != other@[i as int]);
                }
                return false;
            }
            i += 1;
        }
        proof {
            assert(self@ =~= other@);
        }
        true
    }

    fn poly_string(&self) -> (r: String) {
        self.render()
    }

    fn is_generic(&self) -> bool {
        true
    }
}

impl<T: Ring> PartialEq for GenericPoly<T> where Elem<T>: RingElement<Parent = T> {
    fn eq(&self, other: &Self) -> (r: bool) {
        crate::poly::PolynomialRingElement::eq_poly(self, other)
    }
}

impl<T: Ring> vstd::std_specs::cmp::PartialEqSpecImpl for GenericPoly<T> where Elem<T>: RingElement<Parent = T> {
    open spec fn obeys_eq_spec() -> bool {
        true
    }

    open spec fn eq_spec(&self, other: &Self) -> bool {
        self@ == other@
    }
}

impl<T: Ring> PartialEq for GenericPolyRing<T> where Elem<T>: RingElement<Parent = T> {
    fn eq(&self, other: &Self) -> (r: bool) {
        self.ctx.base_ring.eq_ring(&other.ctx.base_ring)
    }
}

impl<T: Ring> vstd::std_specs::cmp::PartialEqSpecImpl for GenericPolyRing<T> where Elem<T>: RingElement<Parent = T> {
    open spec fn obeys_eq_spec() -> bool {
        true
    }

    open spec fn eq_spec(&self, other: &Self) -> bool {
        self.base_ring_spec() == other.base_ring_spec()
    }
}

impl<T: Ring> Clone for GenericPolyRing<T> where Elem<T>: RingElement<Parent = T> {
    /// Clone this ring handle: same base ring, same variable name.
    fn clone(&self) -> (r: Self)
        ensures
            r.base_ring_spec() == self.base_ring_spec(),
            r.var_spec() == self.var_spec(),
    {
        self.clone_ring()
    }
}

impl<T: Ring> Clone for GenericPoly<T> where Elem<T>: RingElement<Parent = T> {
    /// Clone this polynomial: same coefficients, same context.
    fn clone(&self) -> (r: Self)
        ensures
            r@ == self@,
            r.base_ring_spec() == self.base_ring_spec(),
            r.var_spec() == self.var_spec(),
    {
        self.clone_poly()
    }
}

impl<T: Ring> crate::structures::New<Vec<Elem<T>>> for GenericPolyRing<T> where Elem<
    T,
>: RingElement<Parent = T> {
    open spec fn new_req(&self, src: &Vec<Elem<T>>) -> bool {
        &&& src@.len() >= 1
        &&& coeffs_contained(self.base_ring_spec(), src@)
    }

    open spec fn new_spec(&self, src: &Vec<Elem<T>>) -> Seq<Elem<T>> {
        src@
    }

    fn new(&self, src: Vec<Elem<T>>) -> (r: GenericPoly<T>)
        ensures
            r.var_spec() == self.var_spec(),
            r.base_ring_spec() == self.base_ring_spec(),
    {
        GenericPoly {
            ctx: GenericPolyCtx {
                base_ring: self.ctx.base_ring.clone_ring(),
                var: self.ctx.var.clone(),
            },
            coeffs: src,
        }
    }
}

impl<T: Ring> crate::structures::New<&GenericPoly<T>> for GenericPolyRing<T> where Elem<
    T,
>: RingElement<Parent = T> {
    open spec fn new_req(&self, src: &&GenericPoly<T>) -> bool {
        self.contains(*src)
    }

    open spec fn new_spec(&self, src: &&GenericPoly<T>) -> Seq<Elem<T>> {
        (*src)@
    }

    fn new(&self, src: &GenericPoly<T>) -> (r: GenericPoly<T>)
        ensures
            r.var_spec() == self.var_spec(),
            r.base_ring_spec() == self.base_ring_spec(),
    {
        let c = src.clone_poly();
        GenericPoly {
            ctx: GenericPolyCtx {
                base_ring: self.ctx.base_ring.clone_ring(),
                var: self.ctx.var.clone(),
            },
            coeffs: c.coeffs,
        }
    }
}

} // verus!

verus! {

impl<T: Ring + crate::structures::New<S>, S: Copy, const N: usize> crate::structures::New<
    [S; N],
> for GenericPolyRing<T> where Elem<T>: RingElement<Parent = T> {
    open spec fn new_req(&self, src: &[S; N]) -> bool {
        forall|i: int|
            0 <= i < src@.len() ==> #[trigger] self.base_ring_spec().new_req(&src@[i])
    }

    open spec fn new_spec(&self, src: &[S; N]) -> Seq<Elem<T>> {
        if src@.len() == 0 {
            seq![ring_zero::<T>(self.base_ring_spec())]
        } else {
            Seq::new(src@.len(), |i: int| self.base_ring_spec().new_spec(&src@[i]))
        }
    }

    fn new(&self, src: [S; N]) -> (r: GenericPoly<T>)
        ensures
            r.var_spec() == self.var_spec(),
            r.base_ring_spec() == self.base_ring_spec(),
    {
        let mut coeffs: Vec<Elem<T>> = Vec::new();
        if N == 0 {
            let z = self.ctx.base_ring.zero();
            coeffs.push(z);
        } else {
            let mut i: usize = 0;
            while i < N
                invariant
                    i <= N,
                    coeffs@.len() == i,
                    forall|j: int|
                        0 <= j < i ==> coeffs@[j] == self.base_ring_spec().new_spec(&src@[j]),
                    forall|j: int|
                        0 <= j < i ==> #[trigger] self.base_ring_spec().contains(&coeffs@[j]),
                    forall|j: int|
                        0 <= j < src@.len() ==> #[trigger] self.base_ring_spec().new_req(
                            &src@[j],
                        ),
                decreases N - i,
            {
                proof {
                    assert(self.base_ring_spec().new_req(&src@[i as int]));
                }
                let c = self.ctx.base_ring.new(src[i]);
                proof {
                    c.lemma_self_view();
                }
                coeffs.push(c);
                i += 1;
            }
        }
        let r = GenericPoly {
            ctx: GenericPolyCtx {
                base_ring: self.ctx.base_ring.clone_ring(),
                var: self.ctx.var.clone(),
            },
            coeffs,
        };
        proof {
            assert(r@ =~= crate::structures::New::<[S; N]>::new_spec(self, &src));
        }
        r
    }
}

impl<'a, T: Ring + crate::structures::New<S>, S: Copy> crate::structures::New<
    &'a [S],
> for GenericPolyRing<T> where Elem<T>: RingElement<Parent = T> {
    open spec fn new_req(&self, src: &&'a [S]) -> bool {
        forall|i: int|
            0 <= i < src@.len() ==> #[trigger] self.base_ring_spec().new_req(&src@[i])
    }

    open spec fn new_spec(&self, src: &&'a [S]) -> Seq<Elem<T>> {
        if src@.len() == 0 {
            seq![ring_zero::<T>(self.base_ring_spec())]
        } else {
            Seq::new(src@.len(), |i: int| self.base_ring_spec().new_spec(&src@[i]))
        }
    }

    fn new(&self, src: &'a [S]) -> (r: GenericPoly<T>)
        ensures
            r.var_spec() == self.var_spec(),
            r.base_ring_spec() == self.base_ring_spec(),
    {
        let n = src.len();
        let mut coeffs: Vec<Elem<T>> = Vec::new();
        if n == 0 {
            let z = self.ctx.base_ring.zero();
            coeffs.push(z);
        } else {
            let mut i: usize = 0;
            while i < n
                invariant
                    n == src@.len(),
                    i <= n,
                    coeffs@.len() == i,
                    forall|j: int|
                        0 <= j < i ==> coeffs@[j] == self.base_ring_spec().new_spec(&src@[j]),
                    forall|j: int|
                        0 <= j < i ==> #[trigger] self.base_ring_spec().contains(&coeffs@[j]),
                    forall|j: int|
                        0 <= j < src@.len() ==> #[trigger] self.base_ring_spec().new_req(
                            &src@[j],
                        ),
                decreases n - i,
            {
                proof {
                    assert(self.base_ring_spec().new_req(&src@[i as int]));
                }
                let c = self.ctx.base_ring.new(src[i]);
                proof {
                    c.lemma_self_view();
                }
                coeffs.push(c);
                i += 1;
            }
        }
        let r = GenericPoly {
            ctx: GenericPolyCtx {
                base_ring: self.ctx.base_ring.clone_ring(),
                var: self.ctx.var.clone(),
            },
            coeffs,
        };
        proof {
            assert(r@ =~= crate::structures::New::<&'a [S]>::new_spec(self, &src));
        }
        r
    }
}

} // verus!

verus! {

impl<T: Ring> crate::ops::BinAssign<crate::ops::AddOp> for GenericPoly<T> where Elem<
    T,
>: RingElement<Parent = T> {
    open spec fn bin_req(&self, rhs: &Self) -> bool {
        true
    }

    open spec fn bin_spec(&self, rhs: &Self) -> Seq<Elem<T>> {
        poly_add_spec::<T>(self@, rhs@, self.pad_zero())
    }

    open spec fn bin_from_spec(&self, lhs: &Self) -> Seq<Elem<T>> {
        poly_add_from_spec::<T>(self@, lhs@, self.pad_zero())
    }

    fn op_assign(&mut self, rhs: &Self) {
        self.add_assign(rhs);
    }

    fn op_from(&mut self, lhs: &Self) {
        self.add_from(lhs);
    }

    fn clone_val(&self) -> (r: Self) {
        self.clone_poly()
    }
}

impl<T: Ring> crate::ops::BinAssign<crate::ops::SubOp> for GenericPoly<T> where Elem<
    T,
>: RingElement<Parent = T> {
    open spec fn bin_req(&self, rhs: &Self) -> bool {
        true
    }

    open spec fn bin_spec(&self, rhs: &Self) -> Seq<Elem<T>> {
        poly_sub_spec::<T>(self@, rhs@, self.pad_zero())
    }

    open spec fn bin_from_spec(&self, lhs: &Self) -> Seq<Elem<T>> {
        poly_sub_from_spec::<T>(self@, lhs@, self.pad_zero())
    }

    fn op_assign(&mut self, rhs: &Self) {
        self.sub_assign(rhs);
    }

    fn op_from(&mut self, lhs: &Self) {
        self.sub_from(lhs);
    }

    fn clone_val(&self) -> (r: Self) {
        self.clone_poly()
    }
}

impl<T: Ring> crate::ops::BinAssign<crate::ops::MulOp> for GenericPoly<T> where Elem<
    T,
>: RingElement<Parent = T> {
    open spec fn bin_req(&self, rhs: &Self) -> bool {
        &&& self@.len() + rhs@.len() >= 1
        &&& self@.len() + rhs@.len() - 1 <= usize::MAX
    }

    open spec fn bin_spec(&self, rhs: &Self) -> Seq<Elem<T>> {
        poly_mul_spec::<T>(self@, rhs@, self.pad_zero())
    }

    open spec fn bin_from_spec(&self, lhs: &Self) -> Seq<Elem<T>> {
        poly_mul_spec::<T>(lhs@, self@, self.pad_zero())
    }

    fn op_assign(&mut self, rhs: &Self) {
        self.mul_assign_best(rhs);
    }

    fn op_from(&mut self, lhs: &Self) {
        self.mul_from_best(lhs);
    }

    fn clone_val(&self) -> (r: Self) {
        self.clone_poly()
    }
}

impl<T: Ring> crate::ops::UnAssign<crate::ops::NegOp> for GenericPoly<T> where Elem<
    T,
>: RingElement<Parent = T> {
    open spec fn un_spec(&self) -> Seq<Elem<T>> {
        poly_neg_spec::<T>(self@)
    }

    fn un_assign(&mut self) {
        self.neg_assign();
    }

    fn clone_un(&self) -> (r: Self) {
        self.clone_poly()
    }
}

/// Law (mirror of addition): computing `l + a` in place of the right
/// operand agrees with the direct sum, for operands over one ring.
pub proof fn lemma_add_mirror<T: Ring>(a: &GenericPoly<T>, l: &GenericPoly<T>) where Elem<
    T,
>: RingElement<Parent = T>
    requires
        a.wf(),
        l.wf(),
        a.base_ring_spec() == l.base_ring_spec(),
    ensures
        poly_add_from_spec::<T>(a@, l@, a.pad_zero()) == poly_add_spec::<T>(l@, a@, l.pad_zero()),
{
    let base = a.base_ring_spec();
    let z = ring_zero::<T>(base);
    base.lemma_identities_contained();
    z.lemma_self_view();
    let lhs = poly_add_from_spec::<T>(a@, l@, z);
    let target = poly_add_spec::<T>(l@, a@, z);
    assert forall|i: int| 0 <= i < lhs.len() implies lhs[i] == target[i] by {
        if i < l@.len() && i < a@.len() {
        } else if i < a@.len() {
            // beyond l: the mirrored form keeps a[i]; the direct form adds zero
            let c = a@[i];
            c.lemma_self_view();
            <T as Identity<Additive>>::lemma_identity(&base, &c, &z);
        } else {
            // beyond a: the mirrored form adds zero; the direct form keeps l[i]
            let c = l@[i];
            c.lemma_self_view();
            <T as Identity<Additive>>::lemma_identity(&base, &c, &z);
        }
    }
    assert(lhs =~= target);
}

/// Law (mirror of subtraction): computing `l - a` in place of the right
/// operand agrees with the direct difference whenever the left operand is
/// at least as long; a shorter left operand leaves the right operand's
/// upper coefficients un-negated, so there the two directions differ.
pub proof fn lemma_sub_mirror<T: Ring>(a: &GenericPoly<T>, l: &GenericPoly<T>) where Elem<
    T,
>: RingElement<Parent = T>
    requires
        a.wf(),
        l.wf(),
        a.base_ring_spec() == l.base_ring_spec(),
        l@.len() >= a@.len(),
    ensures
        poly_sub_from_spec::<T>(a@, l@, a.pad_zero()) == poly_sub_spec::<T>(l@, a@, l.pad_zero()),
{
    let base = a.base_ring_spec();
    let z = ring_zero::<T>(base);
    base.lemma_identities_contained();
    z.lemma_self_view();
    let lhs = poly_sub_from_spec::<T>(a@, l@, z);
    let target = poly_sub_spec::<T>(l@, a@, z);
    assert forall|i: int| 0 <= i < lhs.len() implies lhs[i] == target[i] by {
        if i < a@.len() {
        } else {
            // beyond a: the mirrored form subtracts zero from l[i]; the
            // direct form keeps l[i]
            let c = l@[i];
            c.lemma_self_view();
            c.lemma_ops_closed(&z, &base);
            c.lemma_sub_is_add_inverse(&z);
            // the inverse of zero is zero
            let nz = elem_neg::<T>(z);
            nz.lemma_self_view();
            z.lemma_ops_closed(&z, &base);
            nz.lemma_ops_closed(&z, &base);
            z.lemma_ops_closed(&nz, &base);
            let s = elem_add::<T>(nz, z);
            s.lemma_self_view();
            let s2 = elem_add::<T>(z, nz);
            s2.lemma_self_view();
            <T as Divisible<Additive>>::lemma_inverse(&base, &z, &nz, &s2, &s);
            base.lemma_identity_unique(&s);
            <T as Identity<Additive>>::lemma_identity(&base, &nz, &z);
            assert(nz == z);
            <T as Identity<Additive>>::lemma_identity(&base, &c, &z);
            assert(elem_sub::<T>(c, z) == c);
        }
    }
    assert(lhs =~= target);
}

/// Law (mirror of multiplication): computing `l * a` in place of the
/// right operand agrees with the direct product, for operands over one
/// ring.
pub proof fn lemma_mul_mirror<T: Ring>(a: &GenericPoly<T>, l: &GenericPoly<T>) where Elem<
    T,
>: RingElement<Parent = T>
    requires
        a.base_ring_spec() == l.base_ring_spec(),
    ensures
        poly_mul_spec::<T>(l@, a@, a.pad_zero()) == poly_mul_spec::<T>(l@, a@, l.pad_zero()),
{
}

} // verus!

verus! {

/// Law (add/subtract round trip): for polynomials `p`, `q` over one ring
/// with `q` no longer than `p`, `(p + q) - q` has exactly `p`'s
/// coefficients. The length bound is needed because addition pads to the
/// longer operand and nothing trims afterwards: with a longer `q`, the
/// round trip returns `p` extended by zero coefficients, which
/// length-sensitive equality distinguishes from `p`.
pub proof fn lemma_add_sub_round_trip<T: Ring>(p: &GenericPoly<T>, q: &GenericPoly<T>) where Elem<
    T,
>: RingElement<Parent = T>
    requires
        q@.len() <= p@.len(),
    ensures
        poly_sub_spec::<T>(
            poly_add_spec::<T>(p@, q@, p.pad_zero()),
            q@,
            p.pad_zero(),
        ) == p@,
{
    let z = p.pad_zero();
    let s = poly_add_spec::<T>(p@, q@, z);
    let r = poly_sub_spec::<T>(s, q@, z);
    assert(s.len() == p@.len());
    assert(r.len() == p@.len());
    assert forall|j: int| 0 <= j < r.len() implies r[j] == p@[j] by {
        if j < q@.len() {
            assert(s[j] == elem_add::<T>(p@[j], q@[j]));
            p@[j].lemma_add_sub_cancel(&q@[j]);
            assert(r[j] == elem_sub::<T>(s[j], q@[j]));
        } else {
            assert(s[j] == p@[j]);
            assert(r[j] == s[j]);
        }
    }
    assert(r =~= p@);
}

} // verus!
