//! Matrix spaces: the structural analogue of the polynomial engine over a
//! two-dimensional dense entry sequence in row-major order
//! (`index = row * ncols + col`).
//!
//! `GenericMatSpace<T>` is the space of `nrows` by `ncols` matrices over
//! the base ring `T`; `GenericMat<T>` is its element: a flat entry vector
//! whose length is exactly `nrows * ncols`. The additive structure
//! (zero, negation, addition, subtraction) uses the same
//! resize-and-accumulate strategy as the polynomial engine; entry access
//! is bounds-checked against `nrows * ncols` and returns no value rather
//! than failing. `MatSpace` / `Mat` are the user-facing facades over an
//! inner representation chosen per coefficient ring through
//! `IntoMatSpace`.

use vstd::prelude::*;

use crate::structures::Additive;
use crate::structures::Associative;
use crate::structures::Commutative;
use crate::structures::Divisible;
use crate::structures::Elem;
use crate::structures::Element;
use crate::structures::Identity;
use crate::structures::IsIdentity;
use crate::structures::Operation;
use crate::structures::Parent;
use crate::structures::Ring;
use crate::structures::RingElement;
use crate::structures::TwoSidedInverse;
use crate::structures::coeffs_contained;
use crate::structures::elem_add;
use crate::structures::elem_neg;
use crate::structures::elem_sub;
use crate::structures::ring_zero;
use crate::poly::generic::poly_add_spec;
use crate::poly::generic::poly_add_from_spec;
use crate::poly::generic::poly_neg_spec;
use crate::poly::generic::poly_resize_spec;
use crate::poly::generic::poly_sub_spec;
use crate::poly::generic::poly_sub_from_spec;
use crate::poly::generic::zero_ext;

verus! {

/// The configuration shared by a matrix space and its elements: the base
/// ring and the shape. Held by value and immutable after construction.
pub struct GenericMatCtx<T> {
    pub base_ring: T,
    pub nrows: usize,
    pub ncols: usize,
}

impl<T> GenericMatCtx<T> {
    /// Build a context from a base ring and a shape.
    pub fn new(base_ring: T, nrows: usize, ncols: usize) -> (r: Self)
        ensures
            r.base_ring == base_ring,
            r.nrows == nrows,
            r.ncols == ncols,
    {
        GenericMatCtx { base_ring, nrows, ncols }
    }
}

/// The space of `nrows` by `ncols` dense matrices over the base ring `T`.
pub struct GenericMatSpace<T: Parent> {
    pub ctx: GenericMatCtx<T>,
}

/// A dense matrix: a flat entry vector in row-major order, of length
/// exactly `nrows * ncols`.
pub struct GenericMat<T: Parent> {
    pub ctx: GenericMatCtx<T>,
    pub entries: Vec<Elem<T>>,
}

impl<T: Parent> View for GenericMat<T> {
    type V = Seq<Elem<T>>;

    open spec fn view(&self) -> Seq<Elem<T>> {
        self.entries@
    }
}

impl<T: Ring> GenericMatSpace<T> where Elem<T>: RingElement<Parent = T> {
    /// The base ring of this matrix space.
    pub open spec fn base_ring_spec(&self) -> T {
        self.ctx.base_ring
    }

    /// The number of rows.
    pub open spec fn nrows_spec(&self) -> nat {
        self.ctx.nrows as nat
    }

    /// The number of columns.
    pub open spec fn ncols_spec(&self) -> nat {
        self.ctx.ncols as nat
    }
}

impl<T: Ring> GenericMat<T> where Elem<T>: RingElement<Parent = T> {
    /// The base ring this matrix's entries live in.
    pub open spec fn base_ring_spec(&self) -> T {
        self.ctx.base_ring
    }

    /// The number of rows.
    pub open spec fn nrows_spec(&self) -> nat {
        self.ctx.nrows as nat
    }

    /// The number of columns.
    pub open spec fn ncols_spec(&self) -> nat {
        self.ctx.ncols as nat
    }

    /// The base ring's zero, used to pad this matrix.
    pub open spec fn pad_zero(&self) -> Elem<T> {
        ring_zero(self.base_ring_spec())
    }

    /// Well-formedness: exactly `nrows * ncols` entries, all of them
    /// elements of the base ring.
    pub open spec fn wf(&self) -> bool {
        &&& self@.len() == self.nrows_spec() * self.ncols_spec()
        &&& coeffs_contained(self.base_ring_spec(), self@)
    }
}

impl<T: Ring> GenericMat<T> where Elem<T>: RingElement<Parent = T> {
    /// Clone this matrix (contracted, entry by entry).
    pub fn clone_mat(&self) -> (r: Self)
        ensures
            r@ == self@,
            r.ctx.base_ring == self.ctx.base_ring,
            r.ctx.nrows == self.ctx.nrows,
            r.ctx.ncols == self.ctx.ncols,
    {
        let mut entries: Vec<Elem<T>> = Vec::new();
        let n = self.entries.len();
        let mut i: usize = 0;
        while i < n
            invariant
                n == self.entries.len(),
                i <= n,
                entries@ =~= self.entries@.subrange(0, i as int),
            decreases n - i,
        {
            entries.push(self.entries[i].clone_elem());
            i += 1;
        }
        proof {
            assert(entries@ =~= self.entries@);
        }
        GenericMat {
            ctx: GenericMatCtx {
                base_ring: self.ctx.base_ring.clone_ring(),
                nrows: self.ctx.nrows,
                ncols: self.ctx.ncols,
            },
            entries,
        }
    }

    /// Pad this matrix's entry vector with the base ring's zero, or
    /// truncate it, to the given length.
    fn resize_entries(&mut self, new_len: usize)
        ensures
            final (self)@ == poly_resize_spec::<T>(
                old(self)@,
                old(self).pad_zero(),
                new_len as nat,
            ),
            final (self).ctx == old(self).ctx,
    {
        if new_len <= self.entries.len() {
            self.entries.truncate(new_len);
            proof {
                assert(self@ =~= poly_resize_spec::<T>(
                    old(self)@,
                    old(self).pad_zero(),
                    new_len as nat,
                ));
            }
        } else {
            while self.entries.len() < new_len
                invariant
                    old(self)@.len() < self@.len() <= new_len || self@ == old(self)@,
                    self@.len() >= old(self)@.len(),
                    self@.subrange(0, old(self)@.len() as int) == old(self)@,
                    forall|i: int|
                        old(self)@.len() <= i < self@.len() ==> self@[i] == old(self).pad_zero(),
                    self.ctx == old(self).ctx,
                decreases new_len - self.entries.len(),
            {
                let z = self.ctx.base_ring.zero();
                self.entries.push(z);
            }
            proof {
                assert(self@ =~= poly_resize_spec::<T>(
                    old(self)@,
                    old(self).pad_zero(),
                    new_len as nat,
                ));
            }
        }
    }

    /// Add `rhs` to this matrix in place, entrywise, padding the receiver
    /// with zero up to the longer entry count first.
    pub fn add_assign(&mut self, rhs: &Self)
        ensures
            final (self)@ == poly_add_spec::<T>(old(self)@, rhs@, old(self).pad_zero()),
            final (self).ctx == old(self).ctx,
            coeffs_contained(old(self).base_ring_spec(), old(self)@) && coeffs_contained(
                old(self).base_ring_spec(),
                rhs@,
            ) ==> coeffs_contained(final (self).base_ring_spec(), final (self)@),
    {
        let n = rhs.entries.len();
        let len = self.entries.len();
        let max_len = if len >= n {
            len
        } else {
            n
        };
        self.resize_entries(max_len);
        let ghost grown = self@;
        let ghost ok = coeffs_contained(old(self).base_ring_spec(), old(self)@)
            && coeffs_contained(old(self).base_ring_spec(), rhs@);
        proof {
            if ok {
                old(self).base_ring_spec().lemma_identities_contained();
                assert forall|j: int| 0 <= j < grown.len() implies #[trigger] self.base_ring_spec()
                    .contains(&grown[j]) by {
                    if j < old(self)@.len() {
                        assert(grown[j] == old(self)@[j]);
                    } else {
                        assert(grown[j] == old(self).pad_zero());
                    }
                }
            }
        }
        let mut i: usize = 0;
        while i < n
            invariant
                n == rhs.entries@.len(),
                n <= self@.len(),
                i <= n,
                self@.len() == grown.len(),
                forall|j: int| 0 <= j < i ==> self@[j] == elem_add::<T>(grown[j], rhs@[j]),
                forall|j: int| i <= j < self@.len() ==> self@[j] == grown[j],
                self.ctx == old(self).ctx,
                ok ==> coeffs_contained(self.base_ring_spec(), grown),
                ok ==> coeffs_contained(self.base_ring_spec(), rhs@),
                ok ==> forall|j: int|
                    0 <= j < i ==> #[trigger] self.base_ring_spec().contains(&self@[j]),
            decreases n - i,
        {
            proof {
                self.entries@[i as int].lemma_ops_total(&rhs.entries@[i as int]);
            }
            let s = self.entries[i].operate(Additive, &rhs.entries[i]);
            proof {
                s.lemma_self_view();
                if ok {
                    assert(self.base_ring_spec().contains(&grown[i as int]));
                    assert(self.base_ring_spec().contains(&rhs@[i as int]));
                    assert(self.base_ring_spec().contains(&s));
                }
            }
            self.entries[i] = s;
            i += 1;
        }
        proof {
            let target = poly_add_spec::<T>(old(self)@, rhs@, old(self).pad_zero());
            assert(self@.len() == target.len());
            assert forall|j: int| 0 <= j < self@.len() implies self@[j] == target[j] by {
                assert(grown == poly_resize_spec::<T>(
                    old(self)@,
                    old(self).pad_zero(),
                    max_len as nat,
                ));
                if j < n {
                    assert(grown[j] == zero_ext::<T>(old(self)@, old(self).pad_zero(), j));
                    assert(self@[j] == elem_add::<T>(grown[j], rhs@[j]));
                } else {
                    assert(self@[j] == grown[j]);
                    assert(j < old(self)@.len());
                    assert(grown[j] == old(self)@[j]);
                }
            }
            assert(self@ =~= target);
            if ok {
                assert(coeffs_contained(self.base_ring_spec(), self@));
            }
        }
    }

    /// Subtract `rhs` from this matrix in place, entrywise.
    pub fn sub_assign(&mut self, rhs: &Self)
        ensures
            final (self)@ == poly_sub_spec::<T>(old(self)@, rhs@, old(self).pad_zero()),
            final (self).ctx == old(self).ctx,
            coeffs_contained(old(self).base_ring_spec(), old(self)@) && coeffs_contained(
                old(self).base_ring_spec(),
                rhs@,
            ) ==> coeffs_contained(final (self).base_ring_spec(), final (self)@),
    {
        let n = rhs.entries.len();
        let len = self.entries.len();
        let max_len = if len >= n {
            len
        } else {
            n
        };
        self.resize_entries(max_len);
        let ghost grown = self@;
        let ghost ok = coeffs_contained(old(self).base_ring_spec(), old(self)@)
            && coeffs_contained(old(self).base_ring_spec(), rhs@);
        proof {
            if ok {
                old(self).base_ring_spec().lemma_identities_contained();
                assert forall|j: int| 0 <= j < grown.len() implies #[trigger] self.base_ring_spec()
                    .contains(&grown[j]) by {
                    if j < old(self)@.len() {
                        assert(grown[j] == old(self)@[j]);
                    } else {
                        assert(grown[j] == old(self).pad_zero());
                    }
                }
            }
        }
        let mut i: usize = 0;
        while i < n
            invariant
                n == rhs.entries@.len(),
                n <= self@.len(),
                i <= n,
                self@.len() == grown.len(),
                forall|j: int| 0 <= j < i ==> self@[j] == elem_sub::<T>(grown[j], rhs@[j]),
                forall|j: int| i <= j < self@.len() ==> self@[j] == grown[j],
                self.ctx == old(self).ctx,
                ok ==> coeffs_contained(self.base_ring_spec(), grown),
                ok ==> coeffs_contained(self.base_ring_spec(), rhs@),
                ok ==> forall|j: int|
                    0 <= j < i ==> #[trigger] self.base_ring_spec().contains(&self@[j]),
            decreases n - i,
        {
            let s = self.entries[i].sub_elem(&rhs.entries[i]);
            proof {
                if ok {
                    assert(self.base_ring_spec().contains(&grown[i as int]));
                    assert(self.base_ring_spec().contains(&rhs@[i as int]));
                    assert(self.base_ring_spec().contains(&s));
                }
            }
            self.entries[i] = s;
            i += 1;
        }
        proof {
            let target = poly_sub_spec::<T>(old(self)@, rhs@, old(self).pad_zero());
            assert(self@.len() == target.len());
            assert forall|j: int| 0 <= j < self@.len() implies self@[j] == target[j] by {
                assert(grown == poly_resize_spec::<T>(
                    old(self)@,
                    old(self).pad_zero(),
                    max_len as nat,
                ));
                if j < n {
                    assert(grown[j] == zero_ext::<T>(old(self)@, old(self).pad_zero(), j));
                    assert(self@[j] == elem_sub::<T>(grown[j], rhs@[j]));
                } else {
                    assert(self@[j] == grown[j]);
                    assert(j < old(self)@.len());
                    assert(grown[j] == old(self)@[j]);
                }
            }
            assert(self@ =~= target);
            if ok {
                assert(coeffs_contained(self.base_ring_spec(), self@));
            }
        }
    }

    /// Add this matrix to `lhs`, in place of this matrix: the mirrored
    /// "from" direction of addition.
    pub fn add_from(&mut self, lhs: &Self)
        ensures
            final (self)@ == poly_add_from_spec::<T>(old(self)@, lhs@, old(self).pad_zero()),
            final (self).ctx == old(self).ctx,
            coeffs_contained(old(self).base_ring_spec(), old(self)@) && coeffs_contained(
                old(self).base_ring_spec(),
                lhs@,
            ) ==> coeffs_contained(final (self).base_ring_spec(), final (self)@),
    {
        let n = lhs.entries.len();
        let len = self.entries.len();
        let max_len = if len >= n {
            len
        } else {
            n
        };
        self.resize_entries(max_len);
        let ghost grown = self@;
        let ghost ok = coeffs_contained(old(self).base_ring_spec(), old(self)@)
            && coeffs_contained(old(self).base_ring_spec(), lhs@);
        proof {
            if ok {
                old(self).base_ring_spec().lemma_identities_contained();
                assert forall|j: int| 0 <= j < grown.len() implies #[trigger] self.base_ring_spec()
                    .contains(&grown[j]) by {
                    if j < old(self)@.len() {
                        assert(grown[j] == old(self)@[j]);
                    } else {
                        assert(grown[j] == old(self).pad_zero());
                    }
                }
            }
        }
        let mut i: usize = 0;
        while i < n
            invariant
                n == lhs.entries@.len(),
                n <= self@.len(),
                i <= n,
                self@.len() == grown.len(),
                forall|j: int| 0 <= j < i ==> self@[j] == elem_add::<T>(lhs@[j], grown[j]),
                forall|j: int| i <= j < self@.len() ==> self@[j] == grown[j],
                self.ctx == old(self).ctx,
                ok ==> coeffs_contained(self.base_ring_spec(), grown),
                ok ==> coeffs_contained(self.base_ring_spec(), lhs@),
                ok ==> forall|j: int|
                    0 <= j < i ==> #[trigger] self.base_ring_spec().contains(&self@[j]),
            decreases n - i,
        {
            proof {
                lhs.entries@[i as int].lemma_ops_total(&self.entries@[i as int]);
            }
            let s = lhs.entries[i].operate(Additive, &self.entries[i]);
            proof {
                s.lemma_self_view();
                if ok {
                    assert(self.base_ring_spec().contains(&grown[i as int]));
                    assert(self.base_ring_spec().contains(&lhs@[i as int]));
                    assert(self.base_ring_spec().contains(&s));
                }
            }
            self.entries[i] = s;
            i += 1;
        }
        proof {
            let target = poly_add_from_spec::<T>(old(self)@, lhs@, old(self).pad_zero());
            assert(self@.len() == target.len());
            assert forall|j: int| 0 <= j < self@.len() implies self@[j] == target[j] by {
                assert(grown == poly_resize_spec::<T>(
                    old(self)@,
                    old(self).pad_zero(),
                    max_len as nat,
                ));
                if j < n {
                    assert(grown[j] == zero_ext::<T>(old(self)@, old(self).pad_zero(), j));
                    assert(self@[j] == elem_add::<T>(lhs@[j], grown[j]));
                } else {
                    assert(self@[j] == grown[j]);
                    assert(j < old(self)@.len());
                    assert(grown[j] == old(self)@[j]);
                }
            }
            assert(self@ =~= target);
            if ok {
                assert(coeffs_contained(self.base_ring_spec(), self@));
            }
        }
    }

    /// Subtract this matrix from `lhs`, in place of this matrix: the
    /// mirrored "from" direction of subtraction.
    pub fn sub_from(&mut self, lhs: &Self)
        ensures
            final (self)@ == poly_sub_from_spec::<T>(old(self)@, lhs@, old(self).pad_zero()),
            final (self).ctx == old(self).ctx,
            coeffs_contained(old(self).base_ring_spec(), old(self)@) && coeffs_contained(
                old(self).base_ring_spec(),
                lhs@,
            ) ==> coeffs_contained(final (self).base_ring_spec(), final (self)@),
    {
        let n = lhs.entries.len();
        let len = self.entries.len();
        let max_len = if len >= n {
            len
        } else {
            n
        };
        self.resize_entries(max_len);
        let ghost grown = self@;
        let ghost ok = coeffs_contained(old(self).base_ring_spec(), old(self)@)
            && coeffs_contained(old(self).base_ring_spec(), lhs@);
        proof {
            if ok {
                old(self).base_ring_spec().lemma_identities_contained();
                assert forall|j: int| 0 <= j < grown.len() implies #[trigger] self.base_ring_spec()
                    .contains(&grown[j]) by {
                    if j < old(self)@.len() {
                        assert(grown[j] == old(self)@[j]);
                    } else {
                        assert(grown[j] == old(self).pad_zero());
                    }
                }
            }
        }
        let mut i: usize = 0;
        while i < n
            invariant
                n == lhs.entries@.len(),
                n <= self@.len(),
                i <= n,
                self@.len() == grown.len(),
                forall|j: int| 0 <= j < i ==> self@[j] == elem_sub::<T>(lhs@[j], grown[j]),
                forall|j: int| i <= j < self@.len() ==> self@[j] == grown[j],
                self.ctx == old(self).ctx,
                ok ==> coeffs_contained(self.base_ring_spec(), grown),
                ok ==> coeffs_contained(self.base_ring_spec(), lhs@),
                ok ==> forall|j: int|
                    0 <= j < i ==> #[trigger] self.base_ring_spec().contains(&self@[j]),
            decreases n - i,
        {
            let s = lhs.entries[i].sub_elem(&self.entries[i]);
            proof {
                if ok {
                    assert(self.base_ring_spec().contains(&grown[i as int]));
                    assert(self.base_ring_spec().contains(&lhs@[i as int]));
                    assert(self.base_ring_spec().contains(&s));
                }
            }
            self.entries[i] = s;
            i += 1;
        }
        proof {
            let target = poly_sub_from_spec::<T>(old(self)@, lhs@, old(self).pad_zero());
            assert(self@.len() == target.len());
            assert forall|j: int| 0 <= j < self@.len() implies self@[j] == target[j] by {
                assert(grown == poly_resize_spec::<T>(
                    old(self)@,
                    old(self).pad_zero(),
                    max_len as nat,
                ));
                if j < n {
                    assert(grown[j] == zero_ext::<T>(old(self)@, old(self).pad_zero(), j));
                    assert(self@[j] == elem_sub::<T>(lhs@[j], grown[j]));
                } else {
                    assert(self@[j] == grown[j]);
                    assert(j < old(self)@.len());
                    assert(grown[j] == old(self)@[j]);
                }
            }
            assert(self@ =~= target);
            if ok {
                assert(coeffs_contained(self.base_ring_spec(), self@));
            }
        }
    }

    /// Negate this matrix in place: every entry is replaced by its
    /// additive inverse.
    pub fn neg_assign(&mut self)
        ensures
            final (self)@ == poly_neg_spec::<T>(old(self)@),
            final (self).ctx == old(self).ctx,
            coeffs_contained(old(self).base_ring_spec(), old(self)@) ==> coeffs_contained(
                final (self).base_ring_spec(),
                final (self)@,
            ),
    {
        let n = self.entries.len();
        let ghost orig = self@;
        let ghost ok = coeffs_contained(old(self).base_ring_spec(), old(self)@);
        let mut i: usize = 0;
        while i < n
            invariant
                n == self@.len(),
                i <= n,
                self@.len() == orig.len(),
                forall|j: int| 0 <= j < i ==> self@[j] == elem_neg::<T>(orig[j]),
                forall|j: int| i <= j < self@.len() ==> self@[j] == orig[j],
                self.ctx == old(self).ctx,
                ok ==> coeffs_contained(self.base_ring_spec(), orig),
                ok ==> forall|j: int|
                    0 <= j < i ==> #[trigger] self.base_ring_spec().contains(&self@[j]),
            decreases n - i,
        {
            let s = self.entries[i].two_sided_inverse(Additive);
            proof {
                s.lemma_self_view();
                if ok {
                    assert(self.base_ring_spec().contains(&orig[i as int]));
                    assert(self.base_ring_spec().contains(&s));
                }
            }
            self.entries[i] = s;
            i += 1;
        }
        proof {
            assert(self@ =~= poly_neg_spec::<T>(old(self)@));
            if ok {
                assert(coeffs_contained(self.base_ring_spec(), self@));
            }
        }
    }

    /// The number of stored entries.
    pub fn len(&self) -> (r: usize)
        ensures
            r == self@.len(),
    {
        self.entries.len()
    }

    /// The number of rows.
    pub fn nrows(&self) -> (r: usize)
        ensures
            r == self.nrows_spec(),
    {
        self.ctx.nrows
    }

    /// The number of columns.
    pub fn ncols(&self) -> (r: usize)
        ensures
            r == self.ncols_spec(),
    {
        self.ctx.ncols
    }

    /// The entry at row `i`, column `j`, when the flat row-major index
    /// `i * ncols + j` is within the entry count; no value otherwise.
    /// Reads never fail and never resize.
    pub fn get_entry(&self, i: usize, j: usize) -> (r: Option<Elem<T>>)
        ensures
            i * self.ncols_spec() + j < self@.len() ==> r == Some(
                self@[i * self.ncols_spec() + j],
            ),
            i * self.ncols_spec() + j >= self@.len() ==> r is None,
    {
        let n = self.entries.len();
        match i.checked_mul(self.ctx.ncols) {
            Some(p) => match p.checked_add(j) {
                Some(idx) => {
                    if idx < n {
                        Some(self.entries[idx].clone_elem())
                    } else {
                        None
                    }
                },
                None => {
                    proof {
                        assert(i * self.ncols_spec() + j > usize::MAX >= n);
                    }
                    None
                },
            },
            None => {
                proof {
                    assert(i * self.ncols_spec() >= usize::MAX >= n);
                }
                None
            },
        }
    }

    /// Replace the entry at row `i`, column `j` when the flat row-major
    /// index is within the entry count, returning the previous entry; no
    /// value otherwise, and the matrix does not grow.
    pub fn set_entry(&mut self, i: usize, j: usize, entry: Elem<T>) -> (r: Option<Elem<T>>)
        ensures
            i * old(self).ncols_spec() + j < old(self)@.len() ==> {
                &&& final (self)@ == old(self)@.update((i * old(self).ncols_spec() + j) as int,
                entry)
                &&& r == Some(old(self)@[i * old(self).ncols_spec() + j])
            },
            i * old(self).ncols_spec() + j >= old(self)@.len() ==> {
                &&& final (self)@ == old(self)@
                &&& r is None
            },
            final (self).ctx == old(self).ctx,
    {
        let n = self.entries.len();
        match i.checked_mul(self.ctx.ncols) {
            Some(p) => match p.checked_add(j) {
                Some(idx) => {
                    if idx < n {
                        self.entries.push(entry);
                        let prev = self.entries.swap_remove(idx);
                        proof {
                            assert(self@ =~= old(self)@.update(idx as int, entry));
                        }
                        Some(prev)
                    } else {
                        None
                    }
                },
                None => {
                    proof {
                        assert(i * old(self).ncols_spec() + j > usize::MAX >= n);
                    }
                    None
                },
            },
            None => {
                proof {
                    assert(i * old(self).ncols_spec() >= usize::MAX >= n);
                }
                None
            },
        }
    }

    /// A copy of all entries, in row-major order.
    pub fn get_entries(&self) -> (r: Vec<Elem<T>>)
        ensures
            r@ == self@,
    {
        let c = self.clone_mat();
        c.entries
    }
}

} // verus!

verus! {

impl<T: Ring> Parent for GenericMatSpace<T> where Elem<T>: RingElement<Parent = T> {
    type Element = GenericMat<T>;

    open spec fn contains(&self, x: &GenericMat<T>) -> bool {
        &&& x.base_ring_spec() == self.base_ring_spec()
        &&& x.nrows_spec() == self.nrows_spec()
        &&& x.ncols_spec() == self.ncols_spec()
        &&& x@.len() == self.nrows_spec() * self.ncols_spec()
        &&& coeffs_contained(self.base_ring_spec(), x@)
    }
}

impl<T: Ring> Element for GenericMat<T> where Elem<T>: RingElement<Parent = T> {
    type Parent = GenericMatSpace<T>;

    open spec fn has_parent(&self, p: &GenericMatSpace<T>) -> bool {
        &&& p.base_ring_spec() == self.base_ring_spec()
        &&& p.nrows_spec() == self.nrows_spec()
        &&& p.ncols_spec() == self.ncols_spec()
    }

    fn parent(&self) -> (p: GenericMatSpace<T>) {
        GenericMatSpace {
            ctx: GenericMatCtx {
                base_ring: self.ctx.base_ring.clone_ring(),
                nrows: self.ctx.nrows,
                ncols: self.ctx.ncols,
            },
        }
    }
}

impl<T: Ring> Operation<Additive> for GenericMat<T> where Elem<T>: RingElement<Parent = T> {
    open spec fn op_req(&self, right: &Self) -> bool {
        true
    }

    open spec fn op_spec(&self, right: &Self) -> Seq<Elem<T>> {
        poly_add_spec::<T>(self@, right@, self.pad_zero())
    }

    fn operate(&self, o: Additive, right: &Self) -> (r: Self) {
        let mut r = self.clone_mat();
        r.add_assign(right);
        proof {
            assert forall|p: GenericMatSpace<T>|
                p.contains(self) && p.contains(right) implies #[trigger] p.contains(&r) by {
                assert(coeffs_contained(self.base_ring_spec(), self@));
                assert(coeffs_contained(self.base_ring_spec(), right@));
            }
        }
        r
    }
}

impl<T: Ring> IsIdentity<Additive> for GenericMat<T> where Elem<T>: RingElement<Parent = T> {
    open spec fn is_identity_spec(&self) -> bool {
        forall|i: int| 0 <= i < self@.len() ==> crate::structures::elem_is_zero::<T>(self@[i])
    }

    fn is_identity(&self, o: Additive) -> (r: bool) {
        let n = self.entries.len();
        let mut i: usize = 0;
        while i < n
            invariant
                n == self@.len(),
                i <= n,
                forall|j: int| 0 <= j < i ==> crate::structures::elem_is_zero::<T>(self@[j]),
            decreases n - i,
        {
            if !self.entries[i].is_identity(Additive) {
                return false;
            }
            i += 1;
        }
        true
    }
}

impl<T: Ring> TwoSidedInverse<Additive> for GenericMat<T> where Elem<T>: RingElement<
    Parent = T,
> {
    open spec fn inverse_spec(&self) -> Seq<Elem<T>> {
        poly_neg_spec::<T>(self@)
    }

    fn two_sided_inverse(&self, o: Additive) -> (r: Self) {
        let mut r = self.clone_mat();
        r.neg_assign();
        proof {
            assert forall|p: GenericMatSpace<T>| p.contains(self) implies #[trigger] p.contains(
                &r,
            ) by {
                assert(coeffs_contained(self.base_ring_spec(), self@));
            }
        }
        r
    }
}

impl<T: Ring> Identity<Additive> for GenericMatSpace<T> where Elem<T>: RingElement<Parent = T> {
    open spec fn identity_spec(&self) -> Seq<Elem<T>> {
        Seq::new(
            self.nrows_spec() * self.ncols_spec(),
            |i: int| ring_zero::<T>(self.base_ring_spec()),
        )
    }

    fn identity(&self, o: Additive) -> (r: GenericMat<T>) {
        let nr = self.ctx.nrows;
        let nc = self.ctx.ncols;
        let mut entries: Vec<Elem<T>> = Vec::new();
        let mut i: usize = 0;
        while i < nr
            invariant
                nr == self.ctx.nrows,
                nc == self.ctx.ncols,
                i <= nr,
                entries@.len() == i * nc,
                forall|k: int|
                    0 <= k < entries@.len() ==> entries@[k] == ring_zero::<T>(
                        self.base_ring_spec(),
                    ),
            decreases nr - i,
        {
            let mut j: usize = 0;
            while j < nc
                invariant
                    nr == self.ctx.nrows,
                    nc == self.ctx.ncols,
                    i < nr,
                    j <= nc,
                    entries@.len() == i * nc + j,
                    forall|k: int|
                        0 <= k < entries@.len() ==> entries@[k] == ring_zero::<T>(
                            self.base_ring_spec(),
                        ),
                decreases nc - j,
            {
                proof {
                    assert(i * nc + j < nr * nc) by (nonlinear_arith)
                        requires
                            0 <= i < nr,
                            0 <= j < nc,
                    ;
                }
                let z = self.ctx.base_ring.zero();
                entries.push(z);
                j += 1;
            }
            proof {
                assert(i * nc + nc == (i + 1) * nc) by (nonlinear_arith);
            }
            i += 1;
        }
        let r = GenericMat {
            ctx: GenericMatCtx {
                base_ring: self.ctx.base_ring.clone_ring(),
                nrows: self.ctx.nrows,
                ncols: self.ctx.ncols,
            },
            entries,
        };
        proof {
            self.base_ring_spec().lemma_identities_contained();
            assert(r@ =~= Identity::<Additive>::identity_spec(self));
        }
        r
    }

    proof fn lemma_identity(&self, x: &GenericMat<T>, id: &GenericMat<T>) {
        let base = self.base_ring_spec();
        let z = ring_zero::<T>(base);
        base.lemma_identities_contained();
        z.lemma_self_view();
        let rl = <GenericMat<T> as Operation<Additive>>::op_spec(x, id);
        assert(x.pad_zero() == z);
        assert(id@.len() == x@.len());
        assert forall|j: int| 0 <= j < rl.len() implies rl[j] == x@[j] by {
            assert(id@[j] == z);
            assert(zero_ext::<T>(x@, z, j) == x@[j]);
            let c = x@[j];
            c.lemma_self_view();
            <T as Identity<Additive>>::lemma_identity(&base, &c, &z);
        }
        assert(rl =~= x@);
        let rr = <GenericMat<T> as Operation<Additive>>::op_spec(id, x);
        assert(id.pad_zero() == z);
        assert forall|j: int| 0 <= j < rr.len() implies rr[j] == x@[j] by {
            assert(zero_ext::<T>(id@, z, j) == z);
            let c = x@[j];
            c.lemma_self_view();
            <T as Identity<Additive>>::lemma_identity(&base, &c, &z);
        }
        assert(rr =~= x@);
    }
}

impl<T: Ring> Divisible<Additive> for GenericMatSpace<T> where Elem<T>: RingElement<Parent = T> {
    proof fn lemma_inverse(
        &self,
        x: &GenericMat<T>,
        inv: &GenericMat<T>,
        rl: &GenericMat<T>,
        rr: &GenericMat<T>,
    ) {
        let base = self.base_ring_spec();
        let z = ring_zero::<T>(base);
        assert forall|j: int| 0 <= j < rl@.len() implies crate::structures::elem_is_zero::<T>(
            rl@[j],
        ) by {
            let c = x@[j];
            let n = inv@[j];
            let s = elem_add::<T>(c, n);
            let s_r = elem_add::<T>(n, c);
            c.lemma_self_view();
            n.lemma_self_view();
            s.lemma_self_view();
            s_r.lemma_self_view();
            assert(n == elem_neg::<T>(c));
            <T as Divisible<Additive>>::lemma_inverse(&base, &c, &n, &s, &s_r);
        }
        assert forall|j: int| 0 <= j < rr@.len() implies crate::structures::elem_is_zero::<T>(
            rr@[j],
        ) by {
            let c = x@[j];
            let n = inv@[j];
            c.lemma_self_view();
            n.lemma_self_view();
            assert(n == elem_neg::<T>(c));
            assert(zero_ext::<T>(inv@, z, j) == inv@[j]);
            let s = elem_add::<T>(n, c);
            s.lemma_self_view();
            let s2 = elem_add::<T>(c, n);
            s2.lemma_self_view();
            <T as Divisible<Additive>>::lemma_inverse(&base, &c, &n, &s2, &s);
        }
    }
}

impl<T: Ring> Associative<Additive> for GenericMatSpace<T> where Elem<T>: RingElement<
    Parent = T,
> {

}

impl<T: Ring> Commutative<Additive> for GenericMatSpace<T> where Elem<T>: RingElement<
    Parent = T,
> {

}

} // verus!

verus! {

/// A structure offering the matrix-space capability surface (the
/// additive structure; multiplication awaits a dimension-compatibility
/// guard) over the base ring `T`.
pub trait MatrixSpace<T: Ring>: Identity<Additive> + Divisible<Additive> + Associative<
    Additive,
> + Commutative<Additive> where
    Elem<T>: RingElement<Parent = T>,
    Self::Element: MatrixSpaceElement<T, Parent = Self>,
 {
    /// The base ring of this matrix space.
    spec fn base_ring_spec(&self) -> T;

    /// The number of rows.
    spec fn nrows_spec(&self) -> nat;

    /// The number of columns.
    spec fn ncols_spec(&self) -> nat;

    /// Initialize the matrix space from a base ring and a shape.
    fn new(ring: &T, nrows: u32, ncols: u32) -> (r: Self)
        ensures
            r.base_ring_spec() == *ring,
            r.nrows_spec() == nrows,
            r.ncols_spec() == ncols,
    ;

    /// A reference to the base ring.
    fn base_ring(&self) -> (r: &T)
        ensures
            *r == self.base_ring_spec(),
    ;

    /// The number of rows.
    fn nrows(&self) -> (r: usize)
        ensures
            r == self.nrows_spec(),
    ;

    /// The number of columns.
    fn ncols(&self) -> (r: usize)
        ensures
            r == self.ncols_spec(),
    ;

    /// Decide equality of two matrix spaces: equality of base ring and
    /// shape.
    fn eq_space(&self, other: &Self) -> (r: bool)
        ensures
            r == (self.base_ring_spec() == other.base_ring_spec() && self.nrows_spec()
                == other.nrows_spec() && self.ncols_spec() == other.ncols_spec()),
    ;

    /// The zero matrix of this space.
    fn zero(&self) -> (r: Self::Element)
        ensures
            r@ == Identity::<Additive>::identity_spec(self),
            self.contains(&r),
            r.has_parent(self),
    ;

    /// Whether this space is the generic (ring-agnostic) engine.
    fn is_generic(&self) -> bool;
}

/// An element of a matrix space over the base ring `T`: its view is its
/// flat entry sequence in row-major order.
pub trait MatrixSpaceElement<T: Ring>: Element + View<V = Seq<Elem<T>>> + Operation<
    Additive,
> + IsIdentity<Additive> + TwoSidedInverse<Additive> where Elem<T>: RingElement<Parent = T> {
    /// The base ring this matrix's entries live in.
    spec fn base_ring_spec(&self) -> T;

    /// The number of rows.
    spec fn nrows_spec(&self) -> nat;

    /// The number of columns.
    spec fn ncols_spec(&self) -> nat;

    /// A reference to the base ring.
    fn base_ring(&self) -> (r: &T)
        ensures
            *r == self.base_ring_spec(),
    ;

    /// The number of stored entries.
    fn len(&self) -> (r: usize)
        ensures
            r == self@.len(),
    ;

    /// The number of rows.
    fn nrows(&self) -> (r: usize)
        ensures
            r == self.nrows_spec(),
    ;

    /// The number of columns.
    fn ncols(&self) -> (r: usize)
        ensures
            r == self.ncols_spec(),
    ;

    /// The entry at row `i`, column `j`, when the flat row-major index is
    /// within the entry count; no value otherwise.
    fn get_entry(&self, i: usize, j: usize) -> (r: Option<Elem<T>>)
        ensures
            i * self.ncols_spec() + j < self@.len() ==> r == Some(
                self@[i * self.ncols_spec() + j],
            ),
            i * self.ncols_spec() + j >= self@.len() ==> r is None,
    ;

    /// Replace the entry at row `i`, column `j` when the flat row-major
    /// index is within the entry count, returning the previous entry; no
    /// value otherwise, and the matrix does not grow.
    fn set_entry(&mut self, i: usize, j: usize, entry: Elem<T>) -> (r: Option<Elem<T>>)
        ensures
            i * old(self).ncols_spec() + j < old(self)@.len() ==> {
                &&& final (self)@ == old(self)@.update((i * old(self).ncols_spec() + j) as int,
                entry)
                &&& r == Some(old(self)@[i * old(self).ncols_spec() + j])
            },
            i * old(self).ncols_spec() + j >= old(self)@.len() ==> {
                &&& final (self)@ == old(self)@
                &&& r is None
            },
            final (self).base_ring_spec() == old(self).base_ring_spec(),
            final (self).nrows_spec() == old(self).nrows_spec(),
            final (self).ncols_spec() == old(self).ncols_spec(),
    ;

    /// A copy of all entries, in row-major order.
    fn get_entries(&self) -> (r: Vec<Elem<T>>)
        ensures
            r@ == self@,
    ;

    /// Whether this matrix is (mathematically) zero.
    fn is_zero(&self) -> (r: bool)
        ensures
            r == <Self as IsIdentity<Additive>>::is_identity_spec(self),
    ;

    /// Decide equality of two matrices: shapes match and every entry pair
    /// compares equal.
    fn eq_mat(&self, other: &Self) -> (r: bool)
        ensures
            r == (self.nrows_spec() == other.nrows_spec() && self.ncols_spec()
                == other.ncols_spec() && self@ == other@),
    ;

    /// Render this matrix: one bracketed row per line, each entry wrapped
    /// in spaces.
    fn mat_string(&self) -> (r: String)
        requires
            self@.len() == self.nrows_spec() * self.ncols_spec(),
        ensures
            r@ == mat_str_spec::<T>(self@, self.nrows_spec(), self.ncols_spec()),
    ;

    /// Whether this element belongs to the generic (ring-agnostic)
    /// engine.
    fn is_generic(&self) -> bool;
}

impl<T: Ring> MatrixSpace<T> for GenericMatSpace<T> where Elem<T>: RingElement<Parent = T> {
    open spec fn base_ring_spec(&self) -> T {
        self.ctx.base_ring
    }

    open spec fn nrows_spec(&self) -> nat {
        self.ctx.nrows as nat
    }

    open spec fn ncols_spec(&self) -> nat {
        self.ctx.ncols as nat
    }

    fn new(ring: &T, nrows: u32, ncols: u32) -> (r: Self) {
        GenericMatSpace {
            ctx: GenericMatCtx::new(ring.clone_ring(), nrows as usize, ncols as usize),
        }
    }

    fn base_ring(&self) -> (r: &T) {
        &self.ctx.base_ring
    }

    fn nrows(&self) -> (r: usize) {
        self.ctx.nrows
    }

    fn ncols(&self) -> (r: usize) {
        self.ctx.ncols
    }

    fn eq_space(&self, other: &Self) -> (r: bool) {
        self.ctx.base_ring.eq_ring(&other.ctx.base_ring) && self.ctx.nrows == other.ctx.nrows
            && self.ctx.ncols == other.ctx.ncols
    }

    fn zero(&self) -> (r: GenericMat<T>) {
        Identity::<Additive>::identity(self, Additive)
    }

    fn is_generic(&self) -> bool {
        true
    }
}

impl<T: Ring> MatrixSpaceElement<T> for GenericMat<T> where Elem<T>: RingElement<Parent = T> {
    open spec fn base_ring_spec(&self) -> T {
        self.ctx.base_ring
    }

    open spec fn nrows_spec(&self) -> nat {
        self.ctx.nrows as nat
    }

    open spec fn ncols_spec(&self) -> nat {
        self.ctx.ncols as nat
    }

    fn base_ring(&self) -> (r: &T) {
        &self.ctx.base_ring
    }

    fn len(&self) -> (r: usize) {
        self.entries.len()
    }

    fn nrows(&self) -> (r: usize) {
        self.ctx.nrows
    }

    fn ncols(&self) -> (r: usize) {
        self.ctx.ncols
    }

    fn get_entry(&self, i: usize, j: usize) -> (r: Option<Elem<T>>) {
        GenericMat::get_entry(self, i, j)
    }

    fn set_entry(&mut self, i: usize, j: usize, entry: Elem<T>) -> (r: Option<Elem<T>>) {
        GenericMat::set_entry(self, i, j, entry)
    }

    fn get_entries(&self) -> (r: Vec<Elem<T>>) {
        GenericMat::get_entries(self)
    }

    fn is_zero(&self) -> (r: bool) {
        self.is_identity(Additive)
    }

    fn eq_mat(&self, other: &Self) -> (r: bool) {
        if self.ctx.nrows != other.ctx.nrows || self.ctx.ncols != other.ctx.ncols {
            return false;
        }
        let n = self.entries.len();
        if other.entries.len() != n {
            proof {
                assert(self@ != other@);
            }
            return false;
        }
        let mut i: usize = 0;
        while i < n
            invariant
                n == self@.len(),
                n == other@.len(),
                i <= n,
                self.ctx.nrows == other.ctx.nrows,
                self.ctx.ncols == other.ctx.ncols,
                forall|j: int| 0 <= j < i ==> self@[j] == other@[j],
            decreases n - i,
        {
            if !self.entries[i].eq_elem(&other.entries[i]) {
                proof {
                    assert(self@[i as int] != other@[i as int]);
                }
                return false;
            }
            i += 1;
        }
        proof {
            assert(self@ =~= other@);
        }
        true
    }

    fn mat_string(&self) -> (r: String) {
        self.render()
    }

    fn is_generic(&self) -> bool {
        true
    }
}

impl<T: Ring> crate::ops::BinAssign<crate::ops::AddOp> for GenericMat<T> where Elem<
    T,
>: RingElement<Parent = T> {
    open spec fn bin_req(&self, rhs: &Self) -> bool {
        true
    }

    open spec fn bin_spec(&self, rhs: &Self) -> Seq<Elem<T>> {
        poly_add_spec::<T>(self@, rhs@, self.pad_zero())
    }

    open spec fn bin_from_spec(&self, lhs: &Self) -> Seq<Elem<T>> {
        poly_add_from_spec::<T>(self@, lhs@, self.pad_zero())
    }

    fn op_assign(&mut self, rhs: &Self) {
        self.add_assign(rhs);
    }

    fn op_from(&mut self, lhs: &Self) {
        self.add_from(lhs);
    }

    fn clone_val(&self) -> (r: Self) {
        self.clone_mat()
    }
}

impl<T: Ring> crate::ops::BinAssign<crate::ops::SubOp> for GenericMat<T> where Elem<
    T,
>: RingElement<Parent = T> {
    open spec fn bin_req(&self, rhs: &Self) -> bool {
        true
    }

    open spec fn bin_spec(&self, rhs: &Self) -> Seq<Elem<T>> {
        poly_sub_spec::<T>(self@, rhs@, self.pad_zero())
    }

    open spec fn bin_from_spec(&self, lhs: &Self) -> Seq<Elem<T>> {
        poly_sub_from_spec::<T>(self@, lhs@, self.pad_zero())
    }

    fn op_assign(&mut self, rhs: &Self) {
        self.sub_assign(rhs);
    }

    fn op_from(&mut self, lhs: &Self) {
        self.sub_from(lhs);
    }

    fn clone_val(&self) -> (r: Self) {
        self.clone_mat()
    }
}

impl<T: Ring> crate::ops::UnAssign<crate::ops::NegOp> for GenericMat<T> where Elem<
    T,
>: RingElement<Parent = T> {
    open spec fn un_spec(&self) -> Seq<Elem<T>> {
        poly_neg_spec::<T>(self@)
    }

    fn un_assign(&mut self) {
        self.neg_assign();
    }

    fn clone_un(&self) -> (r: Self) {
        self.clone_mat()
    }
}

} // verus!

verus! {

/// A coefficient ring's choice of inner matrix-space representation.
pub trait IntoMatSpace: Ring where
    Elem<Self>: RingElement<Parent = Self>,
    <Self::Inner as Parent>::Element: MatrixSpaceElement<Self, Parent = Self::Inner>,
 {
    type Inner: MatrixSpace<Self>;
}

/// The inner matrix-space representation chosen by `T`.
pub type InnerMatSpace<T> = <T as IntoMatSpace>::Inner;

/// The element type of the inner representation chosen by `T`.
pub type InnerMat<T> = <<T as IntoMatSpace>::Inner as Parent>::Element;

/// The user-facing matrix space over `T`: a facade owning exactly one
/// inner representation, to which it forwards everything.
#[verifier::reject_recursive_types(T)]
pub struct MatSpace<T: IntoMatSpace> where Elem<T>: RingElement<Parent = T> {
    pub inner: InnerMatSpace<T>,
}

/// The user-facing matrix over `T`: a facade owning exactly one inner
/// representation, to which it forwards everything.
#[verifier::reject_recursive_types(T)]
pub struct Mat<T: IntoMatSpace> where Elem<T>: RingElement<Parent = T> {
    pub inner: InnerMat<T>,
}

impl<T: IntoMatSpace> MatSpace<T> where
    Elem<T>: RingElement<Parent = T>,
    InnerMat<T>: MatrixSpaceElement<T, Parent = InnerMatSpace<T>>,
 {
    /// A reference to the inner representation.
    pub fn inner(&self) -> (r: &InnerMatSpace<T>)
        ensures
            *r == self.inner,
    {
        &self.inner
    }

    /// A mutable reference to the inner representation.
    pub fn inner_mut(&mut self) -> (r: &mut InnerMatSpace<T>)
        ensures
            *r == old(self).inner,
            final (self).inner == *final (r),
    {
        &mut self.inner
    }

    /// Consume the facade, yielding the inner representation.
    pub fn into_inner(self) -> (r: InnerMatSpace<T>)
        ensures
            r == self.inner,
    {
        self.inner
    }

    /// Build the matrix space an element's ring gives rise to, from an
    /// element of the base ring and a shape.
    pub fn infer(elem: &Elem<T>, nrows: u32, ncols: u32) -> (r: Self)
        ensures
            r.inner.nrows_spec() == nrows,
            r.inner.ncols_spec() == ncols,
    {
        let ring = elem.parent();
        MatSpace { inner: <InnerMatSpace<T> as MatrixSpace<T>>::new(&ring, nrows, ncols) }
    }
}

impl<T: IntoMatSpace> Mat<T> where
    Elem<T>: RingElement<Parent = T>,
    InnerMat<T>: MatrixSpaceElement<T, Parent = InnerMatSpace<T>>,
 {
    /// A reference to the inner representation.
    pub fn inner(&self) -> (r: &InnerMat<T>)
        ensures
            *r == self.inner,
    {
        &self.inner
    }

    /// A mutable reference to the inner representation.
    pub fn inner_mut(&mut self) -> (r: &mut InnerMat<T>)
        ensures
            *r == old(self).inner,
            final (self).inner == *final (r),
    {
        &mut self.inner
    }

    /// Consume the facade, yielding the inner representation.
    pub fn into_inner(self) -> (r: InnerMat<T>)
        ensures
            r == self.inner,
    {
        self.inner
    }
}

impl<T: IntoMatSpace> View for Mat<T> where
    Elem<T>: RingElement<Parent = T>,
    InnerMat<T>: MatrixSpaceElement<T, Parent = InnerMatSpace<T>>,
 {
    type V = Seq<Elem<T>>;

    open spec fn view(&self) -> Seq<Elem<T>> {
        self.inner@
    }
}

impl<T: IntoMatSpace> Parent for MatSpace<T> where
    Elem<T>: RingElement<Parent = T>,
    InnerMat<T>: MatrixSpaceElement<T, Parent = InnerMatSpace<T>>,
 {
    type Element = Mat<T>;

    open spec fn contains(&self, x: &Mat<T>) -> bool {
        self.inner.contains(&x.inner)
    }
}

impl<T: IntoMatSpace> Element for Mat<T> where
    Elem<T>: RingElement<Parent = T>,
    InnerMat<T>: MatrixSpaceElement<T, Parent = InnerMatSpace<T>>,
 {
    type Parent = MatSpace<T>;

    open spec fn has_parent(&self, p: &MatSpace<T>) -> bool {
        self.inner.has_parent(&p.inner)
    }

    fn parent(&self) -> (p: MatSpace<T>) {
        MatSpace { inner: self.inner.parent() }
    }
}

impl<T: IntoMatSpace> Operation<Additive> for Mat<T> where
    Elem<T>: RingElement<Parent = T>,
    InnerMat<T>: MatrixSpaceElement<T, Parent = InnerMatSpace<T>>,
 {
    open spec fn op_req(&self, right: &Self) -> bool {
        <InnerMat<T> as Operation<Additive>>::op_req(&self.inner, &right.inner)
    }

    open spec fn op_spec(&self, right: &Self) -> Seq<Elem<T>> {
        <InnerMat<T> as Operation<Additive>>::op_spec(&self.inner, &right.inner)
    }

    fn operate(&self, o: Additive, right: &Self) -> (r: Self) {
        let r = Mat { inner: self.inner.operate(Additive, &right.inner) };
        proof {
            assert forall|p: MatSpace<T>|
                p.contains(self) && p.contains(right) implies #[trigger] p.contains(&r) by {
                assert(p.inner.contains(&r.inner));
            }
        }
        r
    }
}

impl<T: IntoMatSpace> IsIdentity<Additive> for Mat<T> where
    Elem<T>: RingElement<Parent = T>,
    InnerMat<T>: MatrixSpaceElement<T, Parent = InnerMatSpace<T>>,
 {
    open spec fn is_identity_spec(&self) -> bool {
        <InnerMat<T> as IsIdentity<Additive>>::is_identity_spec(&self.inner)
    }

    fn is_identity(&self, o: Additive) -> (r: bool) {
        self.inner.is_identity(Additive)
    }
}

impl<T: IntoMatSpace> TwoSidedInverse<Additive> for Mat<T> where
    Elem<T>: RingElement<Parent = T>,
    InnerMat<T>: MatrixSpaceElement<T, Parent = InnerMatSpace<T>>,
 {
    open spec fn inverse_spec(&self) -> Seq<Elem<T>> {
        <InnerMat<T> as TwoSidedInverse<Additive>>::inverse_spec(&self.inner)
    }

    fn two_sided_inverse(&self, o: Additive) -> (r: Self) {
        let r = Mat { inner: self.inner.two_sided_inverse(Additive) };
        proof {
            assert forall|p: MatSpace<T>| p.contains(self) implies #[trigger] p.contains(&r) by {
                assert(p.inner.contains(&r.inner));
            }
        }
        r
    }
}

impl<T: IntoMatSpace> Identity<Additive> for MatSpace<T> where
    Elem<T>: RingElement<Parent = T>,
    InnerMat<T>: MatrixSpaceElement<T, Parent = InnerMatSpace<T>>,
 {
    open spec fn identity_spec(&self) -> Seq<Elem<T>> {
        Identity::<Additive>::identity_spec(&self.inner)
    }

    fn identity(&self, o: Additive) -> (r: Mat<T>) {
        Mat { inner: self.inner.identity(Additive) }
    }

    proof fn lemma_identity(&self, x: &Mat<T>, id: &Mat<T>) {
        <InnerMatSpace<T> as Identity<Additive>>::lemma_identity(
            &self.inner,
            &x.inner,
            &id.inner,
        );
    }
}

impl<T: IntoMatSpace> Divisible<Additive> for MatSpace<T> where
    Elem<T>: RingElement<Parent = T>,
    InnerMat<T>: MatrixSpaceElement<T, Parent = InnerMatSpace<T>>,
 {
    proof fn lemma_inverse(&self, x: &Mat<T>, inv: &Mat<T>, rl: &Mat<T>, rr: &Mat<T>) {
        <InnerMatSpace<T> as Divisible<Additive>>::lemma_inverse(
            &self.inner,
            &x.inner,
            &inv.inner,
            &rl.inner,
            &rr.inner,
        );
    }
}

impl<T: IntoMatSpace> Associative<Additive> for MatSpace<T> where
    Elem<T>: RingElement<Parent = T>,
    InnerMat<T>: MatrixSpaceElement<T, Parent = InnerMatSpace<T>>,
 {

}

impl<T: IntoMatSpace> Commutative<Additive> for MatSpace<T> where
    Elem<T>: RingElement<Parent = T>,
    InnerMat<T>: MatrixSpaceElement<T, Parent = InnerMatSpace<T>>,
 {

}

impl<T: IntoMatSpace> MatrixSpace<T> for MatSpace<T> where
    Elem<T>: RingElement<Parent = T>,
    InnerMat<T>: MatrixSpaceElement<T, Parent = InnerMatSpace<T>>,
 {
    open spec fn base_ring_spec(&self) -> T {
        self.inner.base_ring_spec()
    }

    open spec fn nrows_spec(&self) -> nat {
        self.inner.nrows_spec()
    }

    open spec fn ncols_spec(&self) -> nat {
        self.inner.ncols_spec()
    }

    fn new(ring: &T, nrows: u32, ncols: u32) -> (r: Self) {
        MatSpace { inner: <InnerMatSpace<T> as MatrixSpace<T>>::new(ring, nrows, ncols) }
    }

    fn base_ring(&self) -> (r: &T) {
        self.inner.base_ring()
    }

    fn nrows(&self) -> (r: usize) {
        self.inner.nrows()
    }

    fn ncols(&self) -> (r: usize) {
        self.inner.ncols()
    }

    fn eq_space(&self, other: &Self) -> (r: bool) {
        self.inner.eq_space(&other.inner)
    }

    fn zero(&self) -> (r: Mat<T>) {
        Identity::<Additive>::identity(self, Additive)
    }

    fn is_generic(&self) -> bool {
        self.inner.is_generic()
    }
}

impl<T: IntoMatSpace> MatrixSpaceElement<T> for Mat<T> where
    Elem<T>: RingElement<Parent = T>,
    InnerMat<T>: MatrixSpaceElement<T, Parent = InnerMatSpace<T>>,
 {
    open spec fn base_ring_spec(&self) -> T {
        self.inner.base_ring_spec()
    }

    open spec fn nrows_spec(&self) -> nat {
        self.inner.nrows_spec()
    }

    open spec fn ncols_spec(&self) -> nat {
        self.inner.ncols_spec()
    }

    fn base_ring(&self) -> (r: &T) {
        self.inner.base_ring()
    }

    fn len(&self) -> (r: usize) {
        self.inner.len()
    }

    fn nrows(&self) -> (r: usize) {
        self.inner.nrows()
    }

    fn ncols(&self) -> (r: usize) {
        self.inner.ncols()
    }

    fn get_entry(&self, i: usize, j: usize) -> (r: Option<Elem<T>>) {
        self.inner.get_entry(i, j)
    }

    fn set_entry(&mut self, i: usize, j: usize, entry: Elem<T>) -> (r: Option<Elem<T>>) {
        self.inner.set_entry(i, j, entry)
    }

    fn get_entries(&self) -> (r: Vec<Elem<T>>) {
        self.inner.get_entries()
    }

    fn is_zero(&self) -> (r: bool) {
        self.inner.is_identity(Additive)
    }

    fn eq_mat(&self, other: &Self) -> (r: bool) {
        self.inner.eq_mat(&other.inner)
    }

    fn mat_string(&self) -> (r: String) {
        self.inner.mat_string()
    }

    fn is_generic(&self) -> bool {
        self.inner.is_generic()
    }
}

impl<T: IntoMatSpace, Op> crate::ops::BinAssign<Op> for Mat<T> where
    Elem<T>: RingElement<Parent = T>,
    InnerMat<T>: MatrixSpaceElement<T, Parent = InnerMatSpace<T>>,
    InnerMat<T>: crate::ops::BinAssign<Op>,
 {
    open spec fn bin_req(&self, rhs: &Self) -> bool {
        self.inner.bin_req(&rhs.inner)
    }

    open spec fn bin_spec(&self, rhs: &Self) -> Seq<Elem<T>> {
        self.inner.bin_spec(&rhs.inner)
    }

    open spec fn bin_from_spec(&self, lhs: &Self) -> Seq<Elem<T>> {
        self.inner.bin_from_spec(&lhs.inner)
    }

    fn op_assign(&mut self, rhs: &Self) {
        self.inner.op_assign(&rhs.inner);
    }

    fn op_from(&mut self, lhs: &Self) {
        self.inner.op_from(&lhs.inner);
    }

    fn clone_val(&self) -> (r: Self) {
        let r = Mat { inner: self.inner.clone_val() };
        proof {
            assert forall|x: Self| #[trigger] r.bin_spec(&x) == self.bin_spec(&x) by {
                assert(r.inner.bin_spec(&x.inner) == self.inner.bin_spec(&x.inner));
            }
            assert forall|x: Self| #[trigger] r.bin_req(&x) == self.bin_req(&x) by {
                assert(r.inner.bin_req(&x.inner) == self.inner.bin_req(&x.inner));
            }
            assert forall|x: Self| #[trigger] r.bin_from_spec(&x) == self.bin_from_spec(&x) by {
                assert(r.inner.bin_from_spec(&x.inner) == self.inner.bin_from_spec(&x.inner));
            }
        }
        r
    }
}

impl<T: IntoMatSpace, Op> crate::ops::UnAssign<Op> for Mat<T> where
    Elem<T>: RingElement<Parent = T>,
    InnerMat<T>: MatrixSpaceElement<T, Parent = InnerMatSpace<T>>,
    InnerMat<T>: crate::ops::UnAssign<Op>,
 {
    open spec fn un_spec(&self) -> Seq<Elem<T>> {
        self.inner.un_spec()
    }

    fn un_assign(&mut self) {
        self.inner.un_assign();
    }

    fn clone_un(&self) -> (r: Self) {
        Mat { inner: self.inner.clone_un() }
    }
}

impl<T: Ring> PartialEq for GenericMatSpace<T> where Elem<T>: RingElement<Parent = T> {
    fn eq(&self, other: &Self) -> (r: bool) {
        MatrixSpace::eq_space(self, other)
    }
}

impl<T: Ring> vstd::std_specs::cmp::PartialEqSpecImpl for GenericMatSpace<T> where Elem<T>: RingElement<Parent = T> {
    open spec fn obeys_eq_spec() -> bool {
        true
    }

    open spec fn eq_spec(&self, other: &Self) -> bool {
        &&& self.ctx.base_ring == other.ctx.base_ring
        &&& self.ctx.nrows == other.ctx.nrows
        &&& self.ctx.ncols == other.ctx.ncols
    }
}

impl<T: IntoMatSpace> PartialEq for MatSpace<T> where
    Elem<T>: RingElement<Parent = T>,
    InnerMat<T>: MatrixSpaceElement<T, Parent = InnerMatSpace<T>>,
 {
    fn eq(&self, other: &Self) -> (r: bool) {
        self.inner.eq_space(&other.inner)
    }
}

impl<T: IntoMatSpace> vstd::std_specs::cmp::PartialEqSpecImpl for MatSpace<T> where
    Elem<T>: RingElement<Parent = T>,
    InnerMat<T>: MatrixSpaceElement<T, Parent = InnerMatSpace<T>>,
 {
    open spec fn obeys_eq_spec() -> bool {
        true
    }

    open spec fn eq_spec(&self, other: &Self) -> bool {
        &&& self.inner.base_ring_spec() == other.inner.base_ring_spec()
        &&& self.inner.nrows_spec() == other.inner.nrows_spec()
        &&& self.inner.ncols_spec() == other.inner.ncols_spec()
    }
}

impl<T: IntoMatSpace> PartialEq for Mat<T> where
    Elem<T>: RingElement<Parent = T>,
    InnerMat<T>: MatrixSpaceElement<T, Parent = InnerMatSpace<T>>,
 {
    fn eq(&self, other: &Self) -> (r: bool) {
        self.inner.eq_mat(&other.inner)
    }
}

impl<T: IntoMatSpace> vstd::std_specs::cmp::PartialEqSpecImpl for Mat<T> where
    Elem<T>: RingElement<Parent = T>,
    InnerMat<T>: MatrixSpaceElement<T, Parent = InnerMatSpace<T>>,
 {
    open spec fn obeys_eq_spec() -> bool {
        true
    }

    open spec fn eq_spec(&self, other: &Self) -> bool {
        &&& self.inner.nrows_spec() == other.inner.nrows_spec()
        &&& self.inner.ncols_spec() == other.inner.ncols_spec()
        &&& self@ == other@
    }
}

} // verus!

verus! {

/// The rendered form of one matrix row: each of the first `n` entries of
/// row `i`, each wrapped in single spaces.
pub open spec fn mat_row_str<T: Ring>(s: Seq<Elem<T>>, nc: nat, i: int, n: int) -> Seq<
    char,
> where Elem<T>: RingElement<Parent = T>
    decreases n,
{
    if n <= 0 {
        Seq::empty()
    } else {
        mat_row_str::<T>(s, nc, i, n - 1) + seq![' '] + s[i * nc + (n - 1)].str_spec() + seq![' ']
    }
}

/// The rendered form of the first `m` rows of a matrix: each row between
/// square brackets, rows separated by line breaks.
pub open spec fn mat_rows_str<T: Ring>(s: Seq<Elem<T>>, nr: nat, nc: nat, m: int) -> Seq<
    char,
> where Elem<T>: RingElement<Parent = T>
    decreases m,
{
    if m <= 0 {
        Seq::empty()
    } else {
        mat_rows_str::<T>(s, nr, nc, m - 1) + seq!['['] + mat_row_str::<T>(s, nc, m - 1, nc as int)
            + if m == nr {
            seq![']']
        } else {
            seq![']', '\n']
        }
    }
}

/// The rendered form of a whole matrix.
pub open spec fn mat_str_spec<T: Ring>(s: Seq<Elem<T>>, nr: nat, nc: nat) -> Seq<char> where Elem<
    T,
>: RingElement<Parent = T> {
    mat_rows_str::<T>(s, nr, nc, nr as int)
}

impl<T: Ring> GenericMat<T> where Elem<T>: RingElement<Parent = T> {
    /// Render this matrix: one bracketed row per line, each entry wrapped
    /// in spaces.
    fn render(&self) -> (r: String)
        requires
            self@.len() == self.nrows_spec() * self.ncols_spec(),
        ensures
            r@ == mat_str_spec::<T>(self@, self.nrows_spec(), self.ncols_spec()),
    {
        let nr = self.ctx.nrows;
        let nc = self.ctx.ncols;
        let total = self.entries.len();
        let mut out = String::new();
        let mut i: usize = 0;
        while i < nr
            invariant
                nr == self.ctx.nrows,
                nc == self.ctx.ncols,
                total == self@.len(),
                self@.len() == nr * nc,
                i <= nr,
                out@ == mat_rows_str::<T>(self@, nr as nat, nc as nat, i as int),
            decreases nr - i,
        {
            proof {
                reveal_strlit("[");
                reveal_strlit("]");
                reveal_strlit("]\n");
                reveal_strlit(" ");
            }
            out.append("[");
            let mut j: usize = 0;
            while j < nc
                invariant
                    nr == self.ctx.nrows,
                    nc == self.ctx.ncols,
                    total == self@.len(),
                    self@.len() == nr * nc,
                    i < nr,
                    j <= nc,
                    out@ == mat_rows_str::<T>(self@, nr as nat, nc as nat, i as int) + seq!['[']
                        + mat_row_str::<T>(self@, nc as nat, i as int, j as int),
                decreases nc - j,
            {
                proof {
                    reveal_strlit(" ");
                    assert(i * nc + j < nr * nc) by (nonlinear_arith)
                        requires
                            0 <= i < nr,
                            0 <= j < nc,
                    ;
                }
                let idx = i * nc + j;
                out.append(" ");
                let es = self.entries[idx].elem_string();
                out.append(es.as_str());
                out.append(" ");
                proof {
                    assert(" "@ =~= seq![' ']);
                    assert(out@ =~= mat_rows_str::<T>(self@, nr as nat, nc as nat, i as int)
                        + seq!['['] + mat_row_str::<T>(self@, nc as nat, i as int, j + 1));
                }
                j += 1;
            }
            if i + 1 == nr {
                out.append("]");
            } else {
                out.append("]\n");
            }
            proof {
                assert("["@ =~= seq!['[']);
                assert("]"@ =~= seq![']']);
                assert("]\n"@ =~= seq![']', '\n']);
                assert(out@ =~= mat_rows_str::<T>(self@, nr as nat, nc as nat, i + 1));
            }
            i += 1;
        }
        out
    }
}

} // verus!
