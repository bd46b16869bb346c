//! The operator-delegation layer.
//!
//! An operand type implements the assigning (`op_assign`) and mirrored
//! assigning (`op_from`) forms of each operator it supports, tagged by an
//! operator marker (`AddOp`, `SubOp`, `MulOp`, `NegOp`). The generic
//! functions here then derive the value-returning forms for every operand
//! shape — owned/owned, owned/borrowed, borrowed/owned,
//! borrowed/borrowed — once, instead of per operator and type.
//!
//! Delegation equivalence: every shape whose contract speaks of
//! `bin_spec` pins the result to the same value, so `a + b` computed from
//! owned operands, from clones, or from borrows agrees; the
//! borrowed/owned shape computes through the mirrored `bin_from_spec`,
//! which the engines relate to `bin_spec` by their mirror laws.
//!
//! A facade type gains an operator exactly when its inner representation
//! implements the corresponding marker trait: a missing operator is a
//! compile-time capability absence, not a runtime failure.

use vstd::prelude::*;

use crate::structures::Element;

verus! {

/// Operator marker: addition.
#[derive(Clone, Copy)]
pub struct AddOp;

/// Operator marker: subtraction.
#[derive(Clone, Copy)]
pub struct SubOp;

/// Operator marker: multiplication.
#[derive(Clone, Copy)]
pub struct MulOp;

/// Operator marker: negation.
#[derive(Clone, Copy)]
pub struct NegOp;

/// The assigning forms of the binary operator tagged `Op`: the receiver
/// becomes `receiver ∘ rhs` (`op_assign`) or `lhs ∘ receiver`
/// (`op_from`), so reference-holding operand combinations never need to
/// clone eagerly.
pub trait BinAssign<Op>: Element {
    /// What the machine requires of the operands (a result length that
    /// fits in `usize`, for composite representations).
    spec fn bin_req(&self, rhs: &Self) -> bool;

    /// The content of `self ∘ rhs`.
    spec fn bin_spec(&self, rhs: &Self) -> Self::V;

    /// The content of `lhs ∘ self` as computed in place of `self` by the
    /// mirrored direction.
    spec fn bin_from_spec(&self, lhs: &Self) -> Self::V;

    /// `self = self ∘ rhs`. The receiver keeps its parent structure.
    fn op_assign(&mut self, rhs: &Self)
        requires
            old(self).bin_req(rhs),
        ensures
            final (self)@ == old(self).bin_spec(rhs),
            forall|p: Self::Parent| #[trigger]
                final (self).has_parent(&p) <==> old(self).has_parent(&p),
    ;

    /// `self = lhs ∘ self`, mirrored so that `self` plays the right-hand
    /// role.
    fn op_from(&mut self, lhs: &Self)
        requires
            lhs.bin_req(old(self)),
        ensures
            final (self)@ == old(self).bin_from_spec(lhs),
            forall|p: Self::Parent| #[trigger]
                final (self).has_parent(&p) <==> old(self).has_parent(&p),
    ;

    /// Clone the operand; the clone has the same content and behaves the
    /// same under this operator.
    fn clone_val(&self) -> (r: Self)
        ensures
            r@ == self@,
            forall|x: Self| #[trigger] r.bin_spec(&x) == self.bin_spec(&x),
            forall|x: Self| #[trigger] r.bin_req(&x) == self.bin_req(&x),
            forall|x: Self| #[trigger] r.bin_from_spec(&x) == self.bin_from_spec(&x),
            forall|p: Self::Parent| #[trigger] r.has_parent(&p) <==> self.has_parent(&p),
    ;
}

/// The assigning form of the unary operator tagged `Op`.
pub trait UnAssign<Op>: Element {
    /// The content of the operator applied to `self`.
    spec fn un_spec(&self) -> Self::V;

    /// `self = ∘ self`. The receiver keeps its parent structure.
    fn un_assign(&mut self)
        ensures
            final (self)@ == old(self).un_spec(),
            forall|p: Self::Parent| #[trigger]
                final (self).has_parent(&p) <==> old(self).has_parent(&p),
    ;

    /// Clone the operand; the clone has the same content and behaves the
    /// same under this operator.
    fn clone_un(&self) -> (r: Self)
        ensures
            r@ == self@,
            r.un_spec() == self.un_spec(),
            forall|p: Self::Parent| #[trigger] r.has_parent(&p) <==> self.has_parent(&p),
    ;
}

/// `a ∘ b` from two owned operands: computed in place of `a`.
pub fn binop_val_val<Op, E: BinAssign<Op>>(a: E, b: E) -> (r: E)
    requires
        a.bin_req(&b),
    ensures
        r@ == a.bin_spec(&b),
        forall|p: E::Parent| #[trigger] r.has_parent(&p) <==> a.has_parent(&p),
{
    let mut x = a;
    x.op_assign(&b);
    x
}

/// `a ∘ b` from an owned left operand and a borrowed right one.
pub fn binop_val_ref<Op, E: BinAssign<Op>>(a: E, b: &E) -> (r: E)
    requires
        a.bin_req(b),
    ensures
        r@ == a.bin_spec(b),
        forall|p: E::Parent| #[trigger] r.has_parent(&p) <==> a.has_parent(&p),
{
    let mut x = a;
    x.op_assign(b);
    x
}

/// `a ∘ b` from a borrowed left operand and an owned right one: computed
/// in place of `b` through the mirrored direction, so nothing is cloned.
pub fn binop_ref_val<Op, E: BinAssign<Op>>(a: &E, b: E) -> (r: E)
    requires
        a.bin_req(&b),
    ensures
        r@ == b.bin_from_spec(a),
        forall|p: E::Parent| #[trigger] r.has_parent(&p) <==> b.has_parent(&p),
{
    let mut x = b;
    x.op_from(a);
    x
}

/// `a ∘ b` from two borrowed operands: the left one is cloned.
pub fn binop_ref_ref<Op, E: BinAssign<Op>>(a: &E, b: &E) -> (r: E)
    requires
        a.bin_req(b),
    ensures
        r@ == a.bin_spec(b),
        forall|p: E::Parent| #[trigger] r.has_parent(&p) <==> a.has_parent(&p),
{
    let mut x = a.clone_val();
    x.op_assign(b);
    x
}

/// `∘ a` from an owned operand: computed in place.
pub fn unop_val<Op, E: UnAssign<Op>>(a: E) -> (r: E)
    ensures
        r@ == a.un_spec(),
        forall|p: E::Parent| #[trigger] r.has_parent(&p) <==> a.has_parent(&p),
{
    let mut x = a;
    x.un_assign();
    x
}

/// `∘ a` from a borrowed operand: a clone is consumed.
pub fn unop_ref<Op, E: UnAssign<Op>>(a: &E) -> (r: E)
    ensures
        r@ == a.un_spec(),
        forall|p: E::Parent| #[trigger] r.has_parent(&p) <==> a.has_parent(&p),
{
    let mut x = a.clone_un();
    x.un_assign();
    x
}

} // verus!
