//! Tests of the matrix space scaffold: shape, entry access with its
//! intentional no-growth behavior, and the additive structure.

use inertia_generic::mat::Mat;
use inertia_generic::mat::MatSpace;
use inertia_generic::mat::MatrixSpace;
use inertia_generic::mat::MatrixSpaceElement;
use inertia_generic::ops::binop_ref_ref;
use inertia_generic::ops::AddOp;
use inertia_generic::ops::SubOp;
use inertia_generic::ops::unop_ref;
use inertia_generic::ops::NegOp;
use inertia_generic::structures::Additive;
use inertia_generic::structures::Identity;
use inertia_generic::structures::IsIdentity;
use inertia_generic::structures::Operation;
use inertia_generic::structures::TwoSidedInverse;
use inertia_generic::wrapping::Wrap;
use inertia_generic::wrapping::WrappingRing;

fn space_2x2() -> MatSpace<WrappingRing<u8>> {
    let zn = WrappingRing::<u8>::init();
    MatrixSpace::new(&zn, 2, 2)
}

#[test]
fn mat_space_shape() {
    let s = space_2x2();
    assert_eq!(s.nrows(), 2);
    assert_eq!(s.ncols(), 2);
    assert!(s.is_generic());
    let inferred = MatSpace::<WrappingRing<u8>>::infer(&Wrap(3u8), 3, 4);
    assert_eq!(inferred.nrows(), 3);
    assert_eq!(inferred.ncols(), 4);
    // structural equality of spaces: base ring and shape
    assert!(s == space_2x2());
    assert!(s != inferred);
    assert!(s.eq_space(&space_2x2()));
}

#[test]
fn mat_zero_identity() {
    let s = space_2x2();
    let zero: Mat<WrappingRing<u8>> = Identity::<Additive>::identity(&s, Additive);
    assert_eq!(zero.len(), 4);
    assert!(zero.is_identity(Additive));
    assert!(zero.is_zero());
    assert_eq!(zero.get_entry(1, 1), Some(Wrap(0u8)));
    let z2 = s.zero();
    assert!(z2 == zero);
}

#[test]
fn mat_set_get_entry() {
    let s = space_2x2();
    let mut m: Mat<WrappingRing<u8>> = Identity::<Additive>::identity(&s, Additive);
    // an in-range write returns the previous entry
    assert_eq!(m.set_entry(1, 0, Wrap(7u8)), Some(Wrap(0u8)));
    assert_eq!(m.get_entry(1, 0), Some(Wrap(7u8)));
    // a second write returns what the first stored
    assert_eq!(m.set_entry(1, 0, Wrap(9u8)), Some(Wrap(7u8)));
    // an out-of-range write returns no value and the matrix does not grow
    assert_eq!(m.set_entry(2, 0, Wrap(1u8)), None);
    assert_eq!(m.len(), 4);
    // reads are bounds-checked against the flat entry count
    assert_eq!(m.get_entry(5, 5), None);
    // the flat row-major check accepts a large column index whose flat
    // position is still in range: (0, 2) reads the same cell as (1, 0)
    assert_eq!(m.get_entry(0, 2), Some(Wrap(9u8)));
}

#[test]
fn mat_additive_arithmetic() {
    let s = space_2x2();
    let mut a: Mat<WrappingRing<u8>> = Identity::<Additive>::identity(&s, Additive);
    let mut b: Mat<WrappingRing<u8>> = Identity::<Additive>::identity(&s, Additive);
    a.set_entry(0, 0, Wrap(200u8));
    a.set_entry(1, 1, Wrap(5u8));
    b.set_entry(0, 0, Wrap(100u8));
    let sum = binop_ref_ref::<AddOp, _>(&a, &b);
    assert_eq!(sum.get_entry(0, 0), Some(Wrap(44u8)));
    assert_eq!(sum.get_entry(1, 1), Some(Wrap(5u8)));
    let diff = binop_ref_ref::<SubOp, _>(&sum, &b);
    assert!(diff == a);
    let neg = unop_ref::<NegOp, _>(&a);
    assert_eq!(neg.get_entry(0, 0), Some(Wrap(56u8)));
    // an element combined with its inverse is the zero matrix
    let inv = a.two_sided_inverse(Additive);
    assert!(a.operate(Additive, &inv).is_identity(Additive));
    // operating with the zero matrix leaves the element unchanged
    let zero: Mat<WrappingRing<u8>> = Identity::<Additive>::identity(&s, Additive);
    assert!(a.operate(Additive, &zero) == a);
}

#[test]
fn mat_display() {
    let s = space_2x2();
    let mut m: Mat<WrappingRing<u8>> = Identity::<Additive>::identity(&s, Additive);
    m.set_entry(0, 0, Wrap(1u8));
    m.set_entry(0, 1, Wrap(2u8));
    m.set_entry(1, 0, Wrap(3u8));
    m.set_entry(1, 1, Wrap(4u8));
    assert_eq!(m.mat_string(), "[ 1  2 ]
[ 3  4 ]".to_string());
}

#[test]
fn mat_entries_copy() {
    let s = space_2x2();
    let mut m: Mat<WrappingRing<u8>> = Identity::<Additive>::identity(&s, Additive);
    m.set_entry(0, 1, Wrap(3u8));
    let es = m.get_entries();
    assert_eq!(es, vec![Wrap(0u8), Wrap(3u8), Wrap(0u8), Wrap(0u8)]);
    assert_eq!(m.nrows(), 2);
    assert_eq!(m.ncols(), 2);
}
