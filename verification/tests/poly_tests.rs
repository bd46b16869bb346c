//! Tests of the polynomial engine and its facade: construction,
//! coefficient access and growth, arithmetic, delegation equivalence, and
//! display.

use inertia_generic::ops::binop_ref_ref;
use inertia_generic::ops::binop_ref_val;
use inertia_generic::ops::binop_val_ref;
use inertia_generic::ops::binop_val_val;
use inertia_generic::ops::unop_ref;
use inertia_generic::ops::unop_val;
use inertia_generic::ops::AddOp;
use inertia_generic::ops::BinAssign;
use inertia_generic::ops::MulOp;
use inertia_generic::ops::SubOp;
use inertia_generic::ops::NegOp;
use inertia_generic::poly::Poly;
use inertia_generic::poly::PolyRing;
use inertia_generic::poly::PolynomialRing;
use inertia_generic::poly::PolynomialRingElement;
use inertia_generic::structures::Additive;
use inertia_generic::structures::Element;
use inertia_generic::structures::Identity;
use inertia_generic::structures::IsIdentity;
use inertia_generic::structures::Multiplicative;
use inertia_generic::structures::New;
use inertia_generic::structures::Operation;
use inertia_generic::structures::TwoSidedInverse;
use inertia_generic::wrapping::Wrap;
use inertia_generic::wrapping::WrappingRing;
use inertia_generic::poly::GenericPolyRing;

fn ring_u8() -> PolyRing<WrappingRing<u8>> {
    let zn = WrappingRing::<u8>::init();
    PolynomialRing::init(&zn, "x")
}

#[test]
fn construction_length_equals_input_length() {
    let znx = ring_u8();
    let f = znx.new([7u8, 0u8, 0u8]);
    // no trimming of trailing zeros on construction
    assert_eq!(f.len(), 3);
    assert_eq!(f.degree(), 2);
    let s: &[u8] = &[4u8, 5u8];
    let g = znx.new(s);
    assert_eq!(g.len(), 2);
    assert_eq!(g.get_coefficient(1), Wrap(5u8));
}

#[test]
fn construction_from_empty_input_yields_zero() {
    let znx = ring_u8();
    let s: &[u8] = &[];
    let z = znx.new(s);
    assert_eq!(z.len(), 1);
    assert!(z.is_identity(Additive));
}

#[test]
fn coefficient_growth() {
    let znx = ring_u8();
    let mut f = znx.new([1u8]);
    f.set_coefficient(4, Wrap(9u8));
    // length grows to the index plus one
    assert_eq!(f.len(), 5);
    assert_eq!(f.get_coefficient(4), Wrap(9u8));
    // every newly introduced coefficient below the index reads as zero
    assert_eq!(f.get_coefficient(1), Wrap(0u8));
    assert_eq!(f.get_coefficient(2), Wrap(0u8));
    assert_eq!(f.get_coefficient(3), Wrap(0u8));
    // the old constant term is untouched
    assert_eq!(f.get_coefficient(0), Wrap(1u8));
}

#[test]
fn coefficient_growth_with_zero_value() {
    let znx = ring_u8();
    let mut f = znx.new([1u8]);
    f.set_coefficient(2, Wrap(0u8));
    // growth happens even when the stored value is zero
    assert_eq!(f.len(), 3);
}

#[test]
fn coefficient_reads_never_resize() {
    let znx = ring_u8();
    let f = znx.new([3u8]);
    // beyond the current length the base ring's zero comes back
    assert_eq!(f.get_coefficient(100), Wrap(0u8));
    assert_eq!(f.len(), 1);
}

#[test]
fn add_sub_round_trip() {
    let znx = ring_u8();
    let p = znx.new([10u8, 20u8, 30u8]);
    let q = znx.new([5u8, 200u8]);
    let s = p.add(&q);
    let r = s.sub(&q);
    assert!(r == p);
}

#[test]
fn add_sub_round_trip_length_sensitivity() {
    let znx = ring_u8();
    let p = znx.new([1u8]);
    let q = znx.new([0u8, 1u8]);
    let s = p.add(&q);
    let r = s.sub(&q);
    // addition pads to the longer operand and nothing trims afterwards,
    // so the round trip extends p by a zero coefficient
    assert_eq!(r.len(), 2);
    assert_eq!(r.get_coefficient(0), Wrap(1u8));
    assert_eq!(r.get_coefficient(1), Wrap(0u8));
    assert!(r != p);
}

#[test]
fn delegation_equivalence_shapes() {
    let znx = ring_u8();
    let a = znx.new([1u8, 2u8, 3u8]);
    let b = znx.new([100u8, 200u8]);
    // owned/owned, owned/borrowed, borrowed/borrowed and the assigning
    // form all agree
    let vv = binop_val_val::<AddOp, _>(a.clone(), b.clone());
    let vr = binop_val_ref::<AddOp, _>(a.clone(), &b);
    let rr = binop_ref_ref::<AddOp, _>(&a, &b);
    let rv = binop_ref_val::<AddOp, _>(&a, b.clone());
    let mut t = a.clone();
    BinAssign::<AddOp>::op_assign(&mut t, &b);
    assert!(vv == vr);
    assert!(vv == rr);
    assert!(vv == rv);
    assert!(vv == t);
    assert!(vv == a.add(&b));
    // subtraction and multiplication through the same machinery
    let d1 = binop_val_val::<SubOp, _>(a.clone(), b.clone());
    assert!(d1 == a.sub(&b));
    let m1 = binop_val_val::<MulOp, _>(a.clone(), b.clone());
    assert!(m1 == a.mul(&b));
    // negation shapes
    let n1 = unop_val::<NegOp, _>(a.clone());
    let n2 = unop_ref::<NegOp, _>(&a);
    assert!(n1 == n2);
    assert!(n1 == a.neg());
}

#[test]
fn classical_multiplication() {
    let znx = ring_u8();
    let a = znx.new([1u8, 1u8]);
    let b = znx.new([1u8, 1u8]);
    let m = a.mul(&b);
    // (1 + x)^2 = 1 + 2x + x^2
    assert_eq!(m.len(), 3);
    assert_eq!(m.get_coefficient(0), Wrap(1u8));
    assert_eq!(m.get_coefficient(1), Wrap(2u8));
    assert_eq!(m.get_coefficient(2), Wrap(1u8));
    // coefficients wrap: (200 + x) * (2) = 144 + 2x over u8
    let c = znx.new([200u8, 1u8]);
    let d = znx.new([2u8]);
    let m2 = c.mul(&d);
    assert_eq!(m2.len(), 2);
    assert_eq!(m2.get_coefficient(0), Wrap(144u8));
    assert_eq!(m2.get_coefficient(1), Wrap(2u8));
}

#[test]
fn poly_ring_identities() {
    let znx = ring_u8();
    let p = znx.new([9u8, 0u8, 7u8]);
    let zero: Poly<WrappingRing<u8>> = Identity::<Additive>::identity(&znx, Additive);
    let one: Poly<WrappingRing<u8>> = Identity::<Multiplicative>::identity(&znx, Multiplicative);
    // operating with the identity of either kind leaves the element as is
    assert!(p.operate(Additive, &zero) == p);
    assert!(zero.operate(Additive, &p) == p);
    assert!(p.operate(Multiplicative, &one) == p);
    assert!(one.operate(Multiplicative, &p) == p);
    assert!(zero.is_identity(Additive));
    assert!(one.is_identity(Multiplicative));
    assert!(zero.is_zero());
    assert!(one.is_one());
    assert!(!p.is_zero());
    let z2 = znx.zero();
    let o2 = znx.one();
    assert!(z2 == zero);
    assert!(o2 == one);
}

#[test]
fn poly_additive_inverse() {
    let znx = ring_u8();
    let p = znx.new([9u8, 250u8, 7u8]);
    let n = p.two_sided_inverse(Additive);
    // an element combined with its inverse is (mathematically) zero,
    // even though the representation keeps its length
    let s = p.operate(Additive, &n);
    assert_eq!(s.len(), 3);
    assert!(s.is_identity(Additive));
    assert_eq!(n.get_coefficient(1), Wrap(6u8));
}

#[test]
fn equality_is_length_sensitive() {
    let znx = ring_u8();
    let a = znx.new([1u8]);
    let b = znx.new([1u8, 0u8]);
    assert!(a != b);
    let c = znx.new([1u8]);
    assert!(a == c);
}

#[test]
fn zero_and_one_display() {
    let znx = ring_u8();
    let zero: Poly<WrappingRing<u8>> = Identity::<Additive>::identity(&znx, Additive);
    let one: Poly<WrappingRing<u8>> = Identity::<Multiplicative>::identity(&znx, Multiplicative);
    assert_eq!(zero.poly_string(), "0".to_string());
    assert_eq!(one.poly_string(), "1".to_string());
    // a longer all-zero polynomial has no renderable term
    let z2 = znx.new([0u8, 0u8]);
    assert_eq!(z2.poly_string(), "".to_string());
    // a big constant coefficient and exponent
    let big = znx.new([0u8, 0u8, 0u8, 0u8, 0u8, 0u8, 0u8, 0u8, 0u8, 0u8, 255u8]);
    assert_eq!(big.poly_string(), "255*x^10".to_string());
}

#[test]
fn var_is_presentation_metadata() {
    let zn = WrappingRing::<u8>::init();
    let mut znx: PolyRing<WrappingRing<u8>> = PolynomialRing::init(&zn, "x");
    assert_eq!(znx.var(), "x".to_string());
    let before = znx.new([0u8, 1u8]);
    znx.set_var("t");
    // the context is immutable after construction: elements built before
    // the rename keep the name they were built with
    assert_eq!(before.poly_string(), "x".to_string());
    assert_eq!(znx.var(), "t".to_string());
    let f = znx.new([0u8, 1u8]);
    assert_eq!(f.poly_string(), "t".to_string());
    assert_eq!(f.var(), "t".to_string());
    assert_eq!(znx.nvars(), 1);
    assert!(znx.is_generic());
}

#[test]
fn parent_reports_structure() {
    let znx = ring_u8();
    let f = znx.new([1u8, 2u8]);
    let p = f.parent();
    assert_eq!(p.var(), "x".to_string());
    let g = p.new([1u8, 2u8]);
    assert!(f == g);
    // independently constructed rings over equal parameters are equal,
    // whatever their variable names
    assert!(p == znx);
    let other: PolyRing<WrappingRing<u8>> = PolynomialRing::init(&WrappingRing::<u8>::init(), "z");
    assert!(other == znx);
    assert!(znx.eq_ring(&other));
}

#[test]
fn coefficients_copy_and_base_ring() {
    let znx = ring_u8();
    let f = znx.new([1u8, 2u8, 3u8]);
    let cs = f.get_coefficients();
    assert_eq!(cs, vec![Wrap(1u8), Wrap(2u8), Wrap(3u8)]);
    let _ring = f.base_ring();
    let _ring2 = znx.base_ring();
}

#[test]
fn generic_poly_rotations_and_resize() {
    let zn = WrappingRing::<u8>::init();
    let znx: GenericPolyRing<WrappingRing<u8>> = PolynomialRing::init(&zn, "x");
    let mut f = znx.new([1u8, 2u8, 3u8, 4u8]);
    f.rotate_right(1);
    assert_eq!(f.get_coefficients(), vec![Wrap(4u8), Wrap(1u8), Wrap(2u8), Wrap(3u8)]);
    f.rotate_left(1);
    assert_eq!(f.get_coefficients(), vec![Wrap(1u8), Wrap(2u8), Wrap(3u8), Wrap(4u8)]);
    f.resize(6);
    assert_eq!(f.len(), 6);
    assert_eq!(f.get_coefficient(5), Wrap(0u8));
    f.resize(2);
    assert_eq!(f.get_coefficients(), vec![Wrap(1u8), Wrap(2u8)]);
    // direct coefficient views
    assert_eq!(f.coefficient(0), Some(&Wrap(1u8)));
    assert_eq!(f.coeff(5), None);
    let c = f.coefficient_mut(3);
    *c = Wrap(8u8);
    assert_eq!(f.len(), 4);
    assert_eq!(f.get_coefficient(3), Wrap(8u8));
    assert_eq!(f.get_coefficient(2), Wrap(0u8));
    let v = f.into_coefficients();
    assert_eq!(v.len(), 4);
}

#[test]
fn mul_assign_and_from_directions() {
    let zn = WrappingRing::<u8>::init();
    let znx: GenericPolyRing<WrappingRing<u8>> = PolynomialRing::init(&zn, "x");
    let a = znx.new([1u8, 1u8]);
    let b = znx.new([3u8]);
    let mut m1 = a.clone_poly();
    m1.mul_assign_best(&b);
    assert_eq!(m1.get_coefficients(), vec![Wrap(3u8), Wrap(3u8)]);
    let mut m2 = a.clone_poly();
    m2.mul_from_best(&b);
    assert_eq!(m2.get_coefficients(), vec![Wrap(3u8), Wrap(3u8)]);
}
