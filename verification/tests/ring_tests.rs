//! Tests of the wrapping base rings and the decimal text rendering.

use inertia_generic::poly::PolyRing;
use inertia_generic::poly::PolynomialRing;
use inertia_generic::poly::PolynomialRingElement;
use inertia_generic::structures::Additive;
use inertia_generic::structures::Element;
use inertia_generic::structures::Identity;
use inertia_generic::structures::IsIdentity;
use inertia_generic::structures::Multiplicative;
use inertia_generic::structures::New;
use inertia_generic::structures::Operation;
use inertia_generic::structures::Ring;
use inertia_generic::structures::RingElement;
use inertia_generic::structures::TwoSidedInverse;
use inertia_generic::text::i8_dec_string;
use inertia_generic::text::u8_dec_string;
use inertia_generic::text::usize_dec_string;
use inertia_generic::wrapping::Wrap;
use inertia_generic::wrapping::WrappingRing;

#[test]
fn scalar_additive_identity() {
    let zn = WrappingRing::<u8>::init();
    let x = zn.new(173u8);
    let zero = Identity::<Additive>::identity(&zn, Additive);
    assert_eq!(x.operate(Additive, &zero), x);
    assert_eq!(zero.operate(Additive, &x), x);
    assert!(zero.is_identity(Additive));
    assert!(!x.is_identity(Additive));
}

#[test]
fn scalar_multiplicative_identity() {
    let zn = WrappingRing::<i8>::init();
    let x = zn.new(-77i8);
    let one = Identity::<Multiplicative>::identity(&zn, Multiplicative);
    assert_eq!(x.operate(Multiplicative, &one), x);
    assert_eq!(one.operate(Multiplicative, &x), x);
    assert!(one.is_identity(Multiplicative));
}

#[test]
fn scalar_additive_inverse() {
    let zn = WrappingRing::<u8>::init();
    let x = zn.new(200u8);
    let inv = x.two_sided_inverse(Additive);
    assert_eq!(inv, Wrap(56u8));
    assert!(x.operate(Additive, &inv).is_identity(Additive));
    assert!(inv.operate(Additive, &x).is_identity(Additive));
    // the boundary element of the signed ring is its own inverse
    let zi = WrappingRing::<i8>::init();
    let m = zi.new(-128i8);
    assert_eq!(m.two_sided_inverse(Additive), Wrap(-128i8));
}

#[test]
fn scalar_wrapping_arithmetic() {
    let zn = WrappingRing::<u8>::init();
    let a = zn.new(200u8);
    let b = zn.new(100u8);
    assert_eq!(a.operate(Additive, &b), Wrap(44u8));
    assert_eq!(a.operate(Multiplicative, &b), Wrap(32u8));
    assert_eq!(a.sub_elem(&b), Wrap(100u8));
    assert_eq!(b.sub_elem(&a), Wrap(156u8));
    // cancellation: (a + b) - b == a
    assert_eq!(a.operate(Additive, &b).sub_elem(&b), a);
    let zero = zn.zero();
    let one = zn.one();
    assert_eq!(zero, Wrap(0u8));
    assert_eq!(one, Wrap(1u8));
    assert_eq!(a.parent().new(5u8), Wrap(5u8));
    assert!(zn.eq_ring(&WrappingRing::<u8>::init()));
}

#[test]
fn scalar_strings() {
    assert_eq!(Wrap(0u8).elem_string(), "0".to_string());
    assert_eq!(Wrap(42u8).elem_string(), "42".to_string());
    assert_eq!(Wrap(255u8).elem_string(), "255".to_string());
    assert_eq!(Wrap(-128i8).elem_string(), "-128".to_string());
    assert_eq!(Wrap(-1i8).elem_string(), "-1".to_string());
    assert_eq!(Wrap(127i8).elem_string(), "127".to_string());
    assert_eq!(Wrap(0i8).elem_string(), "0".to_string());
}

#[test]
fn decimal_rendering() {
    assert_eq!(u8_dec_string(7), "7".to_string());
    assert_eq!(u8_dec_string(70), "70".to_string());
    assert_eq!(u8_dec_string(100), "100".to_string());
    assert_eq!(i8_dec_string(-9), "-9".to_string());
    assert_eq!(usize_dec_string(0), "0".to_string());
    assert_eq!(usize_dec_string(1234567), "1234567".to_string());
}

#[test]
fn signed_poly_display() {
    let zi = WrappingRing::<i8>::init();
    let zix: PolyRing<WrappingRing<i8>> = PolynomialRing::init(&zi, "y");
    let f = zix.new([-1i8, 2i8]);
    assert_eq!(f.poly_string(), "2*y + -1".to_string());
    assert_eq!(f.len(), 2);
}

#[test]
fn scalar_clone_and_eq() {
    let a = Wrap(9u8);
    assert_eq!(a.clone_elem(), a);
    assert!(a.eq_elem(&Wrap(9u8)));
    assert!(!a.eq_elem(&Wrap(8u8)));
}
