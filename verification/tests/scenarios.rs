//! Concrete end-to-end scenarios over the wrapping 8-bit base rings.

use inertia_generic::poly::PolyRing;
use inertia_generic::poly::PolynomialRing;
use inertia_generic::poly::PolynomialRingElement;
use inertia_generic::structures::Multiplicative;
use inertia_generic::structures::New;
use inertia_generic::structures::Operation;
use inertia_generic::wrapping::Wrap;
use inertia_generic::wrapping::WrappingRing;

#[test]
fn wrapping_poly_sub_scenario() {
    let zn = WrappingRing::<u8>::init();
    let znx: PolyRing<WrappingRing<u8>> = PolynomialRing::init(&zn, "x");
    let f = znx.new([1u8, 0u8, 1u8]);
    let g = znx.new([3u8, 2u8, 1u8]);
    let d = f.sub(&g);
    assert_eq!(d.len(), 3);
    assert_eq!(d.get_coefficient(0), Wrap(254u8));
    assert_eq!(d.get_coefficient(1), Wrap(254u8));
    assert_eq!(d.get_coefficient(2), Wrap(0u8));
    // rendered from highest degree to lowest, the zero term omitted
    assert_eq!(d.poly_string(), "254*x + 254".to_string());
}

#[test]
fn wrapping_scalar_mul_scenario() {
    let zn = WrappingRing::<i8>::init();
    let x = zn.new(-20i8);
    let y = zn.new(25i8);
    let z = x.operate(Multiplicative, &y);
    // (-20 * 25) mod 256 = -500 mod 256 = 12 in the signed representation
    assert_eq!(z, Wrap(12i8));
}

#[test]
fn display_contract_scenario() {
    let zn = WrappingRing::<u8>::init();
    let znx: PolyRing<WrappingRing<u8>> = PolynomialRing::init(&zn, "x");
    let h = znx.new([0u8, 1u8, 0u8, 1u8]);
    // descending order, implicit coefficient 1, implicit exponent 1,
    // zero terms omitted
    assert_eq!(h.poly_string(), "x^3 + x".to_string());
}
